//! The bounded FIFO queues that carry commands to the command processor and
//! responses back, each over an embassy-sync channel.
use vstd::prelude::*;
use embassy_sync::blocking_mutex::raw::NoopRawMutex;
use embassy_sync::channel::{Channel, TrySendError};

verus! {

/// Largest payload of a command or a response.
pub const MAX_MSG_LEN: usize = 512;

/// Number of items each queue holds.
pub const QUEUE_CAPACITY: usize = 4;

/// One reassembled device-dependent message payload.
#[derive(Clone, Copy, Debug)]
pub struct Command {
    pub len: usize,
    pub data: [u8; MAX_MSG_LEN],
}

/// One response text from the command processor.
#[derive(Clone, Copy, Debug)]
pub struct Response {
    pub len: usize,
    pub data: [u8; MAX_MSG_LEN],
}

impl Command {
    /// The bytes the command carries.
    pub open spec fn payload(self) -> Seq<u8> {
        self.data@.take(self.len as int)
    }
}

impl Response {
    /// The bytes the response carries.
    pub open spec fn payload(self) -> Seq<u8> {
        self.data@.take(self.len as int)
    }

    /// A response carrying `text`, cut to `MAX_MSG_LEN` bytes.
    pub fn from_bytes(text: &[u8]) -> (r: Response)
        ensures
            r.len as int == if text@.len() <= MAX_MSG_LEN {
                text@.len() as int
            } else {
                MAX_MSG_LEN as int
            },
            r.payload() == text@.take(r.len as int),
    {
        let len = if text.len() < MAX_MSG_LEN {
            text.len()
        } else {
            MAX_MSG_LEN
        };
        let mut data = [0u8; MAX_MSG_LEN];
        let mut i: usize = 0;
        while i < len
            invariant
                len <= MAX_MSG_LEN,
                len <= text@.len(),
                i <= len,
                forall|j: int| 0 <= j < i ==> data@[j] == text@[j],
            decreases len - i,
        {
            data[i] = text[i];
            i = i + 1;
        }
        let r = Response { len, data };
        assert(r.payload() =~= text@.take(len as int));
        r
    }
}

/// A bounded FIFO of commands.
#[verifier::external_body]
pub struct CommandQueue {
    chan: Channel<NoopRawMutex, Command, QUEUE_CAPACITY>,
}

/// A bounded FIFO of responses.
#[verifier::external_body]
pub struct ResponseQueue {
    chan: Channel<NoopRawMutex, Response, QUEUE_CAPACITY>,
}

/// The commands in `q`, oldest first.
pub uninterp spec fn queued_commands(q: CommandQueue) -> Seq<Command>;

/// The responses in `q`, oldest first.
pub uninterp spec fn queued_responses(q: ResponseQueue) -> Seq<Response>;

impl CommandQueue {
    /// Relies on embassy_sync's `Channel::new`: a new channel holds nothing.
    #[verifier::external_body]
    pub(crate) fn new() -> (r: CommandQueue)
        ensures
            queued_commands(r) == Seq::<Command>::empty(),
    {
        CommandQueue { chan: Channel::new() }
    }

    /// Relies on embassy_sync's `Channel::try_send`: the command is appended
    /// when fewer than `QUEUE_CAPACITY` are queued, and handed back otherwise.
    #[verifier::external_body]
    pub(crate) fn try_send(&mut self, c: Command) -> (r: Result<(), Command>)
        ensures
            queued_commands(*old(self)).len() < QUEUE_CAPACITY ==> {
                &&& r is Ok
                &&& queued_commands(*final(self)) == queued_commands(*old(self)).push(c)
            },
            queued_commands(*old(self)).len() >= QUEUE_CAPACITY ==> {
                &&& r == Err::<(), Command>(c)
                &&& queued_commands(*final(self)) == queued_commands(*old(self))
            },
            queued_commands(*final(self)).len() <= QUEUE_CAPACITY,
    {
        match self.chan.try_send(c) {
            Ok(()) => Ok(()),
            Err(TrySendError::Full(c)) => Err(c),
        }
    }

    /// Relies on embassy_sync's `Channel::try_receive`: the oldest command
    /// leaves the channel, or nothing when it is empty.
    #[verifier::external_body]
    pub(crate) fn try_receive(&mut self) -> (r: Option<Command>)
        ensures
            queued_commands(*old(self)).len() > 0 ==> {
                &&& r == Some(queued_commands(*old(self))[0])
                &&& queued_commands(*final(self)) == queued_commands(*old(self)).drop_first()
            },
            queued_commands(*old(self)).len() == 0 ==> {
                &&& r is None
                &&& queued_commands(*final(self)) == queued_commands(*old(self))
            },
    {
        self.chan.try_receive().ok()
    }
}

impl ResponseQueue {
    /// Relies on embassy_sync's `Channel::new`: a new channel holds nothing.
    #[verifier::external_body]
    pub(crate) fn new() -> (r: ResponseQueue)
        ensures
            queued_responses(r) == Seq::<Response>::empty(),
    {
        ResponseQueue { chan: Channel::new() }
    }

    /// Relies on embassy_sync's `Channel::try_send`: the response is appended
    /// when fewer than `QUEUE_CAPACITY` are queued, and handed back otherwise.
    #[verifier::external_body]
    pub(crate) fn try_send(&mut self, c: Response) -> (r: Result<(), Response>)
        ensures
            queued_responses(*old(self)).len() < QUEUE_CAPACITY ==> {
                &&& r is Ok
                &&& queued_responses(*final(self)) == queued_responses(*old(self)).push(c)
            },
            queued_responses(*old(self)).len() >= QUEUE_CAPACITY ==> {
                &&& r == Err::<(), Response>(c)
                &&& queued_responses(*final(self)) == queued_responses(*old(self))
            },
            queued_responses(*final(self)).len() <= QUEUE_CAPACITY,
    {
        match self.chan.try_send(c) {
            Ok(()) => Ok(()),
            Err(TrySendError::Full(c)) => Err(c),
        }
    }

    /// Relies on embassy_sync's `Channel::try_receive`: the oldest response
    /// leaves the channel, or nothing when it is empty.
    #[verifier::external_body]
    pub(crate) fn try_receive(&mut self) -> (r: Option<Response>)
        ensures
            queued_responses(*old(self)).len() > 0 ==> {
                &&& r == Some(queued_responses(*old(self))[0])
                &&& queued_responses(*final(self)) == queued_responses(*old(self)).drop_first()
            },
            queued_responses(*old(self)).len() == 0 ==> {
                &&& r is None
                &&& queued_responses(*final(self)) == queued_responses(*old(self))
            },
    {
        self.chan.try_receive().ok()
    }
}

} // verus!
