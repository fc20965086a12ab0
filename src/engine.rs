//! The bulk transfer engine: reassembles host messages from bulk-out packets,
//! hands commands to the command queue, and frames responses for bulk-in.
//!
//! The engine makes every decision; the caller performs the USB transfers.
//! It feeds each bulk-out packet to `on_packet`, and performs the action that
//! comes back: read the next packet, write a reply, or wait for a response
//! and then call `poll_response`.
use vstd::prelude::*;
use crate::codec::{
    decode_header, decode_spec, lemma_header_round_trip, BulkMessageHeader, encode_header, header_bytes, padding_for, padding_spec,
    DEV_DEP_MSG_IN, DEV_DEP_MSG_OUT, HEADER_LEN, REQUEST_DEV_DEP_MSG_IN,
};
use crate::queue::{
    queued_commands, queued_responses, Command, CommandQueue, Response, ResponseQueue,
    MAX_MSG_LEN, QUEUE_CAPACITY,
};

verus! {

/// Largest bulk packet the endpoints carry.
pub const MAX_PACKET_SIZE: usize = 64;

/// Room for a header, the largest payload and its padding.
pub const REPLY_CAPACITY: usize = HEADER_LEN + MAX_MSG_LEN + 4;

/// Where the engine stands between two packets.
pub enum Phase {
    /// Waiting for the first packet of a message.
    Idle,
    /// Inside a DEV_DEP_MSG_OUT: `region` holds the bytes after the header
    /// that arrived so far, padding included.
    Receiving { transfer_size: u32, region: Seq<u8> },
    /// A REQUEST_DEV_DEP_MSG_IN waits for a response.
    Awaiting { b_tag: u8, max_len: u32 },
}

/// Bytes after the header of an OUT message: payload and padding.
pub open spec fn receive_target(transfer_size: u32) -> int {
    transfer_size + padding_spec(transfer_size as int)
}

/// Length of the command built from `received` bytes after the header.
pub open spec fn command_len(transfer_size: u32, received: int) -> int {
    let cap = if transfer_size as int <= MAX_MSG_LEN as int {
        transfer_size as int
    } else {
        MAX_MSG_LEN as int
    };
    if received <= cap {
        received
    } else {
        cap
    }
}

/// The payload of the command built from `region`.
pub open spec fn command_of(transfer_size: u32, region: Seq<u8>) -> Seq<u8> {
    region.take(command_len(transfer_size, region.len() as int))
}

/// Ends the message once all declared bytes arrived or the transfer ended
/// with a short packet; otherwise keeps receiving.
pub open spec fn settle(transfer_size: u32, region: Seq<u8>, short: bool) -> (Phase, Option<Seq<u8>>) {
    if region.len() >= receive_target(transfer_size) || short {
        (Phase::Idle, Some(command_of(transfer_size, region)))
    } else {
        (Phase::Receiving { transfer_size, region }, None)
    }
}

/// The next phase after `packet`, and the command payload it completes.
pub open spec fn packet_step(phase: Phase, packet: Seq<u8>) -> (Phase, Option<Seq<u8>>) {
    match phase {
        Phase::Idle => match decode_spec(packet) {
            None => (Phase::Idle, None),
            Some(h) => if h.msg_id == DEV_DEP_MSG_OUT {
                settle(h.transfer_size, packet.skip(HEADER_LEN as int), false)
            } else if h.msg_id == REQUEST_DEV_DEP_MSG_IN {
                (Phase::Awaiting { b_tag: h.b_tag, max_len: h.transfer_size }, None)
            } else {
                (Phase::Idle, None)
            },
        },
        Phase::Receiving { transfer_size, region } => settle(
            transfer_size,
            region + packet,
            packet.len() < MAX_PACKET_SIZE,
        ),
        Phase::Awaiting { .. } => (phase, None),
    }
}

/// Payload bytes of a reply: the response, cut to the host's maximum and to
/// `MAX_MSG_LEN`.
pub open spec fn send_len(resp_len: int, max_len: u32) -> int {
    let a = if resp_len <= max_len as int {
        resp_len
    } else {
        max_len as int
    };
    if a <= MAX_MSG_LEN as int {
        a
    } else {
        MAX_MSG_LEN as int
    }
}

/// `n` zero bytes.
pub open spec fn zeros(n: int) -> Seq<u8> {
    Seq::new(n as nat, |i: int| 0u8)
}

/// The DEV_DEP_MSG_IN transfer that answers a request with tag `b_tag` and
/// maximum `max_len` with the response `data[..resp_len]`.
pub open spec fn reply_bytes(b_tag: u8, max_len: u32, data: Seq<u8>, resp_len: int) -> Seq<u8> {
    let n = send_len(resp_len, max_len);
    header_bytes(DEV_DEP_MSG_IN, b_tag, n as u32, true) + data.take(n) + zeros(
        padding_spec(HEADER_LEN + n),
    )
}

/// A framed bulk-in transfer: `data[..len]` is written in one call.
#[derive(Clone, Copy, Debug)]
pub struct Reply {
    pub len: usize,
    pub data: [u8; REPLY_CAPACITY],
}

impl Reply {
    /// The bytes to write.
    pub open spec fn bytes(self) -> Seq<u8> {
        self.data@.take(self.len as int)
    }
}

/// What the caller does next.
#[derive(Clone, Copy, Debug)]
pub enum BulkAction {
    /// Read the next bulk-out packet.
    ReadPacket,
    /// Wait until a response is queued, then call `poll_response`.
    AwaitResponse,
    /// Write the reply to bulk-in, then read the next packet.
    Write(Reply),
}

/// Builds the bulk-in transfer that answers a request with `resp`.
pub fn build_reply(b_tag: u8, max_len: u32, resp: &Response) -> (r: Reply)
    ensures
        r.len <= REPLY_CAPACITY,
        r.len % 4 == 0,
        r.bytes() == reply_bytes(b_tag, max_len, resp.data@, resp.len as int),
{
    let mut n = resp.len;
    if (max_len as usize) < n {
        n = max_len as usize;
    }
    if MAX_MSG_LEN < n {
        n = MAX_MSG_LEN;
    }
    let header = encode_header(DEV_DEP_MSG_IN, b_tag, n as u32, true);
    let mut data = [0u8; REPLY_CAPACITY];
    let mut i: usize = 0;
    while i < HEADER_LEN
        invariant
            i <= HEADER_LEN,
            forall|j: int| 0 <= j < i ==> data@[j] == header@[j],
            forall|j: int| i <= j < REPLY_CAPACITY ==> data@[j] == 0,
        decreases HEADER_LEN - i,
    {
        data[i] = header[i];
        i = i + 1;
    }
    let mut k: usize = 0;
    while k < n
        invariant
            n <= MAX_MSG_LEN,
            k <= n,
            forall|j: int| 0 <= j < HEADER_LEN ==> data@[j] == header@[j],
            forall|j: int| 0 <= j < k ==> data@[HEADER_LEN + j] == resp.data@[j],
            forall|j: int| HEADER_LEN + k <= j < REPLY_CAPACITY ==> data@[j] == 0,
        decreases n - k,
    {
        data[HEADER_LEN + k] = resp.data[k];
        k = k + 1;
    }
    let total = HEADER_LEN + n;
    let pad = padding_for(total);
    let r = Reply { len: total + pad, data };
    assert(r.bytes() =~= reply_bytes(b_tag, max_len, resp.data@, resp.len as int));
    r
}

/// The phase reached and the command payloads completed when `packets` are
/// fed one by one from `phase`.
pub open spec fn run(phase: Phase, packets: Seq<Seq<u8>>) -> (Phase, Seq<Seq<u8>>)
    decreases packets.len(),
{
    if packets.len() == 0 {
        (phase, Seq::empty())
    } else {
        let step = packet_step(phase, packets[0]);
        let rest = run(step.0, packets.drop_first());
        (
            rest.0,
            match step.1 {
                Some(c) => seq![c] + rest.1,
                None => rest.1,
            },
        )
    }
}

/// The bytes of a DEV_DEP_MSG_OUT carrying `payload`: header, payload and
/// zero padding.
pub open spec fn out_message(b_tag: u8, eom: bool, payload: Seq<u8>) -> Seq<u8> {
    header_bytes(DEV_DEP_MSG_OUT, b_tag, payload.len() as u32, eom) + payload + zeros(
        padding_spec(payload.len() as int),
    )
}

/// A bulk transfer cut into packets: every packet but the last has the
/// maximum packet size.
pub open spec fn full_but_last(packets: Seq<Seq<u8>>) -> bool {
    forall|i: int| 0 <= i < packets.len() - 1 ==> #[trigger] packets[i].len() == MAX_PACKET_SIZE
}

/// Packets that carry no byte at all change nothing in an idle engine.
proof fn lemma_idle_ignores_empty(packets: Seq<Seq<u8>>)
    requires
        packets.flatten().len() == 0,
        full_but_last(packets),
    ensures
        run(Phase::Idle, packets) == (Phase::Idle, Seq::<Seq<u8>>::empty()),
{
    if packets.len() > 0 {
        let rest = packets.drop_first();
        assert(packets.flatten() == packets[0] + rest.flatten());
        if packets.len() > 1 {
            assert(packets[0].len() == MAX_PACKET_SIZE);
        }
        assert(rest.len() == 0);
        assert(packets[0].len() == 0);
        assert(decode_spec(packets[0]) is None);
        assert(run(Phase::Idle, rest) == (Phase::Idle, Seq::<Seq<u8>>::empty()));
    }
}

/// Receiving the rest of a message whose bytes after the header are `full`
/// ends with one command built from `full`.
proof fn lemma_receive_rest(ts: u32, full: Seq<u8>, region: Seq<u8>, packets: Seq<Seq<u8>>)
    requires
        full.len() == receive_target(ts),
        region + packets.flatten() == full,
        region.len() < full.len(),
        full_but_last(packets),
    ensures
        run(Phase::Receiving { transfer_size: ts, region }, packets) == (
            Phase::Idle,
            seq![command_of(ts, full)],
        ),
    decreases packets.len(),
{
    if packets.len() == 0 {
        assert(region + packets.flatten() =~= region);
    }
    let p = packets[0];
    let rest = packets.drop_first();
    assert(packets.flatten() == p + rest.flatten());
    let r2 = region + p;
    assert(r2 + rest.flatten() =~= full);
    assert(full_but_last(rest)) by {
        assert forall|i: int| 0 <= i < rest.len() - 1 implies #[trigger] rest[i].len()
            == MAX_PACKET_SIZE by {
            assert(rest[i] == packets[i + 1]);
        }
    }
    if r2.len() >= receive_target(ts) {
        assert(r2 =~= full);
        lemma_idle_ignores_empty(rest);
        assert(seq![command_of(ts, full)] + Seq::<Seq<u8>>::empty() =~= seq![command_of(ts, full)]);
    } else if p.len() < MAX_PACKET_SIZE {
        assert(packets.len() == 1);
        assert(rest.flatten() =~= Seq::<u8>::empty());
        assert(r2 =~= full);
    } else {
        lemma_receive_rest(ts, full, r2, rest);
    }
}

/// A DEV_DEP_MSG_OUT whose payload fits the command buffer, cut into bulk
/// packets anywhere (every packet but the last full), is reassembled into
/// exactly one command carrying that payload, and the engine is idle again.
pub proof fn lemma_out_message_reassembled(
    b_tag: u8,
    eom: bool,
    payload: Seq<u8>,
    packets: Seq<Seq<u8>>,
)
    requires
        payload.len() <= MAX_MSG_LEN,
        packets.len() >= 1,
        packets.flatten() == out_message(b_tag, eom, payload),
        full_but_last(packets),
    ensures
        run(Phase::Idle, packets) == (Phase::Idle, seq![payload]),
{
    let ts = payload.len() as u32;
    let hdr = header_bytes(DEV_DEP_MSG_OUT, b_tag, ts, eom);
    let full = payload + zeros(padding_spec(payload.len() as int));
    assert(out_message(b_tag, eom, payload) =~= hdr + full);
    let p = packets[0];
    let rest = packets.drop_first();
    assert(packets.flatten() == p + rest.flatten());
    if packets.len() == 1 {
        assert(rest.flatten() =~= Seq::<u8>::empty());
        assert(p =~= hdr + full);
    } else {
        assert(p.len() == MAX_PACKET_SIZE);
    }
    assert(p.len() >= HEADER_LEN);
    assert forall|k: int| 0 <= k < HEADER_LEN implies #[trigger] p[k] == hdr[k] by {
        assert(p[k] == (p + rest.flatten())[k]);
        assert(hdr[k] == (hdr + full)[k]);
    }
    let h = BulkMessageHeader {
        msg_id: DEV_DEP_MSG_OUT,
        b_tag,
        b_tag_inverse: !b_tag,
        transfer_size: ts,
        eom,
    };
    lemma_header_round_trip(h);
    assert(decode_spec(p) == decode_spec(hdr));
    let region = p.skip(HEADER_LEN as int);
    let wire = p + rest.flatten();
    assert(wire.skip(HEADER_LEN as int) =~= full);
    assert(wire.skip(HEADER_LEN as int) =~= region + rest.flatten());
    assert(full.len() == receive_target(ts));
    assert(command_of(ts, full) =~= payload);
    assert(full_but_last(rest)) by {
        assert forall|i: int| 0 <= i < rest.len() - 1 implies #[trigger] rest[i].len()
            == MAX_PACKET_SIZE by {
            assert(rest[i] == packets[i + 1]);
        }
    }
    if region.len() >= receive_target(ts) {
        assert(rest.flatten().len() == 0);
        assert(region =~= full);
        lemma_idle_ignores_empty(rest);
        assert(seq![payload] + Seq::<Seq<u8>>::empty() =~= seq![payload]);
    } else {
        lemma_receive_rest(ts, full, region, rest);
    }
}

/// The engine's position in the message cycle.
#[derive(Clone, Copy, Debug, PartialEq, Eq, Structural)]
enum Stage {
    Idle,
    Receiving,
    Awaiting,
}

/// A USBTMC function: the bulk engine with its command and response queues.
pub struct UsbTmc {
    stage: Stage,
    transfer_size: u32,
    target: u64,
    received: u64,
    copied: usize,
    data: [u8; MAX_MSG_LEN],
    b_tag: u8,
    max_len: u32,
    region: Ghost<Seq<u8>>,
    commands: CommandQueue,
    responses: ResponseQueue,
}

/// Relation between the commands queued before and after a step that
/// completed the payload `cmd`, if any: it is appended when there is room
/// and dropped otherwise.
pub open spec fn submitted(before: Seq<Command>, after: Seq<Command>, cmd: Option<Seq<u8>>) -> bool {
    match cmd {
        None => after == before,
        Some(p) => if before.len() < QUEUE_CAPACITY {
            &&& after.len() == before.len() + 1
            &&& after.drop_last() == before
            &&& after.last().payload() == p
            &&& after.last().len <= MAX_MSG_LEN
        } else {
            after == before
        },
    }
}

/// A pending request is answered by the oldest response when there is one:
/// the next phase, the responses left, and the bytes written.
pub open spec fn serve_spec(phase: Phase, resps: Seq<Response>) -> (Phase, Seq<Response>, Option<Seq<u8>>) {
    match phase {
        Phase::Awaiting { b_tag, max_len } => if resps.len() > 0 {
            (
                Phase::Idle,
                resps.drop_first(),
                Some(reply_bytes(b_tag, max_len, resps[0].data@, resps[0].len as int)),
            )
        } else {
            (phase, resps, None)
        },
        _ => (phase, resps, None),
    }
}

/// `a` is the action for the phase reached and the reply produced.
pub open spec fn action_spec(a: BulkAction, phase: Phase, reply: Option<Seq<u8>>) -> bool {
    match reply {
        Some(bytes) => a matches BulkAction::Write(w) && w.bytes() == bytes && w.len
            <= REPLY_CAPACITY,
        None => if phase is Awaiting {
            a is AwaitResponse
        } else {
            a is ReadPacket
        },
    }
}

impl UsbTmc {
    /// The phase of the engine.
    pub closed spec fn phase(&self) -> Phase {
        match self.stage {
            Stage::Idle => Phase::Idle,
            Stage::Receiving => Phase::Receiving {
                transfer_size: self.transfer_size,
                region: self.region@,
            },
            Stage::Awaiting => Phase::Awaiting { b_tag: self.b_tag, max_len: self.max_len },
        }
    }

    /// The commands waiting for the command processor, oldest first.
    pub closed spec fn commands(&self) -> Seq<Command> {
        queued_commands(self.commands)
    }

    /// The responses waiting to be sent, oldest first.
    pub closed spec fn responses(&self) -> Seq<Response> {
        queued_responses(self.responses)
    }

    /// The reassembly counters agree with the bytes received.
    pub closed spec fn wf(&self) -> bool {
        &&& self.commands().len() <= QUEUE_CAPACITY
        &&& self.responses().len() <= QUEUE_CAPACITY
        &&& self.stage == Stage::Receiving ==> {
            &&& self.target as int == receive_target(self.transfer_size)
            &&& self.received as int == self.region@.len()
            &&& self.received < self.target
            &&& self.copied as int == command_len(self.transfer_size, self.received as int)
            &&& forall|j: int| 0 <= j < self.copied ==> self.data@[j] == self.region@[j]
        }
    }

    /// An idle engine with empty queues.
    pub fn new() -> (r: UsbTmc)
        ensures
            r.wf(),
            r.phase() is Idle,
            r.commands() == Seq::<Command>::empty(),
            r.responses() == Seq::<Response>::empty(),
    {
        UsbTmc {
            stage: Stage::Idle,
            transfer_size: 0,
            target: 0,
            received: 0,
            copied: 0,
            data: [0u8; MAX_MSG_LEN],
            b_tag: 0,
            max_len: 0,
            region: Ghost(Seq::empty()),
            commands: CommandQueue::new(),
            responses: ResponseQueue::new(),
        }
    }

    /// Queues a command without waiting: when the queue is full the command
    /// is dropped and nothing changes.
    pub fn submit_command(&mut self, c: Command) -> (accepted: bool)
        requires
            old(self).wf(),
        ensures
            final(self).wf(),
            final(self).phase() == old(self).phase(),
            final(self).responses() == old(self).responses(),
            accepted == (old(self).commands().len() < QUEUE_CAPACITY),
            accepted ==> final(self).commands() == old(self).commands().push(c),
            !accepted ==> final(self).commands() == old(self).commands(),
            submitted(old(self).commands(), final(self).commands(), Some(c.payload()))
                || c.len > MAX_MSG_LEN,
    {
        let accepted = self.commands.try_send(c).is_ok();
        proof {
            if accepted {
                assert(self.commands().drop_last() =~= old(self).commands());
            }
        }
        accepted
    }

    /// Takes the oldest queued command, for the command processor.
    pub fn take_command(&mut self) -> (r: Option<Command>)
        requires
            old(self).wf(),
        ensures
            final(self).wf(),
            final(self).phase() == old(self).phase(),
            final(self).responses() == old(self).responses(),
            old(self).commands().len() == 0 ==> {
                &&& r is None
                &&& final(self).commands() == old(self).commands()
            },
            old(self).commands().len() > 0 ==> {
                &&& r == Some(old(self).commands()[0])
                &&& final(self).commands() == old(self).commands().drop_first()
            },
    {
        self.commands.try_receive()
    }

    /// Queues a response from the command processor without waiting: when
    /// the queue is full the response is dropped and nothing changes.
    pub fn submit_response(&mut self, resp: Response) -> (accepted: bool)
        requires
            old(self).wf(),
        ensures
            final(self).wf(),
            final(self).phase() == old(self).phase(),
            final(self).commands() == old(self).commands(),
            accepted == (old(self).responses().len() < QUEUE_CAPACITY),
            accepted ==> final(self).responses() == old(self).responses().push(resp),
            !accepted ==> final(self).responses() == old(self).responses(),
    {
        self.responses.try_send(resp).is_ok()
    }

    /// Adds the bytes of `packet` from `start` on to the message being
    /// received, and ends the message when `settle` says so.
    fn absorb(&mut self, packet: &[u8], start: usize, short: bool)
        requires
            old(self).wf(),
            old(self).stage == Stage::Receiving,
            start <= packet@.len(),
        ensures
            final(self).wf(),
            final(self).responses() == old(self).responses(),
            ({
                let ts = old(self).transfer_size;
                let step = settle(ts, old(self).region@ + packet@.skip(start as int), short);
                &&& final(self).phase() == step.0
                &&& submitted(old(self).commands(), final(self).commands(), step.1)
            }),
    {
        let ghost ts = self.transfer_size;
        let ghost new_region = self.region@ + packet@.skip(start as int);
        let n = packet.len();
        let limit: usize = if (self.transfer_size as usize) < MAX_MSG_LEN {
            self.transfer_size as usize
        } else {
            MAX_MSG_LEN
        };
        let mut i: usize = start;
        while i < n && self.copied < limit
            invariant
                start <= i <= n,
                n == packet@.len(),
                self.stage == Stage::Receiving,
                self.transfer_size == ts,
                limit as int == command_len(ts, MAX_MSG_LEN as int + ts as int),
                limit <= MAX_MSG_LEN,
                new_region == self.region@ + packet@.skip(start as int),
                self.copied as int == command_len(ts, self.region@.len() + (i - start)),
                forall|j: int| 0 <= j < self.copied ==> self.data@[j] == new_region[j],
                self.commands() == old(self).commands(),
                self.responses() == old(self).responses(),
                self.region == old(self).region,
                self.received == old(self).received,
                self.target == old(self).target,
                self.target as int == receive_target(ts),
                self.received as int == self.region@.len(),
                self.received < self.target,
                self.commands().len() <= QUEUE_CAPACITY,
                self.responses().len() <= QUEUE_CAPACITY,
            decreases n - i,
        {
            self.data[self.copied] = packet[i];
            self.copied = self.copied + 1;
            i = i + 1;
        }
        assert(self.copied as int == command_len(ts, new_region.len() as int));
        let avail = (n - start) as u64;
        if avail >= self.target - self.received || short {
            let cmd = Command { len: self.copied, data: self.data };
            assert(cmd.payload() =~= command_of(ts, new_region));
            self.stage = Stage::Idle;
            self.region = Ghost(Seq::empty());
            self.submit_command(cmd);
        } else {
            self.received = self.received + avail;
            self.region = Ghost(new_region);
        }
    }

    /// Answers a pending request with the oldest response, if one is queued.
    fn serve(&mut self) -> (r: BulkAction)
        requires
            old(self).wf(),
        ensures
            final(self).wf(),
            final(self).commands() == old(self).commands(),
            ({
                let s = serve_spec(old(self).phase(), old(self).responses());
                &&& final(self).phase() == s.0
                &&& final(self).responses() == s.1
                &&& action_spec(r, s.0, s.2)
            }),
    {
        if self.stage != Stage::Awaiting {
            return BulkAction::ReadPacket;
        }
        match self.responses.try_receive() {
            Some(resp) => {
                let reply = build_reply(self.b_tag, self.max_len, &resp);
                self.stage = Stage::Idle;
                BulkAction::Write(reply)
            },
            None => BulkAction::AwaitResponse,
        }
    }

    /// Handles one bulk-out packet and says what to do next.
    pub fn on_packet(&mut self, packet: &[u8]) -> (r: BulkAction)
        requires
            old(self).wf(),
        ensures
            final(self).wf(),
            ({
                let step = packet_step(old(self).phase(), packet@);
                let s = serve_spec(step.0, old(self).responses());
                &&& submitted(old(self).commands(), final(self).commands(), step.1)
                &&& final(self).phase() == s.0
                &&& final(self).responses() == s.1
                &&& action_spec(r, s.0, s.2)
            }),
    {
        match self.stage {
            Stage::Idle => {
                match decode_header(packet) {
                    None => {},
                    Some(h) => {
                        if h.msg_id == DEV_DEP_MSG_OUT {
                            self.stage = Stage::Receiving;
                            self.transfer_size = h.transfer_size;
                            self.target = h.transfer_size as u64 + padding_for(
                                h.transfer_size as usize,
                            ) as u64;
                            self.received = 0;
                            self.copied = 0;
                            self.data = [0u8; MAX_MSG_LEN];
                            self.region = Ghost(Seq::empty());
                            assert(Seq::<u8>::empty() + packet@.skip(HEADER_LEN as int)
                                =~= packet@.skip(HEADER_LEN as int));
                            if self.target == 0 {
                                let cmd = Command { len: 0, data: self.data };
                                assert(cmd.payload() =~= command_of(
                                    h.transfer_size,
                                    packet@.skip(HEADER_LEN as int),
                                ));
                                self.stage = Stage::Idle;
                                self.submit_command(cmd);
                            } else {
                                self.absorb(packet, HEADER_LEN, false);
                            }
                        } else if h.msg_id == REQUEST_DEV_DEP_MSG_IN {
                            self.stage = Stage::Awaiting;
                            self.b_tag = h.b_tag;
                            self.max_len = h.transfer_size;
                        }
                    },
                }
            },
            Stage::Receiving => {
                let short = packet.len() < MAX_PACKET_SIZE;
                assert(packet@.skip(0) =~= packet@);
                self.absorb(packet, 0, short);
            },
            Stage::Awaiting => {},
        }
        self.serve()
    }

    /// Answers the pending request once a response is queued.
    pub fn poll_response(&mut self) -> (r: BulkAction)
        requires
            old(self).wf(),
        ensures
            final(self).wf(),
            final(self).commands() == old(self).commands(),
            ({
                let s = serve_spec(old(self).phase(), old(self).responses());
                &&& final(self).phase() == s.0
                &&& final(self).responses() == s.1
                &&& action_spec(r, s.0, s.2)
            }),
    {
        self.serve()
    }
}

} // verus!
