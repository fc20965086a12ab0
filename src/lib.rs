//! Device side of the USB Test and Measurement Class (USBTMC) protocol:
//! the bulk message codec, the abort register, the class control request
//! handler, the command/response queues and the bulk transfer engine.

pub mod abort;
pub mod codec;
pub mod control;
pub mod engine;
pub mod queue;
