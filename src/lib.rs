//! A one-shot TCP echo server's verified core: the protobuf wire format of the
//! echo message, the reply a connection gets for the bytes it sent, and the
//! decisions of the accept loop and of shutdown.

pub mod wire;
pub mod message;
pub mod envelope;
pub mod handler;
pub mod control;
