//! The IPC protocol between the bar and its daemon: the wire format, the
//! packets, and the bookkeeping of method calls.

pub mod rw;
pub mod packet;
pub mod writable;
pub mod calls;
pub mod protocol;
pub mod declaration;
