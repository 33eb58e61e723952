//! Browser frame remoting: wire codec, latest-value mailbox, bounded byte
//! pipe, frame delta chunking and the session decisions that tie them together.
pub mod protocol;
pub mod frame;
pub mod mailbox;
pub mod pointer;
pub mod session;
pub mod transport;
pub mod capture;
