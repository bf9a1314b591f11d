//! Verified core of lan-mouse: the datagram protocol, clipboard transfer
//! chunking and reassembly, session-lock following and edge capture
//! decisions.
pub mod wire;
pub mod text;
pub mod proto;
pub mod clipboard;
pub mod sync_lock;
pub mod capture;
pub mod frontend;
