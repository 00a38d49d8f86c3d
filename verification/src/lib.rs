//! Verified core of a LAN file transfer tool.
pub mod completion;
pub mod endpoint;
pub mod failed_list;
pub mod fetch_flow;
pub mod guarantees;
pub mod hash;
pub mod hashseq;
pub mod manifest;
pub mod net;
pub mod receive_flow;
pub mod receiver;
pub mod resolve;
pub mod retry_flow;
pub mod sender;
pub mod session;
pub mod text;
pub mod ticket;
pub mod util;
