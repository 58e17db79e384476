//! A remote-workspace fabric: a proxy that authenticates peers, registers
//! servers, binds clients to servers in sessions and relays their traffic,
//! and the transport decisions that each peer makes on its side.

mod ids;
pub mod forms;
pub mod keyed;
pub mod listing;
pub mod project;
pub mod proxy;
pub mod registry;
pub mod rpc;
pub mod transport;
pub mod wire;
pub mod workspace;
