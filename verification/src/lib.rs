//! Protocol core of a WebSocket round-trip latency benchmark.
//!
//! A run has many client sessions and one echo server. Each session sends
//! batches of padded requests on a timer; the server stamps every request
//! and sends the response back a fixed number of times; the session turns
//! each response into one line of a CSV file, which a single sink writes.
//!
//! Nothing here touches a socket, a clock or a file. The sender, the
//! receiver, the echo handler and the sink are state machines: the driver
//! performs the action that one of them asks for and hands back what came
//! of it.

pub mod csv;
pub mod decimal;
pub mod fleet;
pub mod frame;
pub mod laws;
pub mod message;
pub mod receiver;
pub mod sender;
pub mod server;
pub mod sink;

pub use message::{ClientMessage, ServerMessage};
