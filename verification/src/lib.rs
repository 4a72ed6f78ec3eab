//! A broadcast relay for chat connections: every text a connection submits is
//! recorded in a bounded history and queued for every other registered
//! connection.

pub mod dispatch;
pub mod history;
pub mod ids;
pub mod outbound;
pub mod registry;
pub mod session;
pub mod text;
