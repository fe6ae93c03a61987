//! The two protocols the worker speaks: Gearman frames towards the server,
//! and line-delimited JSON messages from an order's child process.

pub mod gearman;
pub mod order;
