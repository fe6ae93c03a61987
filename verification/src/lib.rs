//! Worker-side engine for a job-dispatch server that speaks the Gearman
//! binary protocol: the wire codec, the per-job order runner and the
//! decisions of the reader, writer, assignee and exitter tasks, each with a
//! machine-checked contract.

pub mod bytes;
pub mod fuze;
pub mod json;
pub mod packet;
pub mod protocols;
pub mod state;
pub mod text;
