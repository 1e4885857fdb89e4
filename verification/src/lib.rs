//! Process-orchestration logic of a desktop companion application: the
//! supervisor of per-session worker processes and the relay that decodes a
//! worker's event stream.

pub mod commands;
pub mod health;
pub mod logger;
pub mod pids;
pub mod proxy;
pub mod sidecar;
pub mod sse_proxy;
pub mod table;
pub mod text;
pub mod updater;
