//! Agent pool: the rules of a daemon that hands tasks to workers.
pub mod cli;
pub mod constants;
pub mod daemon;
pub mod decimal;
pub mod error;
pub mod executor;
pub mod framing;
pub mod fs_events;
pub mod gsd;
pub mod gsd_laws;
pub mod ids;
pub mod invoker;
pub mod invoker_laws;
pub mod json;
pub mod json_laws;
pub mod lock;
pub mod path;
pub mod path_map;
pub mod payload;
pub mod pool;
pub mod pool_laws;
pub mod response;
pub mod submit;
pub mod submit_laws;
pub mod text;
pub mod text_laws;
pub mod time;
pub mod transport;
pub mod types;
pub mod v2;
pub mod watcher;
pub mod watcher_laws;
pub mod worker;
