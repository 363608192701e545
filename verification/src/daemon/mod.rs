//! The daemon: its state machine, and the layer that turns the machine's
//! effects into files and frames.
pub mod cleanup;
pub mod cleanup_laws;
pub mod io;
pub mod io_laws;
pub mod machine;
pub mod machine_laws;
pub mod path_category;
pub mod polling;
pub mod polling_laws;
pub mod polling_loop;
pub mod roster_laws;
pub mod transports;
pub mod whole;
pub mod whole_laws;
pub mod wiring;
pub mod wiring_laws;
pub mod worker_laws;
