//! The agent state machine: agents that register, work and come back, with epochs
//! that tell a stale timeout from one that still counts.
pub mod agent_laws;
pub mod machine;
pub mod machine_laws;

pub use self::machine::{
    AgentId, AgentState, AgentStatus, Effect, Epoch, Event, PoolState, TaskId, step,
};
