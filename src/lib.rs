//! Verified core of an in-process actor runtime: bounded mailboxes, typed
//! dispatch, the agent lifecycle state machine, the supervision registry and
//! the publish/subscribe broker.

pub mod agent;
pub mod broker;
pub mod id;
pub mod mailbox;
pub mod message;
pub mod reactor;
pub mod slot_map;
pub mod supervision;
pub mod system;
