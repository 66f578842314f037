//! Components and what they mount: bindings, provider tools and publications.

pub mod attempt;
pub mod attempt_laws;
pub mod attempt_start;
pub mod authoring;
pub mod authoring_laws;
pub mod binding;
pub mod channel_map;
pub mod channels;
pub mod contract;
pub mod declaration;
pub mod durable;
pub mod durable_keys;
pub mod durable_laws;
pub mod finishing;
pub mod handlers;
pub mod identity;
pub mod live;
pub mod maker;
pub mod mount;
pub mod mount_fault_laws;
pub mod mount_laws;
pub mod mountable;
pub mod mounted_binding;
pub mod operation;
pub mod provider_publication;
pub mod publication;
pub mod publication_laws;
pub mod registry;
pub mod signal;
pub mod signal_access_laws;
pub mod signal_laws;
pub mod sink;
pub mod start_laws;
pub mod stateful_provider;
pub mod streaming;
pub mod task;
pub mod task_actor;
pub mod task_laws;
pub mod task_loop;
pub mod task_step_laws;
pub mod task_supervisor;
pub mod tools;
pub mod tree;
pub mod tree_laws;
