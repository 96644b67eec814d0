//! Verified core of a multi-service messaging shell: badge bookkeeping,
//! sidebar messages, service configuration, storage-partition paths and the
//! navigation / permission / key decisions that the browser glue acts on.

pub mod handlers;
pub mod ipc;
pub mod paths;
pub mod service;
pub mod sidebar;
pub mod text;
pub mod window_delegate;
