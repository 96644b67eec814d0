//! Service configuration, storage partitions and the service deck.

pub mod config;
pub mod manager;
pub mod partition;
