//! Decisions behind the browser's event handlers.

pub mod display;
pub mod download;
pub mod life_span;
pub mod load;
pub mod permission;
pub mod request;
