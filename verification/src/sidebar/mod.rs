//! Sidebar state: unread badges, and the commands the sidebar page sends.

pub mod badge;
pub mod bridge;
pub mod keyed;
