//! Messages exchanged between the sidebar page and the services.

pub mod messages;
