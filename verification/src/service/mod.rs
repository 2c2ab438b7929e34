//! What the service decides: its settings, its state, and the order in which
//! pipelines come and go.

pub mod config;
pub mod state;
pub mod request_laws;
pub mod startup;
pub mod system;
pub mod watch;
