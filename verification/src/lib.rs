//! Platform-independent core of the local desktop automation: the task state
//! machine, the geometry and error vocabulary shared with the platform ports,
//! the contact-matching policies and the other pure decisions of a run.

pub mod state;
pub mod ports;
pub mod text;
pub mod policy;
pub mod candidates;
pub mod audit;
pub mod macosapi;
pub mod desktop;
pub mod mock;
pub mod mockdesk;
pub mod runner;
pub mod cancel;
pub mod dropdown;
pub mod diagnostics;
pub mod flow;
pub mod trail;
