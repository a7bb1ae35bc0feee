//! TaskFlow: an ordered work queue of files and the rules of a sequential,
//! cancellable executor that runs one external script per file.

pub mod config;
pub mod controller;
pub mod controller_laws;
pub mod logger;
pub mod paths;
pub mod processor;
pub mod processor_laws;
pub mod queue;
pub mod queue_laws;
pub mod session_laws;
pub mod ui;
