//! The agent: it runs the shells, files and commands of one machine.
pub mod client;
pub mod command;
pub mod exec_sessions;
pub mod fs;
pub mod home;
pub mod output;
pub mod session;
pub mod upload;

pub use home::home_dir_from;
