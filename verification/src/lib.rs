//! A verified core for a collaborative remote shell: the relay's sessions,
//! tokens, routing and admin rules, and the agent's tabs, files and commands.

pub mod agent;
pub mod chance;
pub mod clock;
pub mod handshake;
pub mod json;
pub mod laws;
pub mod outside;
pub mod payload;
pub mod proto;
pub mod relay;
pub mod seqs;
pub mod strmap;
pub mod text;
