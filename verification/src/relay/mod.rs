//! The relay: it knows the sessions and routes messages between agents and browsers.
pub mod admin;
pub mod auth;
pub mod config;
pub mod events;
pub mod idle;
pub mod limiter;
pub mod mcp;
pub mod queue;
pub mod recorder;
pub mod session;
pub mod state;
pub mod upload;
pub mod web;
pub mod ws;

pub use events::{EventBuffer, MAX_EVENT_BUFFER, MAX_EVENT_BUFFER_BYTES};
pub use limiter::RateLimiter;
pub use queue::{MessageQueue, SSE_CHANNEL_CAPACITY};
pub use state::{ChannelMap, SharedState, MAX_SESSIONS};
