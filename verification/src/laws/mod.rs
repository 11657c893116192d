//! What the library promises, over the requests and documents that go in and what comes of them.
pub mod admin;
pub mod browsers;
pub mod commands;
pub mod connection;
pub mod delivery;
pub mod documents;
pub mod files;
pub mod registry;
pub mod routing;
pub mod tabs;
pub mod texts;
pub mod upkeep;
pub mod wire;
