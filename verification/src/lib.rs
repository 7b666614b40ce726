//! Verified core of a generator that turns API descriptions into a typed,
//! scriptable Luau SDK and serves it over the Model Context Protocol.
pub mod text;
pub mod json;
pub mod manifest;
pub mod luau_types;
pub mod annotations;
pub mod order;
pub mod validate;
pub mod namemap;
pub mod http;
pub mod registry;
pub mod config;
pub mod io;
pub mod executor;
pub mod sandbox;
pub mod auth;
pub mod builtins;
pub mod mcp_client;
pub mod tools;
pub mod resources;
pub mod parser;
pub mod openapi;
pub mod extract;
pub mod generate;
