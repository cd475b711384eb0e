//! Backend core for an editor integration with a remote code-intelligence
//! service: the framed message codec, the agent message model and broker, the
//! virtual-path resolver with its commit-hash cache, and the editor request
//! helpers.

pub mod text;
pub mod decimal;
pub mod codec;
pub mod types;
pub mod entry;
pub mod protocol;
pub mod broker;
pub mod uri;
pub mod cache;
pub mod auth;
pub mod editor;
