//! Provider connectors.
//!
//! Each module holds a provider's identity, cursor, replay and effect rules.
//! A pull is a small machine: it names the next HTTP request, takes the
//! decoded reply, and ends in a batch and the next cursor. The embedding
//! program performs the requests and decodes the JSON.

pub mod common;
pub mod hacker_news;
pub mod slack;
pub mod imessage;
pub mod gmail;
pub mod google_chat;

pub use common::{ProviderError, digest, digest_parts, provider_error};
