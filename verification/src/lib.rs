//! Trims a release manifest's asset list to a whitelist of labels.
//!
//! The manifest is a JSON document owned by another tool, so the model keeps
//! every part of it that this crate does not interpret, in the exact key
//! order in which it was parsed, and only the one asset array of the target
//! plugin is ever rewritten.

pub mod error;
pub mod filter;
pub mod json;
pub mod laws;
pub mod locate;
pub mod manifest;
pub mod render;

pub use error::error_chain_fmt;
pub use error::Error;
pub use json::JsonValue;
pub use locate::find_semantic_release_config;
pub use locate::is_unsupported_file_extension;
pub use locate::MissingConfiguration;
pub use manifest::ModifiedFlag;
pub use manifest::ParseError;
pub use manifest::SemanticReleaseConfiguration;
pub use manifest::SemanticReleaseManifest;
pub use manifest::WriteTo;
