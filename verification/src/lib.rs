//! Decides where an ingested file lands inside a managed repository and how
//! it is recorded there: destination templates are chosen from caption tags,
//! resolved segment by segment against the repository tree, and published
//! through a pull / stage / commit / push transaction.

pub mod text;
pub mod numbering;
pub mod config;
pub mod path_matcher;
pub mod categorizer;
pub mod publisher;
pub mod commit_messages;
pub mod authenticate;
pub mod archivist;
pub mod dialogue;
pub mod message_cache;
