//! Ranks the tags that a container registry reports for each project by push
//! time, labels the most recent ones, and gathers the reports of many
//! projects, fetched side by side, into one result.
pub mod aggregate;
pub mod fetch;
pub mod label;
pub mod laws;
pub mod tag;
pub mod url;
