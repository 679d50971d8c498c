//! The shapes of the answers to the GraphQL queries, field for field.

pub mod github_stats;
pub mod list_repositories;
pub mod query;
pub mod top_languages;
