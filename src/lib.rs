//! Looks up the idol group that best matches a free-text query, scoring the
//! query against each group's names and its members' names and nicknames.
pub mod matcher;
pub mod reply;
pub mod select;
pub mod types;
