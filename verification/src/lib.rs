//! Text handling, version tags and repository-command rules of a small git helper.
pub mod format_utils;
pub mod git_utils;
pub mod order;
pub mod pull;
pub mod semver;
pub mod status;
pub mod text;
pub mod wipe;
