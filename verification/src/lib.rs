//! Search registries of community skills and agents, rank what they return,
//! and describe where installed files live.

pub mod error;
pub mod registry_id;
pub mod text;
pub mod json;
pub mod search;
pub mod ranking;
pub mod urlencode;
pub mod body;
pub mod client;
pub mod agentskill;
pub mod skillssh;
pub mod skillhub;
pub mod github_meta;
pub mod mock;
pub mod searching;
pub mod mcpmarket;
pub mod paths;
pub mod screen;
pub mod path_order;
