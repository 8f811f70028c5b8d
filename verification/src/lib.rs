//! Core logic of the AgentBuddy installer: the runtimes it targets, the
//! agent markdown format it reads, the files it writes, the registry
//! updates it makes, and the UTC clock arithmetic it stamps them with.

pub mod runtime;
pub mod text;
pub mod json;
pub mod agent_md;
pub mod clock;
pub mod content;
pub mod install;
pub mod catalog;
pub mod registry;
pub mod paths;
pub mod cli;


