//! Resolution engine for declarative stacks: typed input values, input
//! addresses, component nodes, the stack graph and the deduplicated artifact
//! tree that is built from it.

pub mod address;
pub mod animation;
pub mod artifacts;
pub mod builder;
pub mod collections;
pub mod composer;
pub mod deployer;
pub mod discovery;
pub mod graph;
pub mod initializer;
pub mod inputs;
pub mod node;
pub mod resolver;
pub mod text;
pub mod utils;
pub mod value;
pub mod vcs;
pub mod watcher;
pub mod yaml;
