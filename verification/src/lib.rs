//! Knowledge-aware language server core: document tokens, interact comments,
//! configuration, packet framing and the token diffing that keeps them in sync.
pub mod diff;
pub mod subseq;
pub mod text;
pub mod position;
pub mod tokens;
pub mod uri;
pub mod agents;
pub mod interact;
pub mod knowledge;
pub mod agent_updates;
pub mod config;
pub mod packet;
pub mod blocks;
pub mod ui;
pub mod cli;
pub mod rpc;
pub mod connection;
pub mod relay;
pub mod database;

pub use diff::{Diff, DiffItem};
