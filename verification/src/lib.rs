//! Verified core of the pi desktop GUI backend: session bookkeeping, working
//! directory decisions, composer state, custom provider records, file
//! completion ranking, git output parsing and transcript shaping.
#![allow(unused_imports)]

pub mod text;
pub mod cwd;
pub mod json;
pub mod state;
pub mod clock;
pub mod sessions;
pub mod composer;
pub mod model;
pub mod providers;
pub mod order;
pub mod files;
pub mod git;
pub mod tree;
pub mod transcript;
pub mod history;
pub mod runtime;
pub mod extensions;
pub mod skills;
pub mod settings;
pub mod persistence;
pub mod actor;
pub mod timeline;
pub mod terminal;
pub mod export;
pub mod workspace;
pub mod worktree;
pub mod document;
pub mod doc_commands;
