//! A hierarchical configuration store: projects and environments hold
//! configuration items, a shared tier lies beneath every project, and
//! project-bound API keys guard access to the merged result.
//!
//! # The tree and its model
//!
//! [`models::ConfigState`] is the whole tree. Every type has a mathematical
//! model ([`models::StateView`] and the like), and every contract speaks of
//! the models: names and keys are sequences of characters, lists are
//! sequences, values are [`value::JsonView`].
//!
//! # Mutations
//!
//! A mutation ([`project`], [`env`], [`config`], [`shared`], [`api_key`])
//! validates against the tree, changes it in memory, and records in the
//! [`storage::Storage`] what takes the change back. The caller then writes
//! the snapshot out ([`storage::Storage::save`] gives the document) and
//! settles the mutation with the outcome ([`storage::Storage::settle`]). If
//! writing failed, the tree is restored exactly: each mutation states that
//! the tree rolled back equals the tree before it. A mutation that fails
//! validation changes nothing, and every mutation keeps the invariants of
//! the tree ([`models::StateView::wf`]); [`validate`] checks them on a tree
//! that came from outside.
//!
//! # Reading
//!
//! [`merge`] resolves the effective configuration of a project's
//! environment, [`substitute`] replaces `${NAME}` by variables that the
//! caller read from the process environment, [`export`] turns the result
//! into environment variables, and [`api`] decides whether a request may
//! see it.
//!
//! # The directory store
//!
//! [`directory`] rebuilds the tree from a listing of a directory of YAML
//! files, [`center`] is the read-only face of such a tree, and [`reload`]
//! is the state machine that replaces it when a file changes.
//!
//! # What is not proved
//!
//! The library does no input or output: files, the environment, the clock
//! and the network are the caller's, who hands over plain values. What other
//! crates compute is believed as stated at these places:
//!
//! - [`json`]: `serde_json` reads and writes JSON text;
//! - [`yaml`]: `serde_yaml` reads YAML text;
//! - [`api_key`]: `uuid` makes a random token of 36 characters;
//! - [`text`] and [`export`]: `String::push`, `String::pop`, `str::trim`,
//!   `str::to_uppercase` and the sort of slices, of std.
pub mod api;
pub mod api_key;
pub mod args;
pub mod center;
pub mod codec;
pub mod config;
pub mod directory;
pub mod env;
pub mod error;
pub mod export;
pub mod items;
pub mod json;
pub mod merge;
pub mod models;
pub mod panel;
pub mod project;
pub mod reload;
pub mod shared;
pub mod storage;
pub mod substitute;
pub mod text;
pub mod tree;
pub mod tui;
pub mod undo;
pub mod validate;
pub mod value;
pub mod yaml;
