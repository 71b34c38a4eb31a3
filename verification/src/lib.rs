//! Declarative backup and restore of per-application configuration files.
//!
//! An app spec names an application, the directories to visit and the files to
//! copy. The same spec drives three walks: store (into a backup tree), restore
//! (out of it) and a scan that reports which dependencies the stored
//! configuration implies.
//!
//! The library decides and never touches the world: it parses, navigates and
//! says what is to be done next. Whoever uses it reads directories, copies
//! files and starts processes, and tells the library how that went.
//!
//! - [`domain`], [`error`]: the parsed app and what can go wrong.
//! - [`grammar`], [`parser`], [`render`]: the language of app specs as
//!   mathematical functions, the parser that computes them, and the canonical
//!   text of an app. [`roundtrip`] proves that parsing the canonical text gives
//!   the app back, [`sound`] that every parsed app is well formed
//!   ([`wellformed`]), [`progress`] that every rule consumes input.
//! - [`path`], [`platform`]: locations and the user's well-known directories.
//! - [`context`], [`store_context`], [`restore_context`], [`deps_context`]:
//!   where a walk stands. [`mirror`] proves that store and restore are
//!   mirrors of each other, [`disk`] what follows for the bytes of the files.
//! - [`executor`]: the tree walk, one step at a time. [`traversal`] proves
//!   that the steps add up to a depth-first reading of the action tree.
//! - [`file_system_executor`], [`command`], [`deps`]: what the copy handler
//!   and the dependency scan decide.
//! - [`use_cases`]: store, restore and scan, each with its context.

pub mod command;
pub mod context;
pub mod deps;
pub mod deps_context;
pub mod disk;
pub mod domain;
pub mod error;
pub mod executor;
pub mod file_system_executor;
pub mod grammar;
pub mod mirror;
pub mod parser;
pub mod path;
pub mod platform;
pub mod progress;
pub mod render;
pub mod restore_context;
pub mod roundtrip;
pub mod sound;
pub mod store_context;
pub mod text;
pub mod traversal;
pub mod use_cases;
pub mod wellformed;
