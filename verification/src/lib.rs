//! Verified core of a desktop coding assistant.
//!
//! - [`scan`], [`walker`] and [`follow`]: the bounded workspace scan, as a
//!   function on a directory tree held in memory, as a machine that is fed
//!   one listing at a time, and the proof that the two agree; with
//!   [`names`], [`sorting`], [`shape`] and [`tree`] beneath them.
//! - [`client`], [`reply`] and [`protocol`]: what is sent to the remote
//!   agent service, and how its replies are read.
//! - [`saga`] and [`prompt`]: the sagas that update a requirement document
//!   and generate code.
//! - [`config`], [`project`] and [`agent`]: the configuration store, the
//!   projects, and the agent plugin.
//! - [`outside`]: the calls into other crates, with the contracts that are
//!   believed of them.

pub mod agent;
pub mod client;
pub mod config;
pub mod follow;
pub mod names;
pub mod outside;
pub mod project;
pub mod prompt;
pub mod protocol;
pub mod reply;
pub mod saga;
pub mod scan;
pub mod shape;
pub mod sorting;
pub mod text;
pub mod tree;
pub mod walker;
