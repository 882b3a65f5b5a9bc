//! The logic of a terminal browser for Bazel workspaces.
//!
//! A listing of the rules of a workspace is parsed into a trie of packages ([`bazel`],
//! [`trie`]), in which the user moves about ([`app`]). The screen ([`ui`]) takes keys and
//! news of running commands, says what is to be done next, and draws itself as plain values
//! ([`scene`]). What holds of all this is stated and proved in [`laws`].

pub mod app;
pub mod bazel;
pub mod key;
pub mod laws;
pub mod list_view;
pub mod modal;
pub mod run;
pub mod scene;
pub mod text;
pub mod trie;
pub mod ui;
