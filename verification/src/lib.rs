//! Hierarchical navigation for an Atlassian instance: a mutable tree with
//! path-addressed traversal, an incremental fuzzy filter whose results stay
//! traceable back to the unfiltered tree, and the command-context state
//! machine that only permits operation dispatch once a selection is
//! unambiguous. The terminal, the HTTP transport and process spawning live
//! outside the library and exchange plain values with it.

pub mod app;
pub mod command;
pub mod confluence;
pub mod ctag;
pub mod domain_loader;
pub mod errors;
pub mod event;
pub mod event_handler;
pub mod models;
pub mod page_tree;
pub mod screens;
pub mod search;
pub mod signal_handler;
pub mod strutil;
pub mod tree_navigation;
pub mod ui;
