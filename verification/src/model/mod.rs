//! The data of the browser: its settings, the directory tree and the
//! addresses into it.

pub mod config;
pub mod listing;
pub mod path_node;
pub mod tree_index;
pub mod tree_laws;
pub mod tree_model;
