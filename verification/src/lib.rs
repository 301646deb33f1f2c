//! The core of a terminal directory browser: a lazily expanded directory
//! tree, the addressing of its rows, the flattening into display rows and
//! the pager that keeps cursor and viewport consistent with them.

pub mod controller;
pub mod model;
pub mod text;
pub mod view;
