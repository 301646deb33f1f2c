//! What the user sees: the rows of the listing and the window onto them.

pub mod composer;
pub mod pager;

pub use pager::Pager;
