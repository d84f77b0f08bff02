//! Mirrors a directory tree into a destination tree, replacing files above a
//! size threshold by small text stubs that record the original size.
pub mod entry;
pub mod filter;
pub mod run;
pub mod stub;
