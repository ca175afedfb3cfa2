//! Shannon-entropy estimation over fixed-size sectors, and the search for the
//! sector at which an in-place encryption stopped.

pub mod config;
pub mod histogram;
pub mod layout;
pub mod pool;
pub mod reader;
pub mod report;
pub mod sector;
pub mod slide;
pub mod source;
