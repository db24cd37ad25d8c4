//! Documents at well-known places of the file system: where they are, how
//! they come into being, and how several of them are used as one unit of work.

pub mod batch;
pub mod decimal;
pub mod disk;
pub mod document;
pub mod error;
pub mod location;
pub mod mode;
pub mod name;
pub mod path;
pub mod platform;
pub mod recipe;
pub mod setup;
pub mod text;
pub mod whoops;
