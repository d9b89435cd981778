//! What the commands of the program ask of the registry.

pub mod add;
pub mod list;
