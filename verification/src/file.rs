//! The log of the registry and the helpers around it.

pub mod log;
pub mod row;
pub mod util;
pub mod writer;

use vstd::prelude::*;

verus! {

/// Where the log lies when no other place is given; `~` stands for the home
/// directory.
pub const HOME_FILE_CONFIG: &'static str = "~/.config/ExpireFolder/expirelist.conf";

} // verus!
