use vstd::prelude::*;

pub mod buffer;
pub mod error;
pub mod logging;
pub mod multipart;
pub mod oio;
pub mod raw;
pub mod tasks;
pub mod types;

verus! {

} // verus!
