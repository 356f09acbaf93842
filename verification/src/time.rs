//! Points in time as the services report them.

use vstd::prelude::*;

verus! {

/// A point in time: the whole seconds since the first of January 1970, UTC, and
/// the nanoseconds past them.
#[derive(Debug, Clone, Copy, PartialEq, Eq, Hash, Structural)]
pub struct Timestamp {
    pub seconds: i64,
    pub nanoseconds: u32,
}

} // verus!
