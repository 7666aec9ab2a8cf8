//! Timestamps carried through Activity Streams objects.
use vstd::prelude::*;

verus! {

/// An `xsd:dateTime` instant together with the UTC offset it was written in:
/// whole seconds since the Unix epoch, the sub-second nanoseconds, and the
/// offset east of UTC in seconds.
#[derive(Debug, Clone, Copy, PartialEq, Eq, Structural)]
pub struct Timestamp {
    pub unix_seconds: i64,
    pub nanos: u32,
    pub offset_seconds: i32,
}

} // verus!
