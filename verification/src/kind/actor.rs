//! The five standard actor types.
use vstd::prelude::*;

verus! {

pub const PERSON: &'static str = "Person";

pub const GROUP: &'static str = "Group";

pub const ORGANIZATION: &'static str = "Organization";

pub const APPLICATION: &'static str = "Application";

pub const SERVICE: &'static str = "Service";

} // verus!
