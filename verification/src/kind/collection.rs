//! Core collection types.
use vstd::prelude::*;

verus! {

pub const COLLECTION: &'static str = "Collection";

pub const ORDERED_COLLECTION: &'static str = "OrderedCollection";

pub const COLLECTION_PAGE: &'static str = "CollectionPage";

pub const ORDERED_COLLECTION_PAGE: &'static str = "OrderedCollectionPage";

} // verus!
