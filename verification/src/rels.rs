//! Link relations and media types used in WebFinger documents.
use vstd::prelude::*;

verus! {

/// The `self` relation.
pub const SELF: &'static str = "self";

/// The relation of the link to an account's ActivityPub actor.
pub const ACTIVITYPUB_ACTOR: &'static str = "self";

/// The relation of an account's HTML profile page.
pub const PROFILE_PAGE: &'static str = "http://webfinger.net/rel/profile-page";

/// The OStatus remote-follow template relation.
pub const OSTATUS_SUBSCRIBE: &'static str = "http://ostatus.org/schema/1.0/subscribe";

/// The media type of an ActivityPub actor document.
pub const MEDIA_TYPE_ACTIVITYPUB: &'static str = "application/activity+json";

/// The JSON-LD media type prefix that also identifies an actor document.
pub const MEDIA_TYPE_LD_JSON: &'static str = "application/ld+json";

} // verus!
