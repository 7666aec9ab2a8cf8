//! ActivityPub building blocks with machine-checked contracts.
//!
//! - text and maps: [`text`], [`string_map`];
//! - outside values carried through the library: [`urls`], [`json`], [`time`];
//! - HTTP signatures and body digests: [`httpsig`] (Cavage `Signature:`),
//!   [`components`] (RFC 9421 signature bases), [`content_digest`]
//!   (RFC 9530 `Content-Digest:`), [`digest`] (legacy `Digest:`);
//! - WebFinger: [`webfinger`] (`acct:` accounts), [`jrd`], [`rels`];
//! - NodeInfo: [`nodeinfo`];
//! - Activity Streams: [`value`], [`kind`], [`object`];
//! - federation: [`inbox`], the verified decisions of inbound processing.
pub mod text;
pub mod string_map;
pub mod urls;
pub mod json;
pub mod time;
pub mod httpsig;
pub mod components;
pub mod content_digest;
pub mod digest;
pub mod webfinger;
pub mod rels;
pub mod jrd;
pub mod nodeinfo;
pub mod value;
pub mod kind;
pub mod object;
pub mod inbox;
