//! What the server tells clients about keeping what it sent them.
//!
//! An item or an attachment is named by what it holds, so what is under a
//! name never changes. A client that asks whether its copy is still good
//! is told so without a look at the store.

use vstd::prelude::*;

verus! {

/// The entity tag of everything that is named by what it holds.
pub const IMMUTABLE_ETAG: &'static str = "\"immutable\"";

/// How long, and how, a client may keep what is named by what it holds.
pub const IMMUTABLE_CACHE_CONTROL: &'static str = "public, max-age=31536000, immutable";

/// Who may read the answers from a script: everyone.
pub const CORS_ALLOW_ORIGIN: &'static str = "*";

/// Which headers of an answer a script may read: all.
pub const CORS_EXPOSE_HEADERS: &'static str = "*";

/// For how many seconds a browser may remember what it was allowed: a day.
pub const CORS_MAX_AGE: &'static str = "86400";

/// The methods that are allowed on what can be written.
pub const CORS_ALLOW_METHODS: &'static str = "OPTIONS, GET, PUT, HEAD";

/// The address that the server listens on where none is given.
pub const DEFAULT_BIND: &'static str = "127.0.0.1:8080";

/// What to do with a request for something that is named by what it holds.
#[derive(Clone, Copy, Debug, PartialEq, Eq, Structural)]
pub enum CacheAction {
    /// Answer `304 Not Modified` with no body, and leave the store alone.
    NotModified,
    /// Hand the request on.
    Forward,
}

/// What to do with a request: one that bears `If-None-Match` can only be
/// sending back our entity tag, and its copy is good.
pub fn immutable_etag(has_if_none_match: bool) -> (action: CacheAction)
    ensures
        has_if_none_match ==> action == CacheAction::NotModified,
        !has_if_none_match ==> action == CacheAction::Forward,
{
    if has_if_none_match {
        CacheAction::NotModified
    } else {
        CacheAction::Forward
    }
}

/// Whether an answer gets the entity tag and the caching header: the
/// answer to a `GET` that succeeded, that is, with a status from 200 to 299.
pub fn marks_immutable(is_get: bool, status: u16) -> (marked: bool)
    ensures
        marked == (is_get && 200 <= status < 300),
{
    is_get && 200 <= status && status < 300
}

/// The addresses to listen on: those given, or `DEFAULT_BIND` where none is.
pub fn binds_or_default(binds: Vec<String>) -> (all: Vec<String>)
    ensures
        binds@.len() > 0 ==> all@ == binds@,
        binds@.len() == 0 ==> all@.len() == 1 && all@[0]@ == DEFAULT_BIND@,
{
    let mut all = binds;
    if all.len() == 0 {
        all.push(DEFAULT_BIND.to_owned());
    }
    all
}

} // verus!
