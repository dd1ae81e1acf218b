//! The requests that the cache actor receives.

use vstd::prelude::*;

verus! {

/// A request to the cache actor: a lookup, or the outcome of a fetch.
pub enum CacheMessage<R> {
    Get(CacheGetMessage<R>),
    Put(CacheSetMessage),
}

/// Asks for the text cached under `url`. The answer, `Some(text)` or `None`,
/// is owed on `response_channel`, which the cache hands back untouched
/// together with the answer.
pub struct CacheGetMessage<R> {
    pub url: String,
    pub response_channel: R,
}

/// Reports the outcome of a fetch of `url`: `Some(text)` is to be stored,
/// `None` says that a scheduled refresh of `url` failed.
pub struct CacheSetMessage {
    pub url: String,
    pub content: Option<String>,
}

} // verus!
