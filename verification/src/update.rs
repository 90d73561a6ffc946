//! What the update command decides: the address to fetch and whether what
//! came back looks like a configuration.

use crate::text::{contains, contains_text, decimal, decimal_text};
use vstd::prelude::*;
use vstd::string::StringExecFns;

verus! {

/// The word that every proxy configuration holds.
pub const CONFIG_MARKER: &'static str = "inbounds";

/// What is put between an address and the time to defeat caches.
pub const CACHE_BUSTER: &'static str = "?t=";

/// The address `url` with the time `timestamp`, in seconds, appended as a
/// query, so that no cache answers for the remote side.
pub fn cache_busted(url: &str, timestamp: u64) -> (address: String)
    ensures
        address@ == url@ + CACHE_BUSTER@ + decimal(timestamp as nat),
{
    let mut address = String::from_str(url);
    address.append(CACHE_BUSTER);
    let stamp = decimal_text(timestamp);
    address.append(stamp.as_str());
    address
}

/// Whether a downloaded template looks like a proxy configuration: whether
/// it holds the marker word.
pub fn looks_like_config(body: &str) -> (b: bool)
    ensures
        b == contains(body@, CONFIG_MARKER@),
{
    contains_text(body, CONFIG_MARKER)
}

} // verus!
