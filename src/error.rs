use vstd::prelude::*;

verus! {

/// The ways a run of the library can fail.
#[derive(Debug, Clone, Copy, PartialEq, Eq, Structural)]
pub enum CrawlError {
    /// A search result is not a URL, or is a URL without a host.
    MalformedUrl,
    /// A configuration value lies outside its documented bound.
    ConfigOutOfRange,
}

} // verus!
