//! The interface of a scraper that works on one target at a time.

use vstd::prelude::*;

verus! {

/// A scraper that works on the target that `identifier` names: a URL, a
/// handle or a query. Each call blocks until the work is done, and fails
/// with a description of what went wrong.
pub trait Scraper {
    fn scrape(&self, identifier: &str) -> Result<(), String>;
}

} // verus!
