pub mod catalog;
pub mod config;
pub mod globset;
pub mod keys;
pub mod report;
pub mod storage;

use vstd::prelude::*;

verus! {

/// Classification of everything that can go wrong in the pipeline.
#[derive(Clone, Copy, Debug, PartialEq, Eq, Structural)]
pub enum PipelineError {
    /// A key lacks the `/<bucket>/...` structure or has an empty segment.
    MalformedKey,
    /// A key does not start with the prefix local paths are computed against.
    NotRelative,
    /// The search request could not be sent or answered.
    SearchRequestFailed,
    /// The search response was not a well-formed feature collection.
    SearchResponseMalformed,
    /// Listing a product's objects failed.
    ListFailed,
    /// Fetching one object's body failed.
    GetObjectFailed,
    /// Creating a local directory or file, or writing to it, failed.
    LocalIOFailed,
    /// A configured glob pattern does not compile.
    InvalidGlobPattern,
}

/// Filtering a sequence extended by one element keeps the filtered prefix and
/// appends the element exactly when it satisfies the predicate.
pub proof fn lemma_filter_push<A>(s: Seq<A>, pred: spec_fn(A) -> bool, e: A)
    ensures
        s.push(e).filter(pred) == if pred(e) {
            s.filter(pred).push(e)
        } else {
            s.filter(pred)
        },
{
    reveal(Seq::filter);
    assert(s.push(e).drop_last() =~= s);
    assert(s.push(e).last() == e);
}

} // verus!
