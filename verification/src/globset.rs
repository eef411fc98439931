//! Selection of object keys by shell-style glob patterns.
//!
//! An empty pattern set selects every key; a non-empty set selects a key
//! exactly when at least one pattern matches it. Matching itself is done by
//! the `glob` crate with its default options, under which `*` also spans
//! path separators.

use vstd::prelude::*;

use crate::lemma_filter_push;
use crate::PipelineError;

verus! {

/// Whether the shell-style glob pattern matches the key, with the `glob`
/// crate's default matching options; a string that is not a well-formed
/// pattern matches nothing.
pub uninterp spec fn glob_match(pattern: Seq<char>, key: Seq<char>) -> bool;

/// Whether the string is a well-formed glob pattern.
pub uninterp spec fn is_valid_glob(pattern: Seq<char>) -> bool;

/// Relies on glob::Pattern::new followed by glob::Pattern::matches with the
/// default options: whether the pattern matches the key is a function of the
/// two strings alone, and a malformed pattern matches nothing.
#[verifier::external_body]
fn pattern_matches(pattern: &str, key: &str) -> (r: bool)
    ensures
        r == glob_match(pattern@, key@),
{
    match glob::Pattern::new(pattern) {
        Ok(p) => p.matches(key),
        Err(_) => false,
    }
}

/// Relies on glob::Pattern::new: it returns `Ok` exactly when the string is
/// a well-formed glob pattern, as a function of the string alone.
#[verifier::external_body]
fn pattern_is_valid(pattern: &str) -> (r: bool)
    ensures
        r == is_valid_glob(pattern@),
{
    glob::Pattern::new(pattern).is_ok()
}

/// Whether a pattern set selects a key: an empty set selects everything, a
/// non-empty set selects the key exactly when some pattern matches it.
pub open spec fn spec_matches(patterns: Seq<Seq<char>>, key: Seq<char>) -> bool {
    patterns.len() == 0 || exists|i: int| 0 <= i < patterns.len() && glob_match(patterns[i], key)
}

/// The selection predicate of a pattern set, as a function of the key.
pub open spec fn matches_pred(patterns: Seq<Seq<char>>) -> spec_fn(Seq<char>) -> bool {
    |k: Seq<char>| spec_matches(patterns, k)
}

/// An ordered set of validated glob pattern strings.
#[derive(Debug)]
pub struct GlobPatternSet {
    patterns: Vec<String>,
}

impl View for GlobPatternSet {
    type V = Seq<Seq<char>>;

    closed spec fn view(&self) -> Seq<Seq<char>> {
        self.patterns.deep_view()
    }
}

impl GlobPatternSet {
    /// Validates every pattern and builds the set. A single pattern that does
    /// not compile makes the whole construction fail with
    /// `InvalidGlobPattern`, before any other work starts.
    pub fn new(patterns: Vec<String>) -> (r: Result<GlobPatternSet, PipelineError>)
        ensures
            r is Ok <==> (forall|i: int|
                0 <= i < patterns@.len() ==> is_valid_glob(#[trigger] patterns@[i]@)),
            r matches Ok(s) ==> s@ == patterns.deep_view(),
            r is Err ==> r == Err::<GlobPatternSet, PipelineError>(PipelineError::InvalidGlobPattern),
    {
        let mut i: usize = 0;
        while i < patterns.len()
            invariant
                0 <= i <= patterns@.len(),
                forall|j: int| 0 <= j < i ==> is_valid_glob(#[trigger] patterns@[j]@),
            decreases patterns@.len() - i,
        {
            if !pattern_is_valid(patterns[i].as_str()) {
                return Err(PipelineError::InvalidGlobPattern);
            }
            i = i + 1;
        }
        Ok(GlobPatternSet { patterns })
    }

    /// How many patterns the set holds.
    pub fn len(&self) -> (r: usize)
        ensures
            r == self@.len(),
    {
        self.patterns.len()
    }

    /// Whether the key is selected: `true` when the set is empty, otherwise
    /// `true` exactly when at least one pattern matches the key.
    pub fn matches(&self, key: &str) -> (r: bool)
        ensures
            r == spec_matches(self@, key@),
    {
        if self.patterns.len() == 0 {
            return true;
        }
        let mut i: usize = 0;
        while i < self.patterns.len()
            invariant
                0 <= i <= self.patterns@.len(),
                self@.len() == self.patterns@.len(),
                forall|j: int| 0 <= j < i ==> !glob_match(#[trigger] self@[j], key@),
            decreases self.patterns@.len() - i,
        {
            proof {
                assert(self@[i as int] == self.patterns@[i as int]@);
            }
            if pattern_matches(self.patterns[i].as_str(), key) {
                return true;
            }
            i = i + 1;
        }
        false
    }

    /// The keys the set selects, in their original order.
    pub fn select_keys(&self, keys: &Vec<String>) -> (r: Vec<String>)
        ensures
            r.deep_view() == keys.deep_view().filter(matches_pred(self@)),
    {
        let pred = Ghost(matches_pred(self@));
        let mut out: Vec<String> = Vec::new();
        let mut i: usize = 0;
        proof {
            assert(keys.deep_view().subrange(0, 0) =~= Seq::<Seq<char>>::empty());
            reveal(Seq::filter);
        }
        while i < keys.len()
            invariant
                0 <= i <= keys@.len(),
                keys.deep_view().len() == keys@.len(),
                out.deep_view() == keys.deep_view().subrange(0, i as int).filter(pred@),
                pred@ == matches_pred(self@),
            decreases keys@.len() - i,
        {
            let ghost pre = keys.deep_view().subrange(0, i as int);
            let ghost old_out = out.deep_view();
            let k = &keys[i];
            proof {
                assert(keys.deep_view()[i as int] == keys@[i as int]@);
            }
            if self.matches(k.as_str()) {
                out.push(k.clone());
                proof {
                    assert(out.deep_view() =~= old_out.push(keys@[i as int]@));
                }
            }
            proof {
                assert(keys.deep_view().subrange(0, i + 1 as int) =~= pre.push(
                    keys.deep_view()[i as int],
                ));
                lemma_filter_push(pre, pred@, keys.deep_view()[i as int]);
            }
            i = i + 1;
        }
        proof {
            assert(keys.deep_view().subrange(0, keys@.len() as int) =~= keys.deep_view());
        }
        out
    }
}

/// Law: the empty pattern set selects every key.
pub proof fn lemma_empty_pattern_set_matches(key: Seq<char>)
    ensures
        spec_matches(Seq::<Seq<char>>::empty(), key),
{
}

} // verus!
