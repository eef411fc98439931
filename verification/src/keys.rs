//! Translation of slash-structured object keys into buckets, object paths,
//! listing prefixes, and local file locations.
//!
//! A key names either a product or one concrete storage object. Well-formed
//! keys look like `/<bucket>/<segment>/.../<segment>`: a leading separator,
//! then non-empty segments. Anything else is a structural error.

use vstd::prelude::*;

use crate::PipelineError;

verus! {

/// The path separator that structures keys.
pub open spec fn sep() -> char {
    '/'
}

/// A sequence of characters containing no separator.
pub open spec fn no_sep(s: Seq<char>) -> bool {
    forall|i: int| 0 <= i < s.len() ==> s[i] != sep()
}

/// A well-formed key: `/<bucket>/<segment>/...` with every segment non-empty.
pub open spec fn wf_key(s: Seq<char>) -> bool {
    &&& s.len() >= 2
    &&& s[0] == sep()
    &&& s[s.len() - 1] != sep()
    &&& forall|i: int| 0 < i < s.len() ==> !(s[i - 1] == sep() && #[trigger] s[i] == sep())
}

/// The index of the first separator at or after position `i`, or the length
/// of the sequence if there is none.
pub open spec fn sep_after(s: Seq<char>, i: int) -> int
    decreases s.len() - i,
{
    if i < 0 || i >= s.len() {
        s.len() as int
    } else if s[i] == sep() {
        i
    } else {
        sep_after(s, i + 1)
    }
}

/// The index of the last separator, or `-1` if there is none.
pub open spec fn last_sep(s: Seq<char>) -> int
    decreases s.len(),
{
    if s.len() == 0 {
        -1
    } else if s[s.len() - 1] == sep() {
        s.len() - 1
    } else {
        last_sep(s.drop_last())
    }
}

/// The bucket segment of a key: the characters between the leading separator
/// and the next one.
pub open spec fn spec_bucket(s: Seq<char>) -> Seq<char> {
    s.subrange(1, sep_after(s, 1))
}

/// The object path of a key: everything after the separator that closes the
/// bucket segment, empty when the key is just `/<bucket>`.
pub open spec fn spec_path(s: Seq<char>) -> Seq<char> {
    if sep_after(s, 1) == s.len() {
        Seq::empty()
    } else {
        s.subrange(sep_after(s, 1) + 1, s.len() as int)
    }
}

/// The final segment of a key: everything after the last separator.
pub open spec fn spec_file_name(s: Seq<char>) -> Seq<char> {
    s.subrange(last_sep(s) + 1, s.len() as int)
}

/// A key with its final segment removed, keeping the trailing separator.
pub open spec fn spec_prefix(s: Seq<char>) -> Seq<char> {
    s.subrange(0, last_sep(s) + 1)
}

pub proof fn lemma_sep_after_bounds(s: Seq<char>, i: int)
    requires
        0 <= i <= s.len(),
    ensures
        i <= sep_after(s, i) <= s.len(),
        sep_after(s, i) < s.len() ==> s[sep_after(s, i)] == sep(),
        forall|j: int| i <= j < sep_after(s, i) ==> s[j] != sep(),
    decreases s.len() - i,
{
    if i < s.len() && s[i] != sep() {
        lemma_sep_after_bounds(s, i + 1);
    }
}

pub proof fn lemma_last_sep_bounds(s: Seq<char>)
    ensures
        -1 <= last_sep(s) < s.len(),
        last_sep(s) >= 0 ==> s[last_sep(s)] == sep(),
        forall|j: int| last_sep(s) < j < s.len() ==> s[j] != sep(),
    decreases s.len(),
{
    if s.len() > 0 && s[s.len() - 1] != sep() {
        lemma_last_sep_bounds(s.drop_last());
        assert forall|j: int| last_sep(s) < j < s.len() implies s[j] != sep() by {
            if j < s.len() - 1 {
                assert(s.drop_last()[j] != sep());
            }
        }
    }
}

/// Dropping a separator-free suffix does not move the last separator.
proof fn lemma_last_sep_ignores_clean_suffix(s: Seq<char>, j: int)
    requires
        0 <= j <= s.len(),
        forall|k: int| j <= k < s.len() ==> s[k] != sep(),
    ensures
        last_sep(s) == last_sep(s.subrange(0, j)),
    decreases s.len() - j,
{
    if j == s.len() {
        assert(s.subrange(0, j) =~= s);
    } else {
        assert(s.drop_last() =~= s.subrange(0, s.len() - 1));
        lemma_last_sep_ignores_clean_suffix(s.subrange(0, s.len() - 1), j);
        assert(s.subrange(0, s.len() - 1).subrange(0, j) =~= s.subrange(0, j));
    }
}

/// The index of the first separator at or after `start`, or the character
/// length of the string if there is none.
fn find_sep_from(s: &str, start: usize) -> (r: usize)
    requires
        start <= s@.len(),
    ensures
        r == sep_after(s@, start as int),
{
    let n: usize = s.unicode_len();
    let mut i: usize = start;
    while i < n
        invariant
            start <= i <= n,
            n == s@.len(),
            sep_after(s@, start as int) == sep_after(s@, i as int),
        decreases n - i,
    {
        if s.get_char(i) == '/' {
            return i;
        }
        i = i + 1;
    }
    i
}

/// The index just past the last separator: `last_sep + 1`, so `0` when the
/// string has no separator.
fn find_after_last_sep(s: &str) -> (r: usize)
    ensures
        r == last_sep(s@) + 1,
{
    let n: usize = s.unicode_len();
    let mut j: usize = n;
    while j > 0
        invariant
            0 <= j <= n,
            n == s@.len(),
            forall|k: int| j <= k < s@.len() ==> s@[k] != sep(),
        decreases j,
    {
        if s.get_char(j - 1) == '/' {
            proof {
                lemma_last_sep_ignores_clean_suffix(s@, j as int);
                assert(s@.subrange(0, j as int).last() == sep());
            }
            return j;
        }
        j = j - 1;
    }
    proof {
        lemma_last_sep_ignores_clean_suffix(s@, 0);
        assert(s@.subrange(0, 0) =~= Seq::<char>::empty());
    }
    0
}

/// Whether the key is well-formed: a leading separator, then non-empty
/// segments, and no trailing separator.
pub fn is_wf_key(key: &str) -> (r: bool)
    ensures
        r == wf_key(key@),
{
    let n: usize = key.unicode_len();
    if n < 2 {
        return false;
    }
    if key.get_char(0) != '/' {
        return false;
    }
    if key.get_char(n - 1) == '/' {
        return false;
    }
    let mut i: usize = 1;
    while i < n
        invariant
            1 <= i <= n,
            n == key@.len(),
            forall|k: int| 0 < k < i ==> !(key@[k - 1] == sep() && #[trigger] key@[k] == sep()),
        decreases n - i,
    {
        if key.get_char(i - 1) == '/' && key.get_char(i) == '/' {
            return false;
        }
        i = i + 1;
    }
    true
}

/// Splits a key into its bucket and the object path inside the bucket.
/// Succeeds exactly on well-formed keys; everything else is `MalformedKey`.
pub fn split(key: &str) -> (r: Result<(String, String), PipelineError>)
    ensures
        r is Ok <==> wf_key(key@),
        r matches Ok(bp) ==> bp.0@ == spec_bucket(key@) && bp.1@ == spec_path(key@),
        r is Err ==> r == Err::<(String, String), PipelineError>(PipelineError::MalformedKey),
{
    if !is_wf_key(key) {
        return Err(PipelineError::MalformedKey);
    }
    let n: usize = key.unicode_len();
    proof {
        lemma_sep_after_bounds(key@, 1);
    }
    let j: usize = find_sep_from(key, 1);
    let bucket = key.substring_char(1, j).to_owned();
    let path = if j == n {
        String::new()
    } else {
        key.substring_char(j + 1, n).to_owned()
    };
    Ok((bucket, path))
}

/// The key with its final segment removed, keeping the trailing separator:
/// the common prefix under which a product's objects live and against which
/// their local paths are computed.
pub fn product_prefix(key: &str) -> (r: Result<String, PipelineError>)
    ensures
        r is Ok <==> wf_key(key@),
        r matches Ok(p) ==> p@ == spec_prefix(key@),
        r is Err ==> r == Err::<String, PipelineError>(PipelineError::MalformedKey),
{
    if !is_wf_key(key) {
        return Err(PipelineError::MalformedKey);
    }
    let n: usize = key.unicode_len();
    proof {
        lemma_last_sep_bounds(key@);
    }
    let j: usize = find_after_last_sep(key);
    Ok(key.substring_char(0, j).to_owned())
}

/// The final segment of a key; the whole key when it has no separator.
pub fn file_name(key: &str) -> (r: String)
    ensures
        r@ == spec_file_name(key@),
{
    let n: usize = key.unicode_len();
    proof {
        lemma_last_sep_bounds(key@);
    }
    let j: usize = find_after_last_sep(key);
    key.substring_char(j, n).to_owned()
}

/// Whether `s` begins with `p`.
pub open spec fn starts_with(s: Seq<char>, p: Seq<char>) -> bool {
    p.len() <= s.len() && s.subrange(0, p.len() as int) == p
}

/// Whether the string begins with the given prefix.
pub fn has_prefix(s: &str, p: &str) -> (r: bool)
    ensures
        r == starts_with(s@, p@),
{
    let n: usize = s.unicode_len();
    let m: usize = p.unicode_len();
    if m > n {
        return false;
    }
    let mut i: usize = 0;
    while i < m
        invariant
            0 <= i <= m <= n,
            n == s@.len(),
            m == p@.len(),
            forall|j: int| 0 <= j < i ==> s@[j] == p@[j],
        decreases m - i,
    {
        if s.get_char(i) != p.get_char(i) {
            proof {
                assert(s@.subrange(0, m as int)[i as int] == s@[i as int]);
            }
            return false;
        }
        i = i + 1;
    }
    proof {
        assert(s@.subrange(0, m as int) =~= p@);
    }
    true
}

/// The remainder of `rem` with its final segment removed (no trailing
/// separator); empty when `rem` has no separator before its final segment.
pub open spec fn spec_parent(rem: Seq<char>) -> Seq<char> {
    if last_sep(rem) >= 0 {
        rem.subrange(0, last_sep(rem))
    } else {
        Seq::empty()
    }
}

/// The local directory for a key downloaded relative to `rel` under `root`:
/// `root` itself when the key's parent coincides with `rel`, otherwise
/// `root/<parent of the remainder>`.
pub open spec fn spec_local_folder(key: Seq<char>, rel: Seq<char>, root: Seq<char>) -> Seq<char> {
    let parent = spec_parent(key.skip(rel.len() as int));
    if parent.len() == 0 {
        root
    } else {
        root + seq![sep()] + parent
    }
}

/// The local directory into which a key's object is written: the `relative_to`
/// prefix is stripped, the final segment (the file name) is dropped, and what
/// remains is joined onto `target_root`. Succeeds exactly when the key starts
/// with `relative_to`; everything else is `NotRelative`.
pub fn local_folder(key: &str, relative_to: &str, target_root: &str) -> (r: Result<
    String,
    PipelineError,
>)
    ensures
        r is Ok <==> starts_with(key@, relative_to@),
        r matches Ok(d) ==> d@ == spec_local_folder(key@, relative_to@, target_root@),
        r is Err ==> r == Err::<String, PipelineError>(PipelineError::NotRelative),
{
    if !has_prefix(key, relative_to) {
        return Err(PipelineError::NotRelative);
    }
    let n: usize = key.unicode_len();
    let m: usize = relative_to.unicode_len();
    let rem = key.substring_char(m, n);
    proof {
        assert(rem@ =~= key@.skip(m as int));
        lemma_last_sep_bounds(rem@);
    }
    let j: usize = find_after_last_sep(rem);
    if j <= 1 {
        proof {
            if j == 1 {
                assert(spec_parent(rem@) =~= Seq::<char>::empty());
            }
        }
        Ok(target_root.to_owned())
    } else {
        let parent = rem.substring_char(0, j - 1);
        let mut out = target_root.to_owned();
        out.append("/");
        out.append(parent);
        proof {
            reveal_strlit("/");
            assert("/"@ =~= seq![sep()]);
            assert(out@ =~= target_root@ + seq![sep()] + spec_parent(key@.skip(m as int)));
        }
        Ok(out)
    }
}

/// The bucket a product's objects are listed in and the prefix they are
/// listed under: the product key's object path with its final segment
/// dropped, keeping the trailing separator.
pub open spec fn spec_listing_prefix(s: Seq<char>) -> Seq<char> {
    spec_path(s).subrange(0, last_sep(spec_path(s)) + 1)
}

/// Where a product's objects are listed: the bucket and the listing prefix.
#[derive(Debug)]
pub struct ListingParts {
    pub bucket: String,
    pub prefix: String,
}

/// Splits a product key into the bucket and the listing prefix (the object
/// path with its final segment dropped, trailing separator kept). Succeeds
/// exactly on well-formed keys; everything else is `MalformedKey`.
pub fn listing_parts(key: &str) -> (r: Result<ListingParts, PipelineError>)
    ensures
        r is Ok <==> wf_key(key@),
        r matches Ok(lp) ==> lp.bucket@ == spec_bucket(key@) && lp.prefix@ == spec_listing_prefix(
            key@,
        ),
        r is Err ==> r == Err::<ListingParts, PipelineError>(PipelineError::MalformedKey),
{
    let (bucket, path) = match split(key) {
        Ok(bp) => bp,
        Err(e) => {
            return Err(e);
        },
    };
    proof {
        lemma_last_sep_bounds(path@);
    }
    let j: usize = find_after_last_sep(path.as_str());
    let prefix = path.as_str().substring_char(0, j).to_owned();
    Ok(ListingParts { bucket, prefix })
}

/// The object key reconstructed from a bucket and a listed object-storage
/// key: `/<bucket>/<object_key>`.
pub fn subkey(bucket: &str, object_key: &str) -> (r: String)
    ensures
        r@ == seq![sep()] + bucket@ + seq![sep()] + object_key@,
{
    let mut out = String::new();
    out.append("/");
    out.append(bucket);
    out.append("/");
    out.append(object_key);
    proof {
        reveal_strlit("/");
        assert(out@ =~= seq![sep()] + bucket@ + seq![sep()] + object_key@);
    }
    out
}

/// Every listed object-storage key turned back into a full object key
/// `/<bucket>/<object_key>`, in listing order.
pub fn subkeys_from_listing(bucket: &str, object_keys: &Vec<String>) -> (r: Vec<String>)
    ensures
        r@.len() == object_keys@.len(),
        forall|i: int|
            0 <= i < r@.len() ==> #[trigger] r@[i]@ == seq![sep()] + bucket@ + seq![sep()]
                + object_keys@[i]@,
{
    let mut out: Vec<String> = Vec::new();
    let mut i: usize = 0;
    while i < object_keys.len()
        invariant
            0 <= i <= object_keys@.len(),
            out@.len() == i,
            forall|k: int|
                0 <= k < i ==> #[trigger] out@[k]@ == seq![sep()] + bucket@ + seq![sep()]
                    + object_keys@[k]@,
        decreases object_keys@.len() - i,
    {
        out.push(subkey(bucket, object_keys[i].as_str()));
        i = i + 1;
    }
    out
}

/// Everything needed to fetch one object and write it locally.
#[derive(Debug)]
pub struct DownloadPlan {
    /// The bucket the object lives in.
    pub bucket: String,
    /// The object's path inside the bucket.
    pub object_path: String,
    /// The local directory the file is written into.
    pub local_dir: String,
    /// The file's name: the key's final segment.
    pub file_name: String,
}

impl DownloadPlan {
    /// The full local path the object is written to.
    pub fn local_path(&self) -> (r: String)
        ensures
            r@ == self.local_dir@ + seq![sep()] + self.file_name@,
    {
        let mut out = self.local_dir.clone();
        out.append("/");
        out.append(self.file_name.as_str());
        proof {
            reveal_strlit("/");
            assert(out@ =~= self.local_dir@ + seq![sep()] + self.file_name@);
        }
        out
    }
}

/// Derives the whole plan for downloading one object key relative to a
/// product prefix: the bucket and object path to fetch, and the local
/// directory and file name to write. A structurally invalid key is
/// `MalformedKey`; a well-formed key outside the prefix is `NotRelative`.
pub fn plan_download(key: &str, relative_to: &str, target_root: &str) -> (r: Result<
    DownloadPlan,
    PipelineError,
>)
    ensures
        r is Ok <==> wf_key(key@) && starts_with(key@, relative_to@),
        r matches Ok(p) ==> p.bucket@ == spec_bucket(key@) && p.object_path@ == spec_path(key@)
            && p.local_dir@ == spec_local_folder(key@, relative_to@, target_root@) && p.file_name@
            == spec_file_name(key@),
        !wf_key(key@) ==> r == Err::<DownloadPlan, PipelineError>(PipelineError::MalformedKey),
        wf_key(key@) && !starts_with(key@, relative_to@) ==> r == Err::<
            DownloadPlan,
            PipelineError,
        >(PipelineError::NotRelative),
{
    let (bucket, object_path) = match split(key) {
        Ok(bp) => bp,
        Err(e) => {
            return Err(e);
        },
    };
    let local_dir = match local_folder(key, relative_to, target_root) {
        Ok(d) => d,
        Err(e) => {
            return Err(e);
        },
    };
    let name = file_name(key);
    Ok(DownloadPlan { bucket, object_path, local_dir, file_name: name })
}

/// A well-formed object path: non-empty segments joined by separators.
pub open spec fn wf_path(p: Seq<char>) -> bool {
    &&& p.len() > 0
    &&& p[0] != sep()
    &&& p[p.len() - 1] != sep()
    &&& forall|i: int| 0 < i < p.len() ==> !(p[i - 1] == sep() && #[trigger] p[i] == sep())
}

proof fn lemma_sep_after_finds(s: Seq<char>, start: int, k: int)
    requires
        0 <= start <= k < s.len(),
        s[k] == sep(),
        forall|j: int| start <= j < k ==> s[j] != sep(),
    ensures
        sep_after(s, start) == k,
    decreases k - start,
{
    if start < k {
        lemma_sep_after_finds(s, start + 1, k);
    }
}

/// Law: for every well-formed key `/<bucket>/<path...>`, splitting recovers
/// exactly the bucket and the path.
pub proof fn lemma_split_round_trip(bucket: Seq<char>, path: Seq<char>)
    requires
        bucket.len() > 0,
        no_sep(bucket),
        wf_path(path),
    ensures
        ({
            let key = seq![sep()] + bucket + seq![sep()] + path;
            &&& wf_key(key)
            &&& spec_bucket(key) == bucket
            &&& spec_path(key) == path
        }),
{
    let key = seq![sep()] + bucket + seq![sep()] + path;
    let b = bucket.len() as int;
    assert(key.len() == 2 + bucket.len() + path.len());
    assert(key[0] == sep());
    assert(key[key.len() - 1] == path[path.len() - 1]);
    assert forall|i: int| 0 < i < key.len() implies !(key[i - 1] == sep() && #[trigger] key[i]
        == sep()) by {
        if i <= b {
            assert(key[i] == bucket[i - 1]);
        } else if i == b + 1 {
            assert(key[i - 1] == bucket[b - 1]);
        } else {
            assert(key[i] == path[i - b - 2]);
            if i - 1 == b + 1 {
                assert(key[i - 1] == sep());
                assert(path[0] != sep());
            } else {
                assert(key[i - 1] == path[i - b - 3]);
            }
        }
    }
    assert(wf_key(key));
    assert(key[b + 1] == sep());
    assert forall|j: int| 1 <= j < b + 1 implies key[j] != sep() by {
        assert(key[j] == bucket[j - 1]);
    }
    lemma_sep_after_finds(key, 1, b + 1);
    assert(spec_bucket(key) =~= bucket);
    assert(spec_path(key) =~= path);
}

/// Law: a key with no separator at all, or shorter than two characters, has
/// no second slash-delimited component and is rejected as malformed.
pub proof fn lemma_key_without_bucket_not_wf(key: Seq<char>)
    requires
        no_sep(key) || key.len() < 2,
    ensures
        !wf_key(key),
{
}

/// The last separator of a sequence is the one that only non-separators
/// follow.
proof fn lemma_last_sep_at(s: Seq<char>, t: int)
    requires
        0 <= t < s.len(),
        s[t] == sep(),
        forall|u: int| t < u < s.len() ==> s[u] != sep(),
    ensures
        last_sep(s) == t,
{
    lemma_last_sep_ignores_clean_suffix(s, t + 1);
    assert(s.subrange(0, t + 1).last() == sep());
}

/// Law: the product prefix is exactly what listing-derived object keys are
/// relative to. Every object key reconstructed from a well-formed product
/// key's bucket and an object-storage key under its listing prefix starts
/// with the product prefix, so deriving that object's local path never fails
/// with `NotRelative`.
pub proof fn lemma_listed_keys_are_relative(key: Seq<char>, o: Seq<char>)
    requires
        wf_key(key),
        starts_with(o, spec_listing_prefix(key)),
    ensures
        starts_with(seq![sep()] + spec_bucket(key) + seq![sep()] + o, spec_prefix(key)),
{
    let j = sep_after(key, 1);
    lemma_sep_after_bounds(key, 1);
    let l = last_sep(key);
    lemma_last_sep_bounds(key);
    if l < 0 {
        assert(key[0] != sep());
        assert(false);
    }
    let sub = seq![sep()] + spec_bucket(key) + seq![sep()];
    let subkey = sub + o;
    if j == key.len() {
        assert forall|u: int| 0 < u < key.len() implies key[u] != sep() by {}
        lemma_last_sep_at(key, 0);
        assert(subkey.subrange(0, 1) =~= key.subrange(0, 1));
    } else {
        assert(sub =~= key.subrange(0, j + 1));
        let path = spec_path(key);
        let lp = last_sep(path);
        lemma_last_sep_bounds(path);
        let lpre = spec_listing_prefix(key);
        if lp >= 0 {
            assert(key[j + 1 + lp] == sep());
            assert forall|u: int| j + 1 + lp < u < key.len() implies key[u] != sep() by {
                assert(path[u - j - 1] != sep());
            }
            lemma_last_sep_at(key, j + 1 + lp);
        } else {
            assert forall|u: int| j < u < key.len() implies key[u] != sep() by {
                assert(path[u - j - 1] != sep());
            }
            lemma_last_sep_at(key, j);
        }
        assert forall|t: int| 0 <= t < l + 1 implies subkey[t] == key[t] by {
            if t <= j {
                assert(subkey[t] == key.subrange(0, j + 1)[t]);
            } else {
                let m = t - j - 1;
                assert(o.subrange(0, lpre.len() as int)[m] == o[m]);
                assert(lpre[m] == path[m]);
            }
        }
        assert(subkey.subrange(0, l + 1) =~= key.subrange(0, l + 1));
    }
}

} // verus!
