//! The search side of the pipeline: building the search URL, merging the
//! geometry filter into the query parameters, and depaginating feature
//! collections by following `rel == "next"` links.
//!
//! The network itself stays outside: a caller fetches one page at a time and
//! feeds it to [`SearchFlow::absorb_page`], which accumulates the products
//! and answers with the next URL to fetch, if any.

use vstd::prelude::*;

use crate::keys::sep;
use crate::lemma_filter_push;

verus! {

/// One pagination link of a feature collection.
pub struct CollectionLink {
    pub rel: String,
    pub href: String,
}

/// The properties of a feature collection: its pagination links.
pub struct FeatureCollectionProperties {
    pub links: Vec<CollectionLink>,
}

/// The properties of one feature: the product identifier.
pub struct ProductProperties {
    pub product_identifier: String,
}

/// One search result: a product, identified by an opaque slash-structured key.
pub struct Product {
    pub properties: ProductProperties,
}

/// One page of search results: its features in page order, and the
/// collection properties carrying the pagination links.
pub struct SearchPage {
    pub properties: FeatureCollectionProperties,
    pub features: Vec<Product>,
}

/// The sequence with every trailing separator removed.
pub open spec fn trim_trailing_seps(s: Seq<char>) -> Seq<char>
    decreases s.len(),
{
    if s.len() > 0 && s[s.len() - 1] == sep() {
        trim_trailing_seps(s.drop_last())
    } else {
        s
    }
}

/// The search URL for an endpoint and an optional collection:
/// `<endpoint>[/<collection>]/search.json`, with the endpoint's trailing
/// separators normalized away first.
pub open spec fn spec_search_url(endpoint: Seq<char>, collection: Option<Seq<char>>) -> Seq<char> {
    let base = trim_trailing_seps(endpoint);
    match collection {
        Some(c) => base + seq![sep()] + c + "/search.json"@,
        None => base + "/search.json"@,
    }
}

/// The character length of the endpoint with trailing separators removed.
fn trim_end_len(s: &str) -> (r: usize)
    ensures
        r <= s@.len(),
        trim_trailing_seps(s@) == s@.subrange(0, r as int),
{
    let n: usize = s.unicode_len();
    let mut j: usize = n;
    proof {
        assert(s@.subrange(0, n as int) =~= s@);
    }
    while j > 0
        invariant
            0 <= j <= n,
            n == s@.len(),
            trim_trailing_seps(s@) == trim_trailing_seps(s@.subrange(0, j as int)),
        decreases j,
    {
        if s.get_char(j - 1) != '/' {
            proof {
                assert(s@.subrange(0, j as int)[j - 1] != sep());
            }
            return j;
        }
        proof {
            assert(s@.subrange(0, j as int).drop_last() =~= s@.subrange(0, j - 1 as int));
        }
        j = j - 1;
    }
    proof {
        assert(s@.subrange(0, 0) =~= Seq::<char>::empty());
    }
    0
}

/// Builds the search request URL: `<endpoint>/<collection>/search.json` when
/// a collection is given, else `<endpoint>/search.json`, trailing separators
/// on the endpoint normalized away.
pub fn build_search_url(endpoint: &str, collection: &Option<String>) -> (r: String)
    ensures
        r@ == spec_search_url(endpoint@, collection.deep_view()),
{
    let j = trim_end_len(endpoint);
    let mut out = endpoint.substring_char(0, j).to_owned();
    match collection {
        Some(c) => {
            out.append("/");
            out.append(c.as_str());
            out.append("/search.json");
            proof {
                reveal_strlit("/");
                assert(out@ =~= spec_search_url(endpoint@, collection.deep_view()));
            }
        },
        None => {
            out.append("/search.json");
            proof {
                assert(out@ =~= spec_search_url(endpoint@, collection.deep_view()));
            }
        },
    }
    out
}

/// Keeps the query parameters whose key is not `geometry`.
pub open spec fn not_geometry_pred() -> spec_fn((String, String)) -> bool {
    |p: (String, String)| p.0@ != "geometry"@
}

/// Merges an optional geometry filter into the query parameters: without one
/// the parameters stay as they are; with one, any existing `geometry` entry
/// is replaced and the well-known-text value stands under the key
/// `geometry`, last.
pub fn merged_params(query: &Vec<(String, String)>, geometry: Option<String>) -> (r: Vec<
    (String, String),
>)
    ensures
        geometry is None ==> r@ == query@,
        geometry matches Some(w) ==> ({
            let flt = query@.filter(not_geometry_pred());
            &&& r@.len() == flt.len() + 1
            &&& r@.subrange(0, r@.len() - 1) == flt
            &&& r@[r@.len() - 1].0@ == "geometry"@
            &&& r@[r@.len() - 1].1 == w
        }),
{
    match geometry {
        None => {
            let mut out: Vec<(String, String)> = Vec::new();
            let mut i: usize = 0;
            while i < query.len()
                invariant
                    0 <= i <= query@.len(),
                    out@ == query@.subrange(0, i as int),
                decreases query@.len() - i,
            {
                out.push((query[i].0.clone(), query[i].1.clone()));
                proof {
                    assert(out@ =~= query@.subrange(0, i + 1 as int));
                }
                i = i + 1;
            }
            proof {
                assert(query@.subrange(0, query@.len() as int) =~= query@);
            }
            out
        },
        Some(w) => {
            let geo_key: String = "geometry".to_owned();
            let mut out: Vec<(String, String)> = Vec::new();
            let mut i: usize = 0;
            proof {
                assert(query@.subrange(0, 0) =~= Seq::<(String, String)>::empty());
                reveal(Seq::filter);
            }
            while i < query.len()
                invariant
                    0 <= i <= query@.len(),
                    geo_key@ == "geometry"@,
                    out@ == query@.subrange(0, i as int).filter(not_geometry_pred()),
                decreases query@.len() - i,
            {
                let ghost pre = query@.subrange(0, i as int);
                let ghost old_out = out@;
                if !(query[i].0 == geo_key) {
                    out.push((query[i].0.clone(), query[i].1.clone()));
                    proof {
                        assert(out@ =~= old_out.push(query@[i as int]));
                    }
                }
                proof {
                    assert(query@.subrange(0, i + 1 as int) =~= pre.push(query@[i as int]));
                    lemma_filter_push(pre, not_geometry_pred(), query@[i as int]);
                }
                i = i + 1;
            }
            proof {
                assert(query@.subrange(0, query@.len() as int) =~= query@);
            }
            let ghost flt = out@;
            out.push((geo_key, w));
            proof {
                assert(out@.subrange(0, out@.len() - 1) =~= flt);
            }
            out
        },
    }
}

/// The `href` of the first link whose `rel` is `next`, if any.
pub open spec fn spec_next_href(links: Seq<CollectionLink>) -> Option<Seq<char>>
    decreases links.len(),
{
    if links.len() == 0 {
        None
    } else if links[0].rel@ == "next"@ {
        Some(links[0].href@)
    } else {
        spec_next_href(links.drop_first())
    }
}

/// The target of the first `rel == "next"` pagination link, if any.
pub fn next_href(links: &Vec<CollectionLink>) -> (r: Option<String>)
    ensures
        match r {
            Some(u) => spec_next_href(links@) == Some(u@),
            None => spec_next_href(links@) is None,
        },
{
    let next_key: String = "next".to_owned();
    let mut i: usize = 0;
    proof {
        assert(links@.skip(0) =~= links@);
    }
    while i < links.len()
        invariant
            0 <= i <= links@.len(),
            next_key@ == "next"@,
            spec_next_href(links@) == spec_next_href(links@.skip(i as int)),
        decreases links@.len() - i,
    {
        proof {
            assert(links@.skip(i as int)[0] == links@[i as int]);
        }
        if links[i].rel == next_key {
            return Some(links[i].href.clone());
        }
        proof {
            assert(links@.skip(i as int).drop_first() =~= links@.skip(i + 1 as int));
        }
        i = i + 1;
    }
    proof {
        assert(links@.skip(links@.len() as int) =~= Seq::<CollectionLink>::empty());
    }
    None
}

/// The depagination state: the products gathered so far, in page order and
/// within-page order, and whether `next` links are followed at all.
pub struct SearchFlow {
    pub products: Vec<Product>,
    pub depaginate: bool,
}

impl SearchFlow {
    /// An empty flow that will follow `next` links exactly when `depaginate`
    /// is set.
    pub fn new(depaginate: bool) -> (r: SearchFlow)
        ensures
            r.products@.len() == 0,
            r.depaginate == depaginate,
    {
        SearchFlow { products: Vec::new(), depaginate }
    }

    /// Takes one fetched page: appends its features, in order, to the
    /// products gathered so far, and answers with the URL of the next page —
    /// present exactly when depagination is on and the page carries a
    /// `rel == "next"` link.
    pub fn absorb_page(&mut self, page: SearchPage) -> (next: Option<String>)
        ensures
            final(self).products@ == old(self).products@ + page.features@,
            final(self).depaginate == old(self).depaginate,
            match next {
                Some(u) => old(self).depaginate && spec_next_href(page.properties.links@) == Some(
                    u@,
                ),
                None => !old(self).depaginate || spec_next_href(page.properties.links@) is None,
            },
    {
        let mut page = page;
        self.products.append(&mut page.features);
        if self.depaginate {
            next_href(&page.properties.links)
        } else {
            None
        }
    }

    /// Hands the gathered products out.
    pub fn into_products(self) -> (r: Vec<Product>)
        ensures
            r@ == self.products@,
    {
        self.products
    }
}

} // verus!
