//! The source resolution cache and the product hydrator.
//!
//! Hydration turns each product's `source_id` into an attached
//! [`Source`]. The cache is scoped to one hydration call and memoizes
//! resolved sources, so each distinct source identifier is looked up at
//! most once however many products reference it, and every product
//! referencing it receives the same source data. A product without a
//! `source_id` aborts the whole batch; there is no partial hydration.

use vstd::prelude::*;

use crate::model::Error;
use crate::model::ErrorView;
use crate::model::MissingField;
use crate::model::Product;
use crate::model::ProductView;
use crate::model::Source;
use crate::model::SourceView;
use crate::model::product_views;
use crate::model::source_views;
use crate::repo::find_source_by_id;
use crate::repo::has_source;

verus! {

/// A per-call memo of resolved sources, keyed by source identifier.
/// An identifier is inserted at most once; a present key is answered
/// without another lookup.
pub struct SourceCache {
    ids: Vec<u64>,
    sources: Vec<Source>,
}

impl SourceCache {
    /// The identifiers resolved so far, in resolution order. Each
    /// distinct identifier occurs at most once: this sequence is the
    /// log of storage lookups the hydration performed.
    pub closed spec fn keys(self) -> Seq<u64> {
        self.ids@
    }

    /// Whether the cache already holds `id`.
    pub open spec fn has(self, id: u64) -> bool {
        self.keys().contains(id)
    }

    /// The source data cached for `id`.
    pub closed spec fn at(self, id: u64) -> SourceView {
        let i = choose|i: int| 0 <= i < self.ids@.len() && self.ids@[i] == id;
        self.sources@[i]@
    }

    /// Well-formed: one source per key, no key twice.
    pub closed spec fn wf(self) -> bool {
        self.ids@.len() == self.sources@.len() && self.ids@.no_duplicates()
    }

    /// The lookup log of a well-formed cache never repeats an
    /// identifier: however many products share a source, its
    /// identifier is resolved at most once.
    pub proof fn lemma_each_key_resolved_once(self)
        requires
            self.wf(),
        ensures
            self.keys().no_duplicates(),
    {
    }

    /// An empty cache: fresh for each hydration call.
    pub fn new() -> (c: SourceCache)
        ensures
            c.wf(),
            c.keys() == Seq::<u64>::empty(),
    {
        let c = SourceCache { ids: Vec::new(), sources: Vec::new() };
        proof {
            assert(c.keys() =~= Seq::<u64>::empty());
        }
        c
    }

    /// The cached source for `id`, without any storage round-trip, or
    /// `None` when `id` has not been resolved yet.
    pub fn get(&self, id: u64) -> (r: Option<Source>)
        requires
            self.wf(),
        ensures
            match r {
                Some(s) => self.has(id) && s@ == self.at(id),
                None => !self.has(id),
            },
    {
        let mut i: usize = 0;
        while i < self.ids.len()
            invariant
                self.wf(),
                i <= self.ids@.len(),
                forall|j: int| 0 <= j < i ==> self.ids@[j] != id,
            decreases self.ids@.len() - i,
        {
            if self.ids[i] == id {
                let s = self.sources[i].clone();
                proof {
                    assert(self.ids@[i as int] == id);
                    let w = choose|w: int| 0 <= w < self.ids@.len() && self.ids@[w] == id;
                    assert(w == i as int);
                }
                return Some(s);
            }
            i = i + 1;
        }
        proof {
            if self.has(id) {
                let w = choose|w: int| 0 <= w < self.ids@.len() && self.ids@[w] == id;
                assert(self.ids@[w] == id);
            }
        }
        None
    }

    /// Record the source resolved for a never-seen identifier. Existing
    /// entries are untouched; `id` is appended to the lookup log.
    pub fn insert(&mut self, id: u64, source: Source)
        requires
            old(self).wf(),
            !old(self).has(id),
        ensures
            final(self).wf(),
            final(self).keys() == old(self).keys().push(id),
            final(self).has(id),
            final(self).at(id) == source@,
            forall|x: u64|
                old(self).has(x) ==> #[trigger] final(self).has(x) && final(self).at(x) == old(
                    self,
                ).at(x),
    {
        let ghost old_ids = self.ids@;
        let ghost old_sources = self.sources@;
        self.ids.push(id);
        self.sources.push(source);
        proof {
            let n = old_ids.len() as int;
            assert(self.ids@ =~= old_ids.push(id));
            assert(self.sources@ =~= old_sources.push(source));
            assert forall|i: int, j: int|
                0 <= i < self.ids@.len() && 0 <= j < self.ids@.len() && i != j implies self.ids@[i]
                != self.ids@[j] by {
                if i < n && j < n {
                } else if i == n {
                    assert(self.ids@[j] == old_ids[j]);
                    assert(old_ids.contains(old_ids[j]));
                } else if j == n {
                    assert(self.ids@[i] == old_ids[i]);
                    assert(old_ids.contains(old_ids[i]));
                }
            }
            assert(self.ids@[n] == id);
            let w = choose|w: int| 0 <= w < self.ids@.len() && self.ids@[w] == id;
            if w < n {
                assert(old_ids[w] == id);
                assert(old_ids.contains(id));
            }
            assert(self.at(id) == source@);
            assert forall|x: u64| old(self).has(x) implies #[trigger] self.has(x) && self.at(x)
                == old(self).at(x) by {
                let wo = choose|wo: int| 0 <= wo < old_ids.len() && old_ids[wo] == x;
                assert(self.ids@[wo] == x);
                assert(self.has(x));
                let wn = choose|wn: int| 0 <= wn < self.ids@.len() && self.ids@[wn] == x;
                if wn == n {
                    assert(old_ids.contains(id));
                }
                assert(self.ids@[wn] == old_ids[wn]);
                assert(wn == wo);
            }
        }
    }
}

/// What a successful hydration guarantees: `out` is `orig` in order,
/// each product unchanged except that the source its `source_id` names
/// — present in `srcs` — is attached, and products sharing a source
/// identifier share equal source data.
pub open spec fn hydrated_from(
    out: Seq<ProductView>,
    orig: Seq<ProductView>,
    srcs: Seq<SourceView>,
) -> bool {
    &&& out.len() == orig.len()
    &&& forall|i: int|
        0 <= i < out.len() ==> ((#[trigger] orig[i].source_id) matches Some(sid) && (out[i] matches
        ProductView { source: Some(sv), .. } && sv.id == sid && srcs.contains(sv) && out[i]
            == (ProductView { source: Some(sv), ..orig[i] })))
    &&& forall|i: int, j: int|
        0 <= i < out.len() && 0 <= j < out.len() && orig[i].source_id == orig[j].source_id
            ==> #[trigger] out[i].source == #[trigger] out[j].source
}

/// When a hydration of `orig` against `srcs` fails with `e`: a product
/// without a `source_id` is a `FieldNotLoaded`, a source identifier no
/// source of `srcs` carries is an `EmptyResult`.
pub open spec fn hydration_failure(
    e: ErrorView,
    orig: Seq<ProductView>,
    srcs: Seq<SourceView>,
) -> bool {
    ||| (e == ErrorView::FieldNotLoaded(MissingField::ProductSourceId) && exists|i: int|
        0 <= i < orig.len() && (#[trigger] orig[i].source_id) is None)
    ||| (e == ErrorView::EmptyResult && exists|i: int|
        0 <= i < orig.len() && ((#[trigger] orig[i].source_id) matches Some(sid) && !has_source(
            srcs,
            sid,
        )))
}

/// Hydrate a batch of products against the given source collection:
/// attach to each product, in input order, the source its `source_id`
/// names, resolving each distinct identifier through a fresh
/// [`SourceCache`] at most once. A product without a `source_id` fails
/// the whole batch with `FieldNotLoaded`; an identifier no source
/// carries fails it with `EmptyResult`. On success every product keeps
/// all its other fields, order included, and any two products sharing a
/// source identifier carry equal source data.
pub fn hydrate_products(products: Vec<Product>, sources: &Vec<Source>) -> (r: Result<
    Vec<Product>,
    Error,
>)
    ensures
        match r {
            Ok(out) => hydrated_from(
                product_views(out@),
                product_views(products@),
                source_views(sources@),
            ),
            Err(e) => hydration_failure(e@, product_views(products@), source_views(sources@)),
        },
{
    let ghost orig = product_views(products@);
    let mut cache = SourceCache::new();
    let mut out: Vec<Product> = Vec::new();
    let mut i: usize = 0;
    while i < products.len()
        invariant
            i <= products.len(),
            orig == product_views(products@),
            orig.len() == products.len(),
            cache.wf(),
            out@.len() == i,
            forall|id: u64|
                #[trigger] cache.has(id) ==> source_views(sources@).contains(cache.at(id))
                    && cache.at(id).id == id,
            forall|j: int|
                0 <= j < i ==> ((#[trigger] orig[j].source_id) matches Some(sid) && cache.has(sid)
                    && product_views(out@)[j] == (ProductView {
                    source: Some(cache.at(sid)),
                    ..orig[j]
                })),
        decreases products.len() - i,
    {
        let sid = match products[i].source_id {
            Some(sid) => sid,
            None => {
                return Err(Error::FieldNotLoaded(MissingField::ProductSourceId));
            },
        };
        let resolved = match cache.get(sid) {
            Some(s) => s,
            None => {
                let fetched = match find_source_by_id(sources, sid) {
                    Some(s) => s,
                    None => {
                        return Err(Error::EmptyResult);
                    },
                };
                let ghost cache_before = cache;
                let kept = fetched.clone();
                cache.insert(sid, fetched);
                proof {
                    assert(cache.at(sid) == kept@);
                    assert forall|x: u64| #[trigger] cache.has(x) implies source_views(
                        sources@,
                    ).contains(cache.at(x)) && cache.at(x).id == x by {
                        if x != sid {
                            let ks = cache.keys();
                            let w = choose|w: int| 0 <= w < ks.len() && ks[w] == x;
                            assert(ks == cache_before.keys().push(sid));
                            assert(w < cache_before.keys().len());
                            assert(cache_before.keys()[w] == x);
                            assert(cache_before.keys().contains(x));
                            assert(cache_before.has(x));
                            assert(cache.at(x) == cache_before.at(x));
                        }
                    }
                }
                kept
            },
        };
        let ghost before_out = product_views(out@);
        let mut hydrated = products[i].clone();
        hydrated.set_source(resolved);
        out.push(hydrated);
        proof {
            assert(product_views(out@) =~= before_out.push(
                product_views(out@)[out@.len() - 1],
            ));
            assert(product_views(out@)[i as int] == (ProductView {
                source: Some(cache.at(sid)),
                ..orig[i as int]
            }));
        }
        i = i + 1;
    }
    Ok(out)
}

} // verus!
