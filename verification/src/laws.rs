//! Laws of the query and hydration semantics: what the archived-products
//! predicate, the pagination window and the newest-products cap
//! guarantee, proved once over the relations the operations are
//! specified against.

use vstd::prelude::*;

use crate::aggregate::listing_of;
use crate::hydrate::hydrated_from;
use crate::model::ProductView;
use crate::model::SourceView;
use crate::query::NEWEST_PRODUCTS_LIMIT;
use crate::query::ProductFilterView;
use crate::query::Projection;
use crate::query::QueryOptions;
use crate::query::Sort;
use crate::query::SortKey;
use crate::query::product_matches;
use crate::query::spec_newest_options;
use crate::repo::is_find_result;
use crate::repo::is_ordered_selection;
use crate::repo::matches_pred;
use crate::repo::project_view;
use crate::repo::project_views;
use crate::repo::selected;
use crate::repo::sort_le;
use crate::repo::sort_value;
use crate::repo::sorted_under;
use crate::repo::window;

verus! {

broadcast use {vstd::seq_lib::group_filter_ensures, vstd::seq_lib::group_to_multiset_ensures};

/// Whether `p_out` is the projected image of some product matching `f`.
pub open spec fn projected_match(
    p_out: ProductView,
    f: ProductFilterView,
    proj: Option<Projection>,
) -> bool {
    exists|p: ProductView| #[trigger] product_matches(p, f) && p_out == project_view(p, proj)
}

/// Every product of a find result matches the filter the find was
/// issued with, as far as the projection lets one see: the underlying
/// match is on the stored document, and the projection only strips
/// fields.
proof fn lemma_find_result_elements_match(
    coll: Seq<ProductView>,
    f: ProductFilterView,
    o: QueryOptions,
    out: Seq<ProductView>,
)
    requires
        is_find_result(coll, f, o, out),
    ensures
        forall|k: int|
            #![trigger out[k]]
            0 <= k < out.len() ==> projected_match(out[k], f, o.projection),
{
    let ordered = choose|ordered: Seq<ProductView>|
        #[trigger] is_ordered_selection(coll, f, o.sort, ordered) && out == project_views(
            window(ordered, o.skip, o.limit),
            o.projection,
        );
    let sel = selected(coll, f);
    let win = window(ordered, o.skip, o.limit);
    assert forall|k: int| #![trigger out[k]] 0 <= k < out.len() implies projected_match(
        out[k],
        f,
        o.projection,
    ) by {
        let p = win[k];
        assert(ordered.contains(p)) by {
            let start: int = match o.skip {
                Some(s) => if s as int <= ordered.len() {
                    s as int
                } else {
                    ordered.len() as int
                },
                None => 0,
            };
            assert(win[k] == ordered[start + k]);
        }
        assert(product_matches(p, f)) by {
            if o.sort is Some {
                assert(ordered.to_multiset().count(p) > 0);
                assert(sel.to_multiset().count(p) > 0);
                assert(sel.contains(p));
            } else {
                assert(sel.contains(p));
            }
            let w = choose|w: int| 0 <= w < sel.len() && sel[w] == p;
            assert(matches_pred(f)(sel[w]));
        }
        assert(out[k] == project_view(p, o.projection));
        assert(projected_match(out[k], f, o.projection));
    }
}

/// Law: an archived listing never returns a product drawn from the
/// current wishlist. For the latest wishlist's product-id set `ids`, a
/// hydrated listing under the `IdNotIn(ids)` predicate holds no product
/// whose identifier is in `ids`, whatever sort order, window and
/// projection were applied.
pub proof fn lemma_archived_page_excludes_wishlist(
    coll: Seq<ProductView>,
    srcs: Seq<SourceView>,
    ids: Seq<u64>,
    o: QueryOptions,
    out: Seq<ProductView>,
)
    requires
        listing_of(coll, srcs, ProductFilterView::IdNotIn(ids), o, out),
    ensures
        forall|k: int|
            0 <= k < out.len() ==> !((#[trigger] out[k].id) matches Some(pid) && ids.contains(
                pid,
            )),
{
    let f = ProductFilterView::IdNotIn(ids);
    let raw = choose|raw: Seq<ProductView>|
        #[trigger] is_find_result(coll, f, o, raw) && hydrated_from(out, raw, srcs);
    lemma_find_result_elements_match(coll, f, o, raw);
    assert forall|k: int| 0 <= k < out.len() implies !((#[trigger] out[k].id) matches Some(pid)
        && ids.contains(pid)) by {
        assert(out[k] == (ProductView { source: out[k].source, ..raw[k] }));
        assert(projected_match(raw[k], f, o.projection));
        let p = choose|p: ProductView|
            #[trigger] product_matches(p, f) && raw[k] == project_view(p, o.projection);
        assert(out[k].id == raw[k].id);
        match o.projection {
            None => {},
            Some(pr) => {},
        }
    }
}

/// Whether some product of `coll` carries the identifier `x`.
pub open spec fn id_present(coll: Seq<ProductView>, x: u64) -> bool {
    exists|i: int| 0 <= i < coll.len() && (#[trigger] coll[i].id) == Some(x)
}

/// Whether every identifier of `ids` is carried by a product of `coll`.
pub open spec fn all_ids_present(coll: Seq<ProductView>, ids: Seq<u64>) -> bool {
    forall|k: int| 0 <= k < ids.len() ==> id_present(coll, #[trigger] ids[k])
}

/// Law: the archived count is the complement of the wishlist. When
/// every product carries a distinct identifier, the wishlist's
/// product-id set has no duplicates, and each of its ids is present in
/// the product collection, the number of products matching the
/// archived predicate is the collection size minus the wishlist size.
pub proof fn lemma_archived_count_complement(coll: Seq<ProductView>, ids: Seq<u64>)
    requires
        forall|i: int| 0 <= i < coll.len() ==> (#[trigger] coll[i].id) is Some,
        forall|i: int, j: int| 0 <= i < j < coll.len() ==> coll[i].id != coll[j].id,
        ids.no_duplicates(),
        all_ids_present(coll, ids),
    ensures
        selected(coll, ProductFilterView::IdNotIn(ids)).len() + ids.len() == coll.len(),
    decreases coll.len(),
{
    let f = ProductFilterView::IdNotIn(ids);
    let pred = matches_pred(f);
    if coll.len() == 0 {
        if ids.len() > 0 {
            assert(id_present(coll, ids[0]));
            let i0 = choose|i: int| 0 <= i < coll.len() && (#[trigger] coll[i].id) == Some(ids[0]);
            assert(false);
        }
    } else {
        let c = coll.last();
        let rest = coll.drop_last();
        assert(coll =~= rest.push(c));
        rest.lemma_filter_push(c, pred);
        let x = c.id->0;
        if ids.contains(x) {
            assert(!pred(c));
            let kx = choose|kx: int| 0 <= kx < ids.len() && ids[kx] == x;
            let ids2 = ids.remove(kx);
            assert(ids2.len() == ids.len() - 1);
            assert forall|a: int, b: int| 0 <= a < b < ids2.len() implies ids2[a] != ids2[b] by {
                let a0: int = if a < kx {
                    a
                } else {
                    a + 1
                };
                let b0: int = if b < kx {
                    b
                } else {
                    b + 1
                };
                assert(ids2[a] == ids[a0] && ids2[b] == ids[b0]);
            }
            assert forall|k: int| 0 <= k < ids2.len() implies ids2[k] != x by {
                let k0: int = if k < kx {
                    k
                } else {
                    k + 1
                };
                assert(ids2[k] == ids[k0]);
            }
            assert forall|k: int| 0 <= k < ids2.len() implies id_present(
                rest,
                #[trigger] ids2[k],
            ) by {
                let k0: int = if k < kx {
                    k
                } else {
                    k + 1
                };
                assert(ids2[k] == ids[k0]);
                assert(id_present(coll, ids[k0]));
                let i = choose|i: int|
                    0 <= i < coll.len() && (#[trigger] coll[i].id) == Some(ids[k0]);
                assert(i < rest.len()) by {
                    if i == coll.len() - 1 {
                        assert(coll[i].id == Some(x));
                    }
                }
                assert(rest[i].id == Some(ids2[k]));
            }
            lemma_archived_count_complement(rest, ids2);
            let pred2 = matches_pred(ProductFilterView::IdNotIn(ids2));
            assert forall|i: int| 0 <= i < rest.len() implies pred(rest[i]) == pred2(rest[i]) by {
                let y = rest[i].id->0;
                assert(rest[i].id == coll[i].id);
                assert(coll[i].id != c.id);
                assert(y != x);
                if ids.contains(y) {
                    let ky = choose|ky: int| 0 <= ky < ids.len() && ids[ky] == y;
                    let ky2: int = if ky < kx {
                        ky
                    } else {
                        ky - 1
                    };
                    assert(ids2[ky2] == ids[ky]);
                    assert(ids2.contains(y));
                }
                if ids2.contains(y) {
                    let ky = choose|ky: int| 0 <= ky < ids2.len() && ids2[ky] == y;
                    let k0: int = if ky < kx {
                        ky
                    } else {
                        ky + 1
                    };
                    assert(ids2[ky] == ids[k0]);
                    assert(ids.contains(y));
                }
            }
            lemma_filter_congruence(rest, pred, pred2);
        } else {
            assert(pred(c));
            assert forall|k: int| 0 <= k < ids.len() implies id_present(rest, #[trigger] ids[k]) by {
                assert(id_present(coll, ids[k]));
                let i = choose|i: int|
                    0 <= i < coll.len() && (#[trigger] coll[i].id) == Some(ids[k]);
                assert(i < rest.len()) by {
                    if i == coll.len() - 1 {
                        assert(ids.contains(ids[k]));
                    }
                }
                assert(rest[i].id == Some(ids[k]));
            }
            lemma_archived_count_complement(rest, ids);
        }
    }
}

/// Filters under predicates that agree on every element agree.
proof fn lemma_filter_congruence<A>(s: Seq<A>, p1: spec_fn(A) -> bool, p2: spec_fn(A) -> bool)
    requires
        forall|i: int| 0 <= i < s.len() ==> p1(#[trigger] s[i]) == p2(s[i]),
    ensures
        s.filter(p1) == s.filter(p2),
    decreases s.len(),
{
    if s.len() > 0 {
        let rest = s.drop_last();
        lemma_filter_congruence(rest, p1, p2);
        rest.lemma_filter_push(s.last(), p1);
        rest.lemma_filter_push(s.last(), p2);
        assert(s =~= rest.push(s.last()));
    }
}


/// An element's multiplicity in a filtered sequence never exceeds its
/// multiplicity in the sequence itself.
proof fn lemma_filter_count_le<A>(s: Seq<A>, p: spec_fn(A) -> bool, x: A)
    ensures
        s.filter(p).to_multiset().count(x) <= s.to_multiset().count(x),
    decreases s.len(),
{
    if s.len() > 0 {
        let rest = s.drop_last();
        lemma_filter_count_le(rest, p, x);
        rest.lemma_filter_push(s.last(), p);
        assert(s =~= rest.push(s.last()));
        assert(s.to_multiset() =~= rest.to_multiset().insert(s.last()));
        if p(s.last()) {
            assert(s.filter(p) == rest.filter(p).push(s.last()));
            assert(s.filter(p).to_multiset() =~= rest.filter(p).to_multiset().insert(s.last()));
        }
    }
}

/// Law: a sort order whose keys are all distinct arranges the matches in
/// exactly one way. Two sorted arrangements of the same multiset of
/// products are equal, so listings over unchanged data are stable.
pub proof fn lemma_sorted_arrangement_unique(a: Seq<ProductView>, b: Seq<ProductView>, s: Sort)
    requires
        a.to_multiset() == b.to_multiset(),
        sorted_under(s, a),
        sorted_under(s, b),
        forall|i: int, j: int|
            0 <= i < j < a.len() ==> sort_value(a[i], s.key) != sort_value(a[j], s.key),
    ensures
        a == b,
    decreases a.len(),
{
    assert(a.len() == a.to_multiset().len());
    assert(b.len() == b.to_multiset().len());
    if a.len() == 0 {
        assert(b.len() == 0);
        assert(a =~= b);
    } else {
        assert(a.len() == b.len());
        assert(b.contains(b[0]));
        assert(a.to_multiset().count(b[0]) > 0);
        assert(a.contains(b[0]));
        let i0 = choose|i: int| 0 <= i < a.len() && a[i] == b[0];
        assert(a.contains(a[0]));
        assert(b.to_multiset().count(a[0]) > 0);
        assert(b.contains(a[0]));
        let j0 = choose|j: int| 0 <= j < b.len() && b[j] == a[0];
        assert(sort_le(s, a[0], a[i0]));
        assert(sort_le(s, b[0], b[j0]));
        assert(sort_value(a[0], s.key) == sort_value(b[0], s.key));
        assert(a[0] == b[0]) by {
            if i0 != 0 {
                assert(sort_value(a[0], s.key) != sort_value(a[i0], s.key));
            }
        }
        let at = a.drop_first();
        let bt = b.drop_first();
        assert(a.remove(0) =~= at);
        assert(b.remove(0) =~= bt);
        assert(at.to_multiset() == a.to_multiset().remove(a[0]));
        assert(bt.to_multiset() == b.to_multiset().remove(b[0]));
        assert(sorted_under(s, at)) by {
            assert forall|i: int, j: int| 0 <= i < j < at.len() implies sort_le(s, at[i], at[j]) by {
                assert(at[i] == a[i + 1] && at[j] == a[j + 1]);
            }
        }
        assert(sorted_under(s, bt)) by {
            assert forall|i: int, j: int| 0 <= i < j < bt.len() implies sort_le(s, bt[i], bt[j]) by {
                assert(bt[i] == b[i + 1] && bt[j] == b[j + 1]);
            }
        }
        assert forall|i: int, j: int| 0 <= i < j < at.len() implies sort_value(at[i], s.key)
            != sort_value(at[j], s.key) by {
            assert(at[i] == a[i + 1] && at[j] == a[j + 1]);
        }
        lemma_sorted_arrangement_unique(at, bt, s);
        assert(a =~= b) by {
            assert forall|i: int| 0 <= i < a.len() implies a[i] == b[i] by {
                if i > 0 {
                    assert(a[i] == at[i - 1] && b[i] == bt[i - 1]);
                }
            }
        }
    }
}

/// Law: pagination is non-overlapping. Two consecutive pages of the
/// same ordered sequence — offsets `offset` and `offset + per_page`,
/// page size `per_page` — share no product identifier, provided the
/// sequence's identifiers are distinct.
pub proof fn lemma_pagination_pages_disjoint(
    q: Seq<ProductView>,
    offset: u64,
    per_page: u64,
    next_offset: u64,
)
    requires
        forall|i: int, j: int| 0 <= i < j < q.len() ==> q[i].id != q[j].id,
        next_offset == offset + per_page,
    ensures
        forall|x: int, y: int|
            0 <= x < window(q, Some(offset), Some(per_page)).len() && 0 <= y < window(
                q,
                Some(next_offset),
                Some(per_page),
            ).len() ==> window(q, Some(offset), Some(per_page))[x].id != window(
                q,
                Some(next_offset),
                Some(per_page),
            )[y].id,
{
    let w1 = window(q, Some(offset), Some(per_page));
    let w2 = window(q, Some(next_offset), Some(per_page));
    let n = q.len() as int;
    let s1: int = if offset as int <= n {
        offset as int
    } else {
        n
    };
    let s2: int = if next_offset as int <= n {
        next_offset as int
    } else {
        n
    };
    assert forall|x: int, y: int| 0 <= x < w1.len() && 0 <= y < w2.len() implies w1[x].id
        != w2[y].id by {
        assert(w1[x] == q[s1 + x]);
        assert(w2[y] == q[s2 + y]);
        assert(s1 + w1.len() <= s2);
        assert(s1 + x < s2 + y + 1);
    }
}


/// Law: pagination is stable and non-overlapping across calls. When
/// every product carries a distinct identifier, two independently
/// evaluated archived pages over unchanged data — consecutive offsets,
/// equal page size, the same newest-first-by-id order — are projections
/// of windows of one and the same arrangement, and those windows share
/// no product identifier.
pub proof fn lemma_consecutive_pages_disjoint(
    coll: Seq<ProductView>,
    f: ProductFilterView,
    proj: Option<Projection>,
    offset: u64,
    per_page: u64,
    next_offset: u64,
    out1: Seq<ProductView>,
    out2: Seq<ProductView>,
)
    requires
        forall|i: int| 0 <= i < coll.len() ==> (#[trigger] coll[i].id) is Some,
        forall|i: int, j: int| 0 <= i < j < coll.len() ==> coll[i].id != coll[j].id,
        next_offset == offset + per_page,
        is_find_result(
            coll,
            f,
            QueryOptions {
                sort: Some(Sort { key: SortKey::Id, ascending: false }),
                projection: proj,
                skip: Some(offset),
                limit: Some(per_page),
            },
            out1,
        ),
        is_find_result(
            coll,
            f,
            QueryOptions {
                sort: Some(Sort { key: SortKey::Id, ascending: false }),
                projection: proj,
                skip: Some(next_offset),
                limit: Some(per_page),
            },
            out2,
        ),
    ensures
        exists|page1: Seq<ProductView>, page2: Seq<ProductView>|
            #![trigger project_views(page1, proj), project_views(page2, proj)]
            out1 == project_views(page1, proj) && out2 == project_views(page2, proj) && (forall|
                x: int,
                y: int,
            |
                0 <= x < page1.len() && 0 <= y < page2.len() ==> page1[x].id != page2[y].id),
{
    let sort = Sort { key: SortKey::Id, ascending: false };
    let o1 = QueryOptions {
        sort: Some(sort),
        projection: proj,
        skip: Some(offset),
        limit: Some(per_page),
    };
    let o2 = QueryOptions {
        sort: Some(sort),
        projection: proj,
        skip: Some(next_offset),
        limit: Some(per_page),
    };
    let ordered1 = choose|ordered: Seq<ProductView>|
        #[trigger] is_ordered_selection(coll, f, o1.sort, ordered) && out1 == project_views(
            window(ordered, o1.skip, o1.limit),
            o1.projection,
        );
    let ordered2 = choose|ordered: Seq<ProductView>|
        #[trigger] is_ordered_selection(coll, f, o2.sort, ordered) && out2 == project_views(
            window(ordered, o2.skip, o2.limit),
            o2.projection,
        );
    assert forall|i: int, j: int| 0 <= i < j < coll.len() implies coll[i] != coll[j] by {
        assert(coll[i].id != coll[j].id);
    }
    coll.lemma_multiset_has_no_duplicates();
    assert forall|i: int, j: int| 0 <= i < j < ordered1.len() implies sort_value(
        ordered1[i],
        sort.key,
    ) != sort_value(ordered1[j], sort.key) by {
        let u = ordered1[i];
        let v = ordered1[j];
        assert(ordered1.contains(u) && ordered1.contains(v));
        assert(ordered1.to_multiset().contains(u) && ordered1.to_multiset().contains(v));
        if u == v {
            let removed = ordered1.remove(i);
            assert(removed.to_multiset() == ordered1.to_multiset().remove(u));
            assert(removed[j - 1] == v);
            assert(removed.contains(v));
            assert(removed.to_multiset().count(u) > 0);
            assert(ordered1.to_multiset().count(u) >= 2);
            lemma_filter_count_le(coll, matches_pred(f), u);
            assert(coll.to_multiset().count(u) >= 2);
            assert(coll.to_multiset().contains(u));
            assert(false);
        } else {
            lemma_filter_count_le(coll, matches_pred(f), u);
            lemma_filter_count_le(coll, matches_pred(f), v);
            assert(coll.to_multiset().count(u) > 0);
            assert(coll.contains(u));
            assert(coll.to_multiset().count(v) > 0);
            assert(coll.contains(v));
            let pu = choose|p: int| 0 <= p < coll.len() && coll[p] == u;
            let pv = choose|p: int| 0 <= p < coll.len() && coll[p] == v;
            assert(pu != pv);
            if pu < pv {
                assert(coll[pu].id != coll[pv].id);
            } else {
                assert(coll[pv].id != coll[pu].id);
            }
            assert(u.id is Some && v.id is Some);
        }
    }
    assert(ordered1.to_multiset() == ordered2.to_multiset());
    assert(sorted_under(sort, ordered1) && sorted_under(sort, ordered2));
    lemma_sorted_arrangement_unique(ordered1, ordered2, sort);
    assert forall|i: int, j: int| 0 <= i < j < ordered1.len() implies ordered1[i].id
        != ordered1[j].id by {
        let u = ordered1[i];
        let v = ordered1[j];
        assert(ordered1.contains(u) && ordered1.contains(v));
        assert(ordered1.to_multiset().contains(u) && ordered1.to_multiset().contains(v));
        lemma_filter_count_le(coll, matches_pred(f), u);
        lemma_filter_count_le(coll, matches_pred(f), v);
        assert(coll.to_multiset().count(u) > 0);
        assert(coll.contains(u));
        assert(coll.to_multiset().count(v) > 0);
        assert(coll.contains(v));
        let pu = choose|p: int| 0 <= p < coll.len() && coll[p] == u;
        let pv = choose|p: int| 0 <= p < coll.len() && coll[p] == v;
        assert(u.id is Some && v.id is Some);
        assert(sort_value(u, sort.key) != sort_value(v, sort.key));
    }
    lemma_pagination_pages_disjoint(ordered1, offset, per_page, next_offset);
    let page1 = window(ordered1, Some(offset), Some(per_page));
    let page2 = window(ordered1, Some(next_offset), Some(per_page));
    assert(out1 == project_views(page1, proj));
    assert(out2 == project_views(page2, proj));
    assert(out1 == project_views(page1, proj) && out2 == project_views(page2, proj) && (forall|
        x: int,
        y: int,
    |
        0 <= x < page1.len() && 0 <= y < page2.len() ==> page1[x].id != page2[y].id));
}

/// Law: the newest-products listing holds at most
/// [`NEWEST_PRODUCTS_LIMIT`] products. Any hydrated listing under the
/// newest-products options is capped by the options' limit.
pub proof fn lemma_newest_products_bounded(
    coll: Seq<ProductView>,
    srcs: Seq<SourceView>,
    out: Seq<ProductView>,
)
    requires
        listing_of(coll, srcs, ProductFilterView::Any, spec_newest_options(), out),
    ensures
        out.len() <= NEWEST_PRODUCTS_LIMIT,
{
    let o = spec_newest_options();
    let f = ProductFilterView::Any;
    let raw = choose|raw: Seq<ProductView>|
        #[trigger] is_find_result(coll, f, o, raw) && hydrated_from(out, raw, srcs);
    let ordered = choose|ordered: Seq<ProductView>|
        #[trigger] is_ordered_selection(coll, f, o.sort, ordered) && raw == project_views(
            window(ordered, o.skip, o.limit),
            o.projection,
        );
    assert(window(ordered, o.skip, o.limit).len() <= NEWEST_PRODUCTS_LIMIT);
}

/// Law: a sorted find result is a projection of a page that is ordered
/// under the requested sort order — for the newest-products and
/// archived listings, nonincreasing identifier order.
pub proof fn lemma_listing_page_ordered(
    coll: Seq<ProductView>,
    f: ProductFilterView,
    o: QueryOptions,
    out: Seq<ProductView>,
)
    requires
        is_find_result(coll, f, o, out),
        o.sort is Some,
    ensures
        exists|page: Seq<ProductView>|
            #[trigger] sorted_under(o.sort->0, page) && out == project_views(page, o.projection),
{
    let ordered = choose|ordered: Seq<ProductView>|
        #[trigger] is_ordered_selection(coll, f, o.sort, ordered) && out == project_views(
            window(ordered, o.skip, o.limit),
            o.projection,
        );
    let page = window(ordered, o.skip, o.limit);
    let s = o.sort->0;
    assert(sorted_under(s, ordered));
    let start: int = match o.skip {
        Some(sk) => if sk as int <= ordered.len() {
            sk as int
        } else {
            ordered.len() as int
        },
        None => 0,
    };
    assert forall|i: int, j: int| 0 <= i < j < page.len() implies sort_le(
        s,
        page[i],
        page[j],
    ) by {
        assert(page[i] == ordered[start + i]);
        assert(page[j] == ordered[start + j]);
    }
    assert(sorted_under(s, page) && out == project_views(page, o.projection));
}

} // verus!
