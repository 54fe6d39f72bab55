//! The entity repository: what the storage primitives return.
//!
//! `find_products` and `count_products` evaluate a [`ProductFilter`] and
//! [`QueryOptions`] against a collection held as plain values; they are
//! the reference semantics of the predicates the operations push down to
//! storage, and the relation [`is_find_result`] is the contract every
//! listing is specified against. `required` and `collect_decoded` are
//! the result-handling halves of find-one and find-many: a missing
//! single document is an error, a record that fails to decode in a
//! listing is skipped.

use vstd::prelude::*;
use vstd::multiset::Multiset;

use crate::model::Category;
use crate::model::Error;
use crate::model::Product;
use crate::model::ProductView;
use crate::model::Source;
use crate::model::Wishlist;
use crate::model::WishlistView;
use crate::model::CategoryView;
use crate::model::category_views;
use crate::model::product_views;
use crate::model::wishlist_views;
use crate::model::source_views;
use crate::query::Projection;
use crate::query::ProductFilter;
use crate::query::ProductFilterView;
use crate::query::QueryOptions;
use crate::query::Sort;
use crate::query::SortKey;
use crate::query::eval_product_filter;
use crate::query::product_matches;

verus! {

broadcast use vstd::seq_lib::group_to_multiset_ensures;

/// The predicate a filter stands for, as a function on product views.
pub open spec fn matches_pred(f: ProductFilterView) -> spec_fn(ProductView) -> bool {
    |p: ProductView| product_matches(p, f)
}

/// The subsequence of `coll` that matches `f`, in collection order.
pub open spec fn selected(coll: Seq<ProductView>, f: ProductFilterView) -> Seq<ProductView> {
    coll.filter(matches_pred(f))
}

/// The key a product is compared by under the given sort field.
pub open spec fn sort_value(p: ProductView, k: SortKey) -> u64 {
    match k {
        SortKey::Id => match p.id {
            Some(i) => i,
            None => 0,
        },
        SortKey::Timestamp => p.timestamp,
    }
}

/// Whether `a` may come before `b` under sort order `s`.
pub open spec fn sort_le(s: Sort, a: ProductView, b: ProductView) -> bool {
    if s.ascending {
        sort_value(a, s.key) <= sort_value(b, s.key)
    } else {
        sort_value(a, s.key) >= sort_value(b, s.key)
    }
}

/// Whether `q` is ordered according to `s`.
pub open spec fn sorted_under(s: Sort, q: Seq<ProductView>) -> bool {
    forall|i: int, j: int| 0 <= i < j < q.len() ==> sort_le(s, q[i], q[j])
}

/// The pagination window: drop the first `skip` elements, keep at most
/// `limit`.
pub open spec fn window(q: Seq<ProductView>, skip: Option<u64>, limit: Option<u64>) -> Seq<
    ProductView,
> {
    let start: int = match skip {
        Some(s) => if s as int <= q.len() {
            s as int
        } else {
            q.len() as int
        },
        None => 0,
    };
    let rest = q.subrange(start, q.len() as int);
    match limit {
        Some(l) => if l as int <= rest.len() {
            rest.subrange(0, l as int)
        } else {
            rest
        },
        None => rest,
    }
}

/// A product after a projection: stripped fields read `None`.
pub open spec fn project_view(p: ProductView, proj: Option<Projection>) -> ProductView {
    match proj {
        None => p,
        Some(pr) => ProductView {
            id: if pr.with_id {
                p.id
            } else {
                None
            },
            item_id: if pr.with_item_id {
                p.item_id
            } else {
                None
            },
            ..p
        },
    }
}

/// A product sequence after a projection, element-wise.
pub open spec fn project_views(q: Seq<ProductView>, proj: Option<Projection>) -> Seq<ProductView> {
    q.map_values(|p: ProductView| project_view(p, proj))
}

/// Whether `ordered` is the match set of `f` in `coll`, arranged
/// according to `sort`: with a sort order it is some permutation of the
/// matches in that order, without one it is the matches in collection
/// order.
pub open spec fn is_ordered_selection(
    coll: Seq<ProductView>,
    f: ProductFilterView,
    sort: Option<Sort>,
    ordered: Seq<ProductView>,
) -> bool {
    match sort {
        Some(s) => ordered.to_multiset() == selected(coll, f).to_multiset() && sorted_under(
            s,
            ordered,
        ),
        None => ordered == selected(coll, f),
    }
}

/// What a find against `coll` with filter `f` and options `o` may
/// return: the matches, arranged by the sort order, windowed by skip and
/// limit, and projected.
pub open spec fn is_find_result(
    coll: Seq<ProductView>,
    f: ProductFilterView,
    o: QueryOptions,
    out: Seq<ProductView>,
) -> bool {
    exists|ordered: Seq<ProductView>|
        #[trigger] is_ordered_selection(coll, f, o.sort, ordered) && out == project_views(
            window(ordered, o.skip, o.limit),
            o.projection,
        )
}

/// The matches of `f` in `coll`, in collection order.
fn filter_products(coll: &Vec<Product>, f: &ProductFilter) -> (r: Vec<Product>)
    ensures
        product_views(r@) == selected(product_views(coll@), f@),
{
    let ghost pv = product_views(coll@);
    let mut out: Vec<Product> = Vec::new();
    let mut i: usize = 0;
    while i < coll.len()
        invariant
            i <= coll.len(),
            pv == product_views(coll@),
            pv.len() == coll.len(),
            product_views(out@) == pv.take(i as int).filter(matches_pred(f@)),
        decreases coll.len() - i,
    {
        let ghost prefix = pv.take(i as int);
        let keep = eval_product_filter(&coll[i], f);
        if keep {
            let ghost before = product_views(out@);
            out.push(coll[i].clone());
            proof {
                assert(product_views(out@) =~= before.push(pv[i as int]));
            }
        }
        proof {
            assert(pv.take(i + 1) =~= prefix.push(pv[i as int]));
            prefix.lemma_filter_push(pv[i as int], matches_pred(f@));
            assert(matches_pred(f@)(pv[i as int]) == product_matches(coll@[i as int]@, f@));
        }
        i = i + 1;
    }
    proof {
        assert(pv.take(coll.len() as int) =~= pv);
    }
    out
}

/// How many products of `coll` match `f`. The archived-product count
/// uses this with the same filter as the archived listing.
pub fn count_products(coll: &Vec<Product>, f: &ProductFilter) -> (n: u64)
    ensures
        n == selected(product_views(coll@), f@).len(),
{
    let matches = filter_products(coll, f);
    proof {
        assert(product_views(matches@).len() == matches@.len());
    }
    matches.len() as u64
}

/// Decide [`sort_le`] for two concrete products.
fn product_le(s: &Sort, a: &Product, b: &Product) -> (r: bool)
    ensures
        r == sort_le(*s, a@, b@),
{
    let ka = match s.key {
        SortKey::Id => match a.id {
            Some(i) => i,
            None => 0,
        },
        SortKey::Timestamp => a.timestamp,
    };
    let kb = match s.key {
        SortKey::Id => match b.id {
            Some(i) => i,
            None => 0,
        },
        SortKey::Timestamp => b.timestamp,
    };
    if s.ascending {
        ka <= kb
    } else {
        ka >= kb
    }
}

/// Insert `p` into the sorted sequence `out`, keeping it sorted.
fn insert_sorted(out: &mut Vec<Product>, p: Product, s: &Sort)
    requires
        sorted_under(*s, product_views(old(out)@)),
    ensures
        sorted_under(*s, product_views(final(out)@)),
        product_views(final(out)@).to_multiset() == product_views(old(out)@).to_multiset().insert(
            p@,
        ),
{
    let ghost old_pv = product_views(out@);
    let ghost pview = p@;
    let mut k: usize = 0;
    loop
        invariant
            k <= out.len(),
            old_pv == product_views(out@),
            old_pv.len() == out.len(),
            pview == p@,
            forall|i: int| 0 <= i < k ==> !sort_le(*s, pview, old_pv[i]),
        ensures
            k <= out.len(),
            forall|i: int| 0 <= i < k ==> !sort_le(*s, pview, old_pv[i]),
            k < out.len() ==> sort_le(*s, pview, old_pv[k as int]),
        decreases out.len() - k,
    {
        if k == out.len() {
            break;
        }
        proof {
            assert(old_pv[k as int] == out@[k as int]@);
        }
        if product_le(s, &p, &out[k]) {
            break;
        }
        k = k + 1;
    }
    out.insert(k, p);
    let ghost new_pv = product_views(out@);
    proof {
        assert(new_pv =~= old_pv.insert(k as int, pview));
        assert forall|i: int, j: int| 0 <= i < j < new_pv.len() implies sort_le(
            *s,
            new_pv[i],
            new_pv[j],
        ) by {
            if j < k {
                assert(new_pv[i] == old_pv[i] && new_pv[j] == old_pv[j]);
            } else if i > k {
                assert(new_pv[i] == old_pv[i - 1] && new_pv[j] == old_pv[j - 1]);
            } else if i < k && j == k {
                assert(!sort_le(*s, pview, old_pv[i]));
            } else if i == k && j > k {
                assert(sort_le(*s, pview, old_pv[k as int]));
                assert(sort_le(*s, old_pv[k as int], old_pv[j - 1]) || k == j - 1);
            } else {
                // i < k < j: both elements come from the sorted old sequence
                assert(new_pv[i] == old_pv[i] && new_pv[j] == old_pv[j - 1]);
                assert(!sort_le(*s, pview, old_pv[i]));
                assert(k <= j - 1 < old_pv.len());
            }
        }
        assert(new_pv.remove(k as int) =~= old_pv);
        assert(new_pv.remove(k as int).to_multiset() == new_pv.to_multiset().remove(pview));
        assert(new_pv.contains(pview)) by {
            assert(new_pv[k as int] == pview);
        }
        assert(new_pv.to_multiset().count(pview) > 0);
        assert(new_pv.to_multiset() =~= old_pv.to_multiset().insert(pview));
    }
}

/// Arrange `v` according to `s`: the result is a permutation of `v`
/// sorted under `s`.
fn sort_products(v: Vec<Product>, s: &Sort) -> (r: Vec<Product>)
    ensures
        product_views(r@).to_multiset() == product_views(v@).to_multiset(),
        sorted_under(*s, product_views(r@)),
{
    let ghost all = product_views(v@);
    let mut out: Vec<Product> = Vec::new();
    let mut rest = v;
    proof {
        assert(product_views(out@) =~= Seq::<ProductView>::empty());
        assert(product_views(out@).to_multiset().add(product_views(rest@).to_multiset())
            =~= all.to_multiset());
    }
    while rest.len() > 0
        invariant
            sorted_under(*s, product_views(out@)),
            product_views(out@).to_multiset().add(product_views(rest@).to_multiset())
                == all.to_multiset(),
        decreases rest@.len(),
    {
        let ghost before_rest = product_views(rest@);
        let ghost before_out = product_views(out@);
        let p = rest.remove(0);
        proof {
            assert(product_views(rest@) =~= before_rest.remove(0));
            assert(before_rest.remove(0).to_multiset() == before_rest.to_multiset().remove(
                before_rest[0],
            ));
            assert(before_rest.contains(before_rest[0]));
        }
        insert_sorted(&mut out, p, s);
        proof {
            assert(product_views(out@).to_multiset().add(product_views(rest@).to_multiset())
                =~= all.to_multiset());
        }
    }
    proof {
        assert(product_views(rest@) =~= Seq::<ProductView>::empty());
        assert(product_views(rest@).to_multiset() =~= Multiset::empty());
        assert(product_views(out@).to_multiset().add(Multiset::<ProductView>::empty())
            =~= product_views(out@).to_multiset());
    }
    out
}

/// Apply the pagination window to `v`.
fn window_products(v: Vec<Product>, skip: &Option<u64>, limit: &Option<u64>) -> (r: Vec<Product>)
    ensures
        product_views(r@) == window(product_views(v@), *skip, *limit),
{
    let start: usize = match skip {
        Some(s) => if *s <= v.len() as u64 {
            *s as usize
        } else {
            v.len()
        },
        None => 0,
    };
    let end: usize = match limit {
        Some(l) => if *l <= (v.len() - start) as u64 {
            start + *l as usize
        } else {
            v.len()
        },
        None => v.len(),
    };
    let mut out: Vec<Product> = Vec::new();
    let mut i: usize = start;
    proof {
        assert(product_views(out@) =~= product_views(v@).subrange(start as int, start as int));
    }
    while i < end
        invariant
            start <= i <= end <= v.len(),
            product_views(v@).len() == v.len(),
            product_views(out@) == product_views(v@).subrange(start as int, i as int),
        decreases end - i,
    {
        let ghost before_out = product_views(out@);
        out.push(v[i].clone());
        proof {
            assert(product_views(out@) =~= before_out.push(product_views(v@)[i as int]));
            assert(before_out.push(product_views(v@)[i as int]) =~= product_views(v@).subrange(
                start as int,
                i + 1,
            ));
        }
        i = i + 1;
    }
    proof {
        assert(product_views(out@) =~= window(product_views(v@), *skip, *limit));
    }
    out
}

/// Apply a projection to one product.
fn project_one(p: &Product, proj: &Option<Projection>) -> (r: Product)
    ensures
        r@ == project_view(p@, *proj),
{
    let mut q = p.clone();
    match proj {
        None => {},
        Some(pr) => {
            if !pr.with_id {
                q.id = None;
            }
            if !pr.with_item_id {
                q.item_id = None;
            }
        },
    }
    q
}

/// Apply a projection to every product of a listing.
fn project_products(v: Vec<Product>, proj: &Option<Projection>) -> (r: Vec<Product>)
    ensures
        product_views(r@) == project_views(product_views(v@), *proj),
{
    let mut out: Vec<Product> = Vec::new();
    let mut i: usize = 0;
    while i < v.len()
        invariant
            i <= v.len(),
            product_views(v@).len() == v.len(),
            product_views(out@) =~= project_views(product_views(v@).take(i as int), *proj),
        decreases v.len() - i,
    {
        let ghost before_out = product_views(out@);
        let q = project_one(&v[i], proj);
        let ghost qv = q@;
        out.push(q);
        proof {
            assert(product_views(out@) =~= before_out.push(qv));
            assert(product_views(v@).take(i + 1) =~= product_views(v@).take(i as int).push(
                product_views(v@)[i as int],
            ));
            assert(before_out.push(qv) =~= project_views(product_views(v@).take(i + 1), *proj));
        }
        i = i + 1;
    }
    proof {
        assert(product_views(v@).take(v.len() as int) =~= product_views(v@));
    }
    out
}

/// Evaluate a find against a product collection held as plain values:
/// filter, arrange by the sort order, window, project. This is the
/// reference semantics of the storage find the operations issue.
pub fn find_products(coll: &Vec<Product>, f: &ProductFilter, o: &QueryOptions) -> (r: Vec<Product>)
    ensures
        is_find_result(product_views(coll@), f@, *o, product_views(r@)),
{
    let filtered = filter_products(coll, f);
    let ordered = match &o.sort {
        Some(s) => sort_products(filtered, s),
        None => filtered,
    };
    let ghost ordered_view = product_views(ordered@);
    proof {
        assert(is_ordered_selection(product_views(coll@), f@, o.sort, ordered_view));
    }
    let windowed = window_products(ordered, &o.skip, &o.limit);
    let out = project_products(windowed, &o.projection);
    proof {
        assert(product_views(out@) == project_views(
            window(ordered_view, o.skip, o.limit),
            o.projection,
        ));
        assert(is_find_result(product_views(coll@), f@, *o, product_views(out@)));
    }
    out
}

/// The result-handling half of a find-one: a required single-document
/// lookup that matched nothing is `EmptyResult`, distinct from any
/// storage failure.
pub fn required<T>(found: Option<T>) -> (r: Result<T, Error>)
    ensures
        match found {
            Some(v) => r matches Ok(got) && got == v,
            None => r matches Err(e) && e@ == crate::model::ErrorView::EmptyResult,
        },
{
    match found {
        Some(v) => Ok(v),
        None => Err(Error::EmptyResult),
    }
}

/// The decoded records of a listing, with the records that failed to
/// decode (`None`) skipped: order is kept and nothing else is dropped.
pub open spec fn decoded_values<T>(s: Seq<Option<T>>) -> Seq<T>
    decreases s.len(),
{
    if s.len() == 0 {
        Seq::empty()
    } else {
        let rest = decoded_values(s.drop_first());
        match s.first() {
            Some(v) => seq![v] + rest,
            None => rest,
        }
    }
}

/// The result-handling half of a find-many: each record of the listing
/// either decoded (`Some`) or not (`None`); the ones that decoded are
/// kept in order, a decode failure is skipped rather than fatal.
pub fn collect_decoded<T>(records: Vec<Option<T>>) -> (r: Vec<T>)
    ensures
        r@ == decoded_values(records@),
{
    let mut out: Vec<T> = Vec::new();
    let mut rest = records;
    let ghost all = rest@;
    while rest.len() > 0
        invariant
            decoded_values(all) =~= out@ + decoded_values(rest@),
        decreases rest@.len(),
    {
        let ghost before_rest = rest@;
        let ghost before_out = out@;
        let record = rest.remove(0);
        proof {
            assert(before_rest.drop_first() =~= rest@);
        }
        match record {
            Some(v) => {
                out.push(v);
                proof {
                    assert(before_out + (seq![v] + decoded_values(rest@)) =~= out@
                        + decoded_values(rest@));
                }
            },
            None => {},
        }
    }
    proof {
        assert(decoded_values(rest@) =~= Seq::<T>::empty());
        assert(out@ + Seq::<T>::empty() =~= out@);
    }
    out
}

/// Whether `c` is the first category of `cs` named `name`.
pub open spec fn first_category_named(cs: Seq<CategoryView>, name: Seq<char>, c: CategoryView) -> bool {
    exists|i: int|
        0 <= i < cs.len() && #[trigger] cs[i] == c && c.name == name && (forall|j: int|
            0 <= j < i ==> cs[j].name != name)
}

/// Whether no category of `cs` is named `name`.
pub open spec fn no_category_named(cs: Seq<CategoryView>, name: Seq<char>) -> bool {
    forall|i: int| 0 <= i < cs.len() ==> (#[trigger] cs[i].name) != name
}

/// The first category of `categories` whose name is exactly `name`, or
/// `None` when no category carries that name.
pub fn find_category_by_name(categories: &Vec<Category>, name: &String) -> (r: Option<Category>)
    ensures
        match r {
            Some(c) => first_category_named(category_views(categories@), name@, c@),
            None => no_category_named(category_views(categories@), name@),
        },
{
    let mut i: usize = 0;
    while i < categories.len()
        invariant
            i <= categories.len(),
            forall|j: int| 0 <= j < i ==> (#[trigger] category_views(categories@)[j].name) != name@,
        decreases categories.len() - i,
    {
        if categories[i].name.eq(name) {
            let c = categories[i].clone();
            proof {
                assert(category_views(categories@)[i as int] == c@ && c@.name == name@);
                assert(forall|j: int|
                    0 <= j < i ==> category_views(categories@)[j].name != name@);
            }
            return Some(c);
        }
        i = i + 1;
    }
    None
}

/// Whether the source collection holds a source with the given id.
pub open spec fn has_source(ss: Seq<crate::model::SourceView>, id: u64) -> bool {
    exists|i: int| 0 <= i < ss.len() && #[trigger] ss[i].id == id
}

/// A source of `sources` whose id is exactly `id`, or `None` when no
/// source carries that id.
pub fn find_source_by_id(sources: &Vec<Source>, id: u64) -> (r: Option<Source>)
    ensures
        match r {
            Some(s) => source_views(sources@).contains(s@) && s@.id == id,
            None => !has_source(source_views(sources@), id),
        },
{
    let mut i: usize = 0;
    while i < sources.len()
        invariant
            i <= sources.len(),
            forall|j: int| 0 <= j < i ==> #[trigger] source_views(sources@)[j].id != id,
        decreases sources.len() - i,
    {
        if sources[i].id == id {
            let s = sources[i].clone();
            proof {
                assert(source_views(sources@)[i as int] == s@);
                assert(source_views(sources@).contains(s@));
            }
            return Some(s);
        }
        i = i + 1;
    }
    None
}

/// The most recent wishlist of `wishlists` — one with maximal
/// timestamp — with its raw identifier projected away, or `None` when
/// no wishlist exists.
/// Whether `w` is the most recent wishlist of `ws` — one of maximal
/// timestamp — with its raw identifier projected away.
pub open spec fn last_wishlist_of(ws: Seq<WishlistView>, w: WishlistView) -> bool {
    exists|i: int|
        0 <= i < ws.len() && w == (WishlistView { id: None, ..#[trigger] ws[i] }) && (forall|
            j: int,
        |
            0 <= j < ws.len() ==> (#[trigger] ws[j].timestamp) <= ws[i].timestamp)
}

pub fn last_wishlist(wishlists: &Vec<Wishlist>) -> (r: Option<Wishlist>)
    ensures
        match r {
            Some(w) => last_wishlist_of(wishlist_views(wishlists@), w@),
            None => wishlists@.len() == 0,
        },
{
    if wishlists.len() == 0 {
        return None;
    }
    let mut best: usize = 0;
    let mut i: usize = 1;
    while i < wishlists.len()
        invariant
            best < i <= wishlists.len(),
            forall|j: int|
                0 <= j < i ==> #[trigger] wishlists@[j].timestamp
                    <= wishlists@[best as int].timestamp,
        decreases wishlists.len() - i,
    {
        if wishlists[i].timestamp > wishlists[best].timestamp {
            best = i;
        }
        i = i + 1;
    }
    let mut w = wishlists[best].clone();
    w.id = None;
    proof {
        let ws = wishlist_views(wishlists@);
        assert(w@ == (WishlistView { id: None, ..ws[best as int] }));
        assert(forall|j: int| 0 <= j < ws.len() ==> (#[trigger] ws[j].timestamp) <= ws[best as int].timestamp);
    }
    Some(w)
}

} // verus!
