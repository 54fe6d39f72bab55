//! The caller-facing operations, evaluated against a [`Store`]: the
//! four collections held as plain values.
//!
//! Each operation is the same pipeline the storage-backed service runs —
//! resolve the wishlist or category, build the filter and options,
//! list or count, hydrate sources — with the repository primitives of
//! this crate standing in for the document store. The contracts tie
//! every result to the query semantics of [`is_find_result`] and the
//! hydration guarantees of [`hydrated_from`].

use vstd::prelude::*;

use crate::hydrate::hydrate_products;
use crate::hydrate::hydrated_from;
use crate::hydrate::hydration_failure;
use crate::model::Category;
use crate::model::CategoryView;
use crate::model::Error;
use crate::model::ErrorView;
use crate::model::MissingField;
use crate::model::Pagination;
use crate::model::Product;
use crate::model::ProductView;
use crate::model::Source;
use crate::model::SourceView;
use crate::model::Wishlist;
use crate::model::WishlistView;
use crate::model::category_views;
use crate::model::product_views;
use crate::model::source_views;
use crate::model::wishlist_views;
use crate::query::CategoryLookup;
use crate::query::ProductFilter;
use crate::query::ProductFilterView;
use crate::query::QueryOptions;
use crate::query::archived_products_filter;
use crate::query::archived_products_options;
use crate::query::category_lookup_plan;
use crate::query::newest_products_options;
use crate::query::products_by_category_filter;
use crate::query::products_by_id_filter;
use crate::query::products_by_id_options;
use crate::query::spec_archived_options;
use crate::query::spec_newest_options;
use crate::query::spec_products_by_id_options;
use crate::query::spec_unconstrained_options;
use crate::repo::count_products;
use crate::repo::find_category_by_name;
use crate::repo::find_products;
use crate::repo::first_category_named;
use crate::repo::is_find_result;
use crate::repo::last_wishlist;
use crate::repo::last_wishlist_of;
use crate::repo::no_category_named;
use crate::repo::required;
use crate::repo::selected;

verus! {

/// The four collections a request reads from, held as plain values.
pub struct Store {
    pub wishlists: Vec<Wishlist>,
    pub products: Vec<Product>,
    pub sources: Vec<Source>,
    pub categories: Vec<Category>,
}

/// A hydrated listing: some find result under `f` and `o` against
/// `coll`, with its sources attached from `srcs`.
pub open spec fn listing_of(
    coll: Seq<ProductView>,
    srcs: Seq<SourceView>,
    f: ProductFilterView,
    o: QueryOptions,
    out: Seq<ProductView>,
) -> bool {
    exists|raw: Seq<ProductView>|
        #[trigger] is_find_result(coll, f, o, raw) && hydrated_from(out, raw, srcs)
}

/// List, hydrate and return products under the given filter and
/// options: the storage fetch of every product listing, followed by
/// source hydration.
fn load_products(store: &Store, f: &ProductFilter, o: &QueryOptions) -> (r: Result<
    Vec<Product>,
    Error,
>)
    ensures
        match r {
            Ok(out) => listing_of(
                product_views(store.products@),
                source_views(store.sources@),
                f@,
                *o,
                product_views(out@),
            ),
            Err(e) => exists|raw: Seq<ProductView>|
                #[trigger] is_find_result(product_views(store.products@), f@, *o, raw)
                    && hydration_failure(e@, raw, source_views(store.sources@)),
        },
{
    let raw = find_products(&store.products, f, o);
    let ghost raw_views = product_views(raw@);
    match hydrate_products(raw, &store.sources) {
        Ok(out) => {
            proof {
                assert(is_find_result(product_views(store.products@), f@, *o, raw_views)
                    && hydrated_from(
                    product_views(out@),
                    raw_views,
                    source_views(store.sources@),
                ));
            }
            Ok(out)
        },
        Err(e) => Err(e),
    }
}

/// Every category, in collection order.
pub fn get_categories(store: &Store) -> (r: Vec<Category>)
    ensures
        category_views(r@) == category_views(store.categories@),
{
    let mut out: Vec<Category> = Vec::new();
    let mut i: usize = 0;
    while i < store.categories.len()
        invariant
            i <= store.categories.len(),
            category_views(out@) =~= category_views(store.categories@).take(i as int),
        decreases store.categories.len() - i,
    {
        let ghost before = category_views(out@);
        out.push(store.categories[i].clone());
        proof {
            assert(category_views(out@) =~= before.push(category_views(store.categories@)[
                i as int
            ]));
        }
        i = i + 1;
    }
    proof {
        assert(category_views(store.categories@).take(store.categories@.len() as int)
            =~= category_views(store.categories@));
    }
    out
}

/// Resolve a category name. The pseudo-name `"null"` yields the
/// default category without touching the category collection; any
/// other name is an exact-match lookup, `EmptyResult` when nothing
/// matches — never an empty default.
pub fn get_category_by_name(store: &Store, name: &String) -> (r: Result<Category, Error>)
    ensures
        name@ == "null"@ ==> (r matches Ok(c) && c@.id is None && c@.name
            == Seq::<char>::empty()),
        name@ != "null"@ ==> match r {
            Ok(c) => first_category_named(category_views(store.categories@), name@, c@),
            Err(e) => e@ == ErrorView::EmptyResult && no_category_named(
                category_views(store.categories@),
                name@,
            ),
        },
{
    match category_lookup_plan(name) {
        CategoryLookup::UseDefault => Ok(Category::default()),
        CategoryLookup::ByName(n) => {
            let found = find_category_by_name(&store.categories, &n);
            required(found)
        },
    }
}

/// Products of the named category, sources hydrated. Resolving the
/// category may fail with `EmptyResult`; a category without an
/// identifier — the default one included — fails with
/// `FieldNotLoaded`.
pub fn get_products_by_category_name(store: &Store, name: &String) -> (r: Result<
    Vec<Product>,
    Error,
>)
    ensures
        match r {
            Ok(out) => name@ != "null"@ && exists|c: CategoryView|
                #[trigger] first_category_named(category_views(store.categories@), name@, c) && (
                c.id matches Some(cid) && listing_of(
                    product_views(store.products@),
                    source_views(store.sources@),
                    ProductFilterView::CategoryEq(cid),
                    spec_unconstrained_options(),
                    product_views(out@),
                )),
            Err(e) => {
                ||| (name@ == "null"@ && e@ == ErrorView::FieldNotLoaded(
                    MissingField::CategoryId,
                ))
                ||| (name@ != "null"@ && e@ == ErrorView::EmptyResult && no_category_named(
                    category_views(store.categories@),
                    name@,
                ))
                ||| (name@ != "null"@ && exists|c: CategoryView|
                    #[trigger] first_category_named(category_views(store.categories@), name@, c)
                        && c.id is None && e@ == ErrorView::FieldNotLoaded(
                        MissingField::CategoryId,
                    ))
                ||| (name@ != "null"@ && exists|c: CategoryView, raw: Seq<ProductView>|
                    #![trigger first_category_named(category_views(store.categories@), name@, c), hydration_failure(e@, raw, source_views(store.sources@))]
                    first_category_named(category_views(store.categories@), name@, c)
                        && (c.id matches Some(cid) && is_find_result(
                        product_views(store.products@),
                        ProductFilterView::CategoryEq(cid),
                        spec_unconstrained_options(),
                        raw,
                    ) && hydration_failure(e@, raw, source_views(store.sources@))))
            },
        },
{
    let category = match get_category_by_name(store, name) {
        Ok(c) => c,
        Err(e) => {
            return Err(e);
        },
    };
    let cid = match category.require_id() {
        Ok(cid) => cid,
        Err(e) => {
            return Err(e);
        },
    };
    let f = products_by_category_filter(cid);
    let o = QueryOptions { sort: None, projection: None, skip: None, limit: None };
    load_products(store, &f, &o)
}

/// The newest products: every product, newest first by identifier,
/// capped at [`crate::query::NEWEST_PRODUCTS_LIMIT`], sources hydrated.
pub fn get_newest_products(store: &Store) -> (r: Result<Vec<Product>, Error>)
    ensures
        match r {
            Ok(out) => listing_of(
                product_views(store.products@),
                source_views(store.sources@),
                ProductFilterView::Any,
                spec_newest_options(),
                product_views(out@),
            ),
            Err(e) => exists|raw: Seq<ProductView>|
                #[trigger] is_find_result(
                    product_views(store.products@),
                    ProductFilterView::Any,
                    spec_newest_options(),
                    raw,
                ) && hydration_failure(e@, raw, source_views(store.sources@)),
        },
{
    let f = ProductFilter::Any;
    let o = newest_products_options();
    load_products(store, &f, &o)
}

/// The most recent wishlist, not hydrated: its raw identifier is
/// projected away; `EmptyResult` when no wishlist exists.
pub fn get_last_wishlist(store: &Store) -> (r: Result<Wishlist, Error>)
    ensures
        match r {
            Ok(w) => last_wishlist_of(wishlist_views(store.wishlists@), w@),
            Err(e) => e@ == ErrorView::EmptyResult && store.wishlists@.len() == 0,
        },
{
    let found = last_wishlist(&store.wishlists);
    required(found)
}

/// The most recent wishlist with its products fully hydrated: the
/// products whose ids the wishlist references, newest first by
/// timestamp, sources attached, stored on the wishlist. A wishlist
/// whose `product_ids` were not loaded fails with `FieldNotLoaded` —
/// never with `EmptyResult`, never silently.
pub fn get_last_wishlist_hydrated(store: &Store) -> (r: Result<Wishlist, Error>)
    ensures
        match r {
            Ok(w) => exists|base: WishlistView|
                #[trigger] last_wishlist_of(wishlist_views(store.wishlists@), base)
                    && (base.product_ids matches Some(ids) && w@.products matches Some(ps)
                    && listing_of(
                    product_views(store.products@),
                    source_views(store.sources@),
                    ProductFilterView::IdIn(ids),
                    spec_products_by_id_options(),
                    ps,
                ) && w@ == (WishlistView { products: Some(ps), ..base })),
            Err(e) => {
                ||| (e@ == ErrorView::EmptyResult && store.wishlists@.len() == 0)
                ||| (exists|base: WishlistView|
                    #[trigger] last_wishlist_of(wishlist_views(store.wishlists@), base)
                        && base.product_ids is None && e@ == ErrorView::FieldNotLoaded(
                        MissingField::WishlistProductIds,
                    ))
                ||| (exists|base: WishlistView, raw: Seq<ProductView>|
                    #![trigger last_wishlist_of(wishlist_views(store.wishlists@), base), hydration_failure(e@, raw, source_views(store.sources@))]
                    last_wishlist_of(wishlist_views(store.wishlists@), base)
                        && (base.product_ids matches Some(ids) && is_find_result(
                        product_views(store.products@),
                        ProductFilterView::IdIn(ids),
                        spec_products_by_id_options(),
                        raw,
                    ) && hydration_failure(e@, raw, source_views(store.sources@))))
            },
        },
{
    let mut w = match get_last_wishlist(store) {
        Ok(w) => w,
        Err(e) => {
            return Err(e);
        },
    };
    let ids = match w.require_product_ids() {
        Ok(ids) => ids,
        Err(e) => {
            return Err(e);
        },
    };
    let f = products_by_id_filter(&ids);
    let o = products_by_id_options();
    let products = match load_products(store, &f, &o) {
        Ok(ps) => ps,
        Err(e) => {
            return Err(e);
        },
    };
    let ghost base = w@;
    let ghost ps = product_views(products@);
    w.set_products(products);
    proof {
        assert(w@ == (WishlistView { products: Some(ps), ..base }));
    }
    Ok(w)
}

/// A page of the archived products: the products whose id is not in
/// the current wishlist's product-id set, newest first by identifier,
/// windowed by the caller's pagination, sources hydrated.
pub fn get_archived_products(store: &Store, pagination: &Pagination) -> (r: Result<
    Vec<Product>,
    Error,
>)
    ensures
        match r {
            Ok(out) => exists|last: WishlistView|
                #[trigger] last_wishlist_of(wishlist_views(store.wishlists@), last)
                    && (last.product_ids matches Some(ids) && listing_of(
                    product_views(store.products@),
                    source_views(store.sources@),
                    ProductFilterView::IdNotIn(ids),
                    spec_archived_options(*pagination),
                    product_views(out@),
                )),
            Err(e) => {
                ||| (e@ == ErrorView::EmptyResult && store.wishlists@.len() == 0)
                ||| (exists|last: WishlistView|
                    #[trigger] last_wishlist_of(wishlist_views(store.wishlists@), last)
                        && last.product_ids is None && e@ == ErrorView::FieldNotLoaded(
                        MissingField::WishlistProductIds,
                    ))
                ||| (exists|last: WishlistView, raw: Seq<ProductView>|
                    #![trigger last_wishlist_of(wishlist_views(store.wishlists@), last), hydration_failure(e@, raw, source_views(store.sources@))]
                    last_wishlist_of(wishlist_views(store.wishlists@), last)
                        && (last.product_ids matches Some(ids) && is_find_result(
                        product_views(store.products@),
                        ProductFilterView::IdNotIn(ids),
                        spec_archived_options(*pagination),
                        raw,
                    ) && hydration_failure(e@, raw, source_views(store.sources@))))
            },
        },
{
    let w = match get_last_wishlist(store) {
        Ok(w) => w,
        Err(e) => {
            return Err(e);
        },
    };
    let ids = match w.require_product_ids() {
        Ok(ids) => ids,
        Err(e) => {
            return Err(e);
        },
    };
    let f = archived_products_filter(&ids);
    let o = archived_products_options(pagination);
    load_products(store, &f, &o)
}

/// How many products are archived: the same not-in-the-current-wishlist
/// predicate as [`get_archived_products`], counted instead of fetched.
pub fn get_archived_product_count(store: &Store) -> (r: Result<u64, Error>)
    ensures
        match r {
            Ok(n) => exists|last: WishlistView|
                #[trigger] last_wishlist_of(wishlist_views(store.wishlists@), last)
                    && (last.product_ids matches Some(ids) && n == selected(
                    product_views(store.products@),
                    ProductFilterView::IdNotIn(ids),
                ).len()),
            Err(e) => {
                ||| (e@ == ErrorView::EmptyResult && store.wishlists@.len() == 0)
                ||| (exists|last: WishlistView|
                    #[trigger] last_wishlist_of(wishlist_views(store.wishlists@), last)
                        && last.product_ids is None && e@ == ErrorView::FieldNotLoaded(
                        MissingField::WishlistProductIds,
                    ))
            },
        },
{
    let w = match get_last_wishlist(store) {
        Ok(w) => w,
        Err(e) => {
            return Err(e);
        },
    };
    let ids = match w.require_product_ids() {
        Ok(ids) => ids,
        Err(e) => {
            return Err(e);
        },
    };
    let f = archived_products_filter(&ids);
    let n = count_products(&store.products, &f);
    Ok(n)
}

} // verus!
