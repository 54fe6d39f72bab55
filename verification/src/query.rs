//! Query predicates and options: the filters, sort orders, projections
//! and pagination windows that the operations push down to storage, and
//! the builders that construct them.
//!
//! A filter is data, not a closure: the storage layer translates it into
//! its native predicate language, and [`product_matches`] fixes what it
//! must mean. The archived-products predicate — "id not in the current
//! wishlist's product-id set" — is built by one shared function so the
//! paginated listing and the count cannot drift apart.

use vstd::prelude::*;

use crate::model::Pagination;
use crate::model::Product;
use crate::model::ProductView;

verus! {

/// Upper bound on the number of products `get_newest_products` returns.
pub const NEWEST_PRODUCTS_LIMIT: u64 = 10;

/// The document field a listing is sorted by.
#[derive(Clone, Copy, PartialEq, Eq, Structural, Debug)]
pub enum SortKey {
    /// The unique document identifier (a proxy for recency).
    Id,
    /// The record timestamp.
    Timestamp,
}

/// A sort order: a field and a direction.
#[derive(Clone, Copy, PartialEq, Eq, Structural, Debug)]
pub struct Sort {
    pub key: SortKey,
    /// `false` sorts newest/greatest first, as every listing here does.
    pub ascending: bool,
}

/// Which optional fields a query keeps in the returned documents.
#[derive(Clone, Copy, PartialEq, Eq, Structural, Debug)]
pub struct Projection {
    /// Keep the document identifier.
    pub with_id: bool,
    /// Keep the item identifier.
    pub with_item_id: bool,
}

/// Options of a find: sort order, projection, offset and page size, all
/// optional and composable.
#[derive(Clone, Copy, PartialEq, Eq, Structural, Debug)]
pub struct QueryOptions {
    pub sort: Option<Sort>,
    pub projection: Option<Projection>,
    /// How many matching documents to skip.
    pub skip: Option<u64>,
    /// Greatest number of documents to return.
    pub limit: Option<u64>,
}

/// A predicate over products, pushed down to storage.
pub enum ProductFilter {
    /// Match every product.
    Any,
    /// Match products whose id is in the given set.
    IdIn(Vec<u64>),
    /// Match products whose id is not in the given set.
    IdNotIn(Vec<u64>),
    /// Match products belonging to the given category.
    CategoryEq(u64),
}

/// The abstract value of a [`ProductFilter`].
#[verifier::ext_equal]
pub enum ProductFilterView {
    Any,
    IdIn(Seq<u64>),
    IdNotIn(Seq<u64>),
    CategoryEq(u64),
}

impl View for ProductFilter {
    type V = ProductFilterView;

    open spec fn view(&self) -> ProductFilterView {
        match self {
            ProductFilter::Any => ProductFilterView::Any,
            ProductFilter::IdIn(ids) => ProductFilterView::IdIn(ids@),
            ProductFilter::IdNotIn(ids) => ProductFilterView::IdNotIn(ids@),
            ProductFilter::CategoryEq(c) => ProductFilterView::CategoryEq(*c),
        }
    }
}

/// What a [`ProductFilter`] means: whether a stored product matches it.
pub open spec fn product_matches(p: ProductView, f: ProductFilterView) -> bool {
    match f {
        ProductFilterView::Any => true,
        ProductFilterView::IdIn(ids) => p.id matches Some(i) && ids.contains(i),
        ProductFilterView::IdNotIn(ids) => !(p.id matches Some(i) && ids.contains(i)),
        ProductFilterView::CategoryEq(c) => p.category_id == Some(c),
    }
}

/// Whether `x` occurs in `ids`.
pub fn contains_id(ids: &Vec<u64>, x: u64) -> (r: bool)
    ensures
        r == ids@.contains(x),
{
    let mut i: usize = 0;
    while i < ids.len()
        invariant
            i <= ids.len(),
            forall|j: int| 0 <= j < i ==> ids@[j] != x,
        decreases ids.len() - i,
    {
        if ids[i] == x {
            return true;
        }
        i = i + 1;
    }
    false
}

/// Decide [`product_matches`] for a concrete product and filter.
pub fn eval_product_filter(p: &Product, f: &ProductFilter) -> (r: bool)
    ensures
        r == product_matches(p@, f@),
{
    match f {
        ProductFilter::Any => true,
        ProductFilter::IdIn(ids) => match p.id {
            Some(i) => contains_id(ids, i),
            None => false,
        },
        ProductFilter::IdNotIn(ids) => match p.id {
            Some(i) => !contains_id(ids, i),
            None => true,
        },
        ProductFilter::CategoryEq(c) => match p.category_id {
            Some(k) => k == *c,
            None => false,
        },
    }
}

/// The options value of the archived-products listing.
pub open spec fn spec_archived_options(pagination: Pagination) -> QueryOptions {
    QueryOptions {
        sort: Some(Sort { key: SortKey::Id, ascending: false }),
        projection: Some(Projection { with_id: false, with_item_id: false }),
        skip: Some(pagination.offset),
        limit: Some(pagination.per_page),
    }
}

/// The options value of the newest-products listing.
pub open spec fn spec_newest_options() -> QueryOptions {
    QueryOptions {
        sort: Some(Sort { key: SortKey::Id, ascending: false }),
        projection: Some(Projection { with_id: false, with_item_id: false }),
        skip: None,
        limit: Some(NEWEST_PRODUCTS_LIMIT),
    }
}

/// The options value of the wishlist hydration fetch.
pub open spec fn spec_products_by_id_options() -> QueryOptions {
    QueryOptions {
        sort: Some(Sort { key: SortKey::Timestamp, ascending: false }),
        projection: Some(Projection { with_id: false, with_item_id: false }),
        skip: None,
        limit: None,
    }
}

/// The options value of the products-by-category listing: no sort, no
/// projection, no window.
pub open spec fn spec_unconstrained_options() -> QueryOptions {
    QueryOptions { sort: None, projection: None, skip: None, limit: None }
}

/// Filter of the archived-products operations: products whose id is
/// *not* in the current wishlist's product-id set. The paginated listing
/// and the count both build their predicate here, so the two stay
/// consistent.
pub fn archived_products_filter(wishlist_product_ids: &Vec<u64>) -> (r: ProductFilter)
    ensures
        r@ == ProductFilterView::IdNotIn(wishlist_product_ids@),
{
    let ids = wishlist_product_ids.clone();
    proof {
        assert(ids@ =~= wishlist_product_ids@);
    }
    ProductFilter::IdNotIn(ids)
}

/// Options of the archived-products listing: newest first by id, ids
/// projected away, the caller's pagination window applied.
pub fn archived_products_options(pagination: &Pagination) -> (r: QueryOptions)
    ensures
        r == (QueryOptions {
            sort: Some(Sort { key: SortKey::Id, ascending: false }),
            projection: Some(Projection { with_id: false, with_item_id: false }),
            skip: Some(pagination.offset),
            limit: Some(pagination.per_page),
        }),
{
    QueryOptions {
        sort: Some(Sort { key: SortKey::Id, ascending: false }),
        projection: Some(Projection { with_id: false, with_item_id: false }),
        skip: Some(pagination.offset),
        limit: Some(pagination.per_page),
    }
}

/// Options of the newest-products listing: every product, newest first
/// by id, capped at [`NEWEST_PRODUCTS_LIMIT`].
pub fn newest_products_options() -> (r: QueryOptions)
    ensures
        r == (QueryOptions {
            sort: Some(Sort { key: SortKey::Id, ascending: false }),
            projection: Some(Projection { with_id: false, with_item_id: false }),
            skip: None,
            limit: Some(NEWEST_PRODUCTS_LIMIT),
        }),
{
    QueryOptions {
        sort: Some(Sort { key: SortKey::Id, ascending: false }),
        projection: Some(Projection { with_id: false, with_item_id: false }),
        skip: None,
        limit: Some(NEWEST_PRODUCTS_LIMIT),
    }
}

/// Filter of the wishlist hydration fetch: the products whose id is in
/// the wishlist's product-id set.
pub fn products_by_id_filter(product_ids: &Vec<u64>) -> (r: ProductFilter)
    ensures
        r@ == ProductFilterView::IdIn(product_ids@),
{
    let ids = product_ids.clone();
    proof {
        assert(ids@ =~= product_ids@);
    }
    ProductFilter::IdIn(ids)
}

/// Options of the wishlist hydration fetch: newest first by timestamp,
/// ids projected away, no window.
pub fn products_by_id_options() -> (r: QueryOptions)
    ensures
        r == (QueryOptions {
            sort: Some(Sort { key: SortKey::Timestamp, ascending: false }),
            projection: Some(Projection { with_id: false, with_item_id: false }),
            skip: None,
            limit: None,
        }),
{
    QueryOptions {
        sort: Some(Sort { key: SortKey::Timestamp, ascending: false }),
        projection: Some(Projection { with_id: false, with_item_id: false }),
        skip: None,
        limit: None,
    }
}

/// Filter of the products-by-category listing.
pub fn products_by_category_filter(category_id: u64) -> (r: ProductFilter)
    ensures
        r@ == ProductFilterView::CategoryEq(category_id),
{
    ProductFilter::CategoryEq(category_id)
}

/// Options of the latest-wishlist lookup: most recent timestamp first,
/// the raw identifier projected away.
pub fn last_wishlist_options() -> (r: QueryOptions)
    ensures
        r == (QueryOptions {
            sort: Some(Sort { key: SortKey::Timestamp, ascending: false }),
            projection: Some(Projection { with_id: false, with_item_id: true }),
            skip: None,
            limit: None,
        }),
{
    QueryOptions {
        sort: Some(Sort { key: SortKey::Timestamp, ascending: false }),
        projection: Some(Projection { with_id: false, with_item_id: true }),
        skip: None,
        limit: None,
    }
}

/// How a category name is resolved: the pseudo-name `"null"` denotes the
/// default/empty category and is answered without a storage call; any
/// other name is looked up by exact match.
pub enum CategoryLookup {
    /// Answer with the default category; no storage call.
    UseDefault,
    /// Look the category up in storage by exact name match.
    ByName(String),
}

/// Decide how a category name is resolved. Exactly the name `"null"`
/// avoids the storage round-trip.
pub fn category_lookup_plan(name: &String) -> (r: CategoryLookup)
    ensures
        name@ == "null"@ ==> r is UseDefault,
        name@ != "null"@ ==> (r matches CategoryLookup::ByName(n) && n@ == name@),
{
    let null_name: String = "null".to_owned();
    if name.eq(&null_name) {
        CategoryLookup::UseDefault
    } else {
        CategoryLookup::ByName(name.clone())
    }
}

} // verus!
