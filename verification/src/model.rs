//! Entities stored in the four collections, their mathematical views, and
//! the error type shared by every operation of the library.
//!
//! Entities are read-only views over stored documents. Fields that a
//! projection may strip, or that are only populated by hydration, are
//! `Option`s: `None` means "not loaded", never "loaded and empty".

use vstd::prelude::*;

verus! {

/// A field that an operation required but the loaded document did not carry.
#[derive(Clone, Copy, PartialEq, Eq, Structural, Debug)]
pub enum MissingField {
    /// The `product_ids` field of a wishlist.
    WishlistProductIds,
    /// The `source_id` field of a product.
    ProductSourceId,
    /// The `id` field of a category.
    CategoryId,
}

/// Why an operation failed.
pub enum Error {
    /// A required single-document lookup matched nothing.
    EmptyResult,
    /// An operation required a field that the loaded document did not
    /// carry: a sequencing error in the pipeline, not a data problem.
    FieldNotLoaded(MissingField),
    /// A storage/transport failure reported by the caller that performed
    /// the read; wrapped and propagated, never retried here.
    Storage(String),
}

/// The abstract value of an [`Error`].
#[verifier::ext_equal]
pub enum ErrorView {
    EmptyResult,
    FieldNotLoaded(MissingField),
    Storage(Seq<char>),
}

impl View for Error {
    type V = ErrorView;

    open spec fn view(&self) -> ErrorView {
        match self {
            Error::EmptyResult => ErrorView::EmptyResult,
            Error::FieldNotLoaded(f) => ErrorView::FieldNotLoaded(*f),
            Error::Storage(msg) => ErrorView::Storage(msg@),
        }
    }
}

impl MissingField {
    /// Name of the entity the missing field belongs to.
    pub fn entity(&self) -> (r: &'static str)
        ensures
            *self == MissingField::WishlistProductIds ==> r@ == "wishlist"@,
            *self == MissingField::ProductSourceId ==> r@ == "product"@,
            *self == MissingField::CategoryId ==> r@ == "category"@,
    {
        match self {
            MissingField::WishlistProductIds => "wishlist",
            MissingField::ProductSourceId => "product",
            MissingField::CategoryId => "category",
        }
    }

    /// Name of the missing field itself.
    pub fn field(&self) -> (r: &'static str)
        ensures
            *self == MissingField::WishlistProductIds ==> r@ == "product_ids"@,
            *self == MissingField::ProductSourceId ==> r@ == "source_id"@,
            *self == MissingField::CategoryId ==> r@ == "id"@,
    {
        match self {
            MissingField::WishlistProductIds => "product_ids",
            MissingField::ProductSourceId => "source_id",
            MissingField::CategoryId => "id",
        }
    }
}

/// The vendor/site a product originates from. Immutable once fetched;
/// the same source may be attached to many products.
pub struct Source {
    /// Unique identifier of the source document.
    pub id: u64,
    /// Attributes describing the originating vendor/site.
    pub name: String,
}

/// The abstract value of a [`Source`].
#[verifier::ext_equal]
pub struct SourceView {
    pub id: u64,
    pub name: Seq<char>,
}

impl View for Source {
    type V = SourceView;

    open spec fn view(&self) -> SourceView {
        SourceView { id: self.id, name: self.name@ }
    }
}

impl Clone for Source {
    fn clone(&self) -> (r: Self)
        ensures
            r@ == self@,
    {
        Source { id: self.id, name: self.name.clone() }
    }
}

/// A product. `id` and `item_id` are `None` when a projection stripped
/// them; `source` is `None` until hydration attaches the resolved source.
pub struct Product {
    /// Unique identifier of the product document, if not projected away.
    pub id: Option<u64>,
    /// Identifier of the listed item, if not projected away.
    pub item_id: Option<u64>,
    /// Display name.
    pub title: String,
    /// When the product was recorded.
    pub timestamp: u64,
    /// Identifier of the category the product belongs to, if any.
    pub category_id: Option<u64>,
    /// Identifier of the product's source; set whenever the record comes
    /// from storage.
    pub source_id: Option<u64>,
    /// The resolved source, once hydrated.
    pub source: Option<Source>,
}

/// The abstract value of a [`Product`].
#[verifier::ext_equal]
pub struct ProductView {
    pub id: Option<u64>,
    pub item_id: Option<u64>,
    pub title: Seq<char>,
    pub timestamp: u64,
    pub category_id: Option<u64>,
    pub source_id: Option<u64>,
    pub source: Option<SourceView>,
}

impl View for Product {
    type V = ProductView;

    open spec fn view(&self) -> ProductView {
        ProductView {
            id: self.id,
            item_id: self.item_id,
            title: self.title@,
            timestamp: self.timestamp,
            category_id: self.category_id,
            source_id: self.source_id,
            source: match self.source {
                Some(s) => Some(s@),
                None => None,
            },
        }
    }
}

/// The views of the products of a sequence, in order.
pub open spec fn product_views(s: Seq<Product>) -> Seq<ProductView> {
    s.map_values(|p: Product| p@)
}

/// The views of the sources of a sequence, in order.
pub open spec fn source_views(s: Seq<Source>) -> Seq<SourceView> {
    s.map_values(|x: Source| x@)
}

/// The views of the wishlists of a sequence, in order.
pub open spec fn wishlist_views(s: Seq<Wishlist>) -> Seq<WishlistView> {
    s.map_values(|x: Wishlist| x@)
}

/// The views of the categories of a sequence, in order.
pub open spec fn category_views(s: Seq<Category>) -> Seq<CategoryView> {
    s.map_values(|x: Category| x@)
}

impl Clone for Product {
    fn clone(&self) -> (r: Self)
        ensures
            r@ == self@,
    {
        Product {
            id: self.id,
            item_id: self.item_id,
            title: self.title.clone(),
            timestamp: self.timestamp,
            category_id: self.category_id,
            source_id: self.source_id,
            source: match &self.source {
                Some(s) => Some(s.clone()),
                None => None,
            },
        }
    }
}

impl Product {
    /// Attach a resolved source, leaving every other field unchanged.
    pub fn set_source(&mut self, source: Source)
        ensures
            final(self)@ == (ProductView { source: Some(source@), ..old(self)@ }),
    {
        self.source = Some(source);
    }
}

/// A wishlist: an ordered set of product references, the most recent of
/// which is the "current" wishlist. `product_ids` is `None` when the
/// field was not loaded; `products` is `None` until hydration.
pub struct Wishlist {
    /// Unique identifier of the wishlist document, if not projected away.
    pub id: Option<u64>,
    /// When the wishlist was recorded; "latest" means maximal timestamp.
    pub timestamp: u64,
    /// Identifiers of the products on the wishlist, in stored order.
    pub product_ids: Option<Vec<u64>>,
    /// The hydrated products, once attached.
    pub products: Option<Vec<Product>>,
}

/// The abstract value of a [`Wishlist`].
#[verifier::ext_equal]
pub struct WishlistView {
    pub id: Option<u64>,
    pub timestamp: u64,
    pub product_ids: Option<Seq<u64>>,
    pub products: Option<Seq<ProductView>>,
}

impl View for Wishlist {
    type V = WishlistView;

    open spec fn view(&self) -> WishlistView {
        WishlistView {
            id: self.id,
            timestamp: self.timestamp,
            product_ids: match self.product_ids {
                Some(ids) => Some(ids@),
                None => None,
            },
            products: match self.products {
                Some(ps) => Some(product_views(ps@)),
                None => None,
            },
        }
    }
}

impl Clone for Wishlist {
    fn clone(&self) -> (r: Self)
        ensures
            r@ == self@,
    {
        let product_ids = match &self.product_ids {
            Some(ids) => {
                let c = ids.clone();
                proof {
                    assert(c@ =~= ids@);
                }
                Some(c)
            },
            None => None,
        };
        let products = match &self.products {
            Some(ps) => {
                let c = ps.clone();
                proof {
                    assert(product_views(c@) =~= product_views(ps@));
                }
                Some(c)
            },
            None => None,
        };
        Wishlist { id: self.id, timestamp: self.timestamp, product_ids, products }
    }
}

impl Wishlist {
    /// Attach the hydrated product sequence, leaving every other field
    /// unchanged.
    pub fn set_products(&mut self, products: Vec<Product>)
        ensures
            final(self)@ == (WishlistView {
                products: Some(product_views(products@)),
                ..old(self)@
            }),
    {
        self.products = Some(products);
    }

    /// The wishlist's product identifiers, required before any operation
    /// that consumes them. Fails with `FieldNotLoaded` — never with
    /// `EmptyResult` and never silently — when the field was not loaded.
    pub fn require_product_ids(&self) -> (r: Result<Vec<u64>, Error>)
        ensures
            match self@.product_ids {
                Some(ids) => r matches Ok(v) && v@ == ids,
                None => r matches Err(e)
                    && e@ == ErrorView::FieldNotLoaded(MissingField::WishlistProductIds),
            },
    {
        match &self.product_ids {
            Some(ids) => {
                let v = ids.clone();
                proof {
                    assert(v@ =~= ids@);
                }
                Ok(v)
            },
            None => Err(Error::FieldNotLoaded(MissingField::WishlistProductIds)),
        }
    }
}

/// A product category. The identifier is `None` only for the default
/// ("no category") value, which does not come from storage.
pub struct Category {
    /// Unique identifier of the category document, absent on the default
    /// category.
    pub id: Option<u64>,
    /// Display name of the category.
    pub name: String,
}

/// The abstract value of a [`Category`].
#[verifier::ext_equal]
pub struct CategoryView {
    pub id: Option<u64>,
    pub name: Seq<char>,
}

impl View for Category {
    type V = CategoryView;

    open spec fn view(&self) -> CategoryView {
        CategoryView { id: self.id, name: self.name@ }
    }
}

impl Clone for Category {
    fn clone(&self) -> (r: Self)
        ensures
            r@ == self@,
    {
        Category { id: self.id, name: self.name.clone() }
    }
}

impl Default for Category {
    /// The default/empty category standing for "no category".
    fn default() -> (r: Self)
        ensures
            r.id is None,
            r.name@ == Seq::<char>::empty(),
    {
        Category { id: None, name: String::new() }
    }
}

impl Category {
    /// The category's identifier, required before querying products by
    /// category. Fails with `FieldNotLoaded` when absent.
    pub fn require_id(&self) -> (r: Result<u64, Error>)
        ensures
            match self.id {
                Some(i) => r == Ok::<u64, Error>(i),
                None => r matches Err(e)
                    && e@ == ErrorView::FieldNotLoaded(MissingField::CategoryId),
            },
    {
        match self.id {
            Some(i) => Ok(i),
            None => Err(Error::FieldNotLoaded(MissingField::CategoryId)),
        }
    }
}

/// A pagination window: skip `offset` documents, return at most
/// `per_page`.
#[derive(Clone, Copy, PartialEq, Eq, Structural, Debug)]
pub struct Pagination {
    /// How many matching documents to skip.
    pub offset: u64,
    /// Page size; callers pass a positive value.
    pub per_page: u64,
}

} // verus!
