//! Read-oriented data-access core for a wishlist service.
//!
//! The library models four entity collections — wishlists, products,
//! sources and categories — and verifies the join/denormalization logic
//! that turns foreign-key references into fully populated aggregates:
//! query predicates and pagination windows, the per-request source
//! resolution cache, and product hydration. Storage transport (the
//! document database client) lives outside the library: a caller hands
//! in decoded records as plain values, or evaluates whole operations
//! against an in-memory [`Store`].

pub mod aggregate;
pub mod hydrate;
pub mod laws;
pub mod model;
pub mod query;
pub mod repo;

pub use model::Category;
pub use model::Error;
pub use model::MissingField;
pub use model::Pagination;
pub use model::Product;
pub use model::Source;
pub use model::Wishlist;

pub use aggregate::Store;
pub use hydrate::SourceCache;
