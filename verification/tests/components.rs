use wishlist_core::hydrate::hydrate_products;
use wishlist_core::query::archived_products_filter;
use wishlist_core::query::category_lookup_plan;
use wishlist_core::query::eval_product_filter;
use wishlist_core::query::newest_products_options;
use wishlist_core::query::CategoryLookup;
use wishlist_core::query::ProductFilter;
use wishlist_core::query::QueryOptions;
use wishlist_core::repo::collect_decoded;
use wishlist_core::repo::count_products;
use wishlist_core::repo::find_category_by_name;
use wishlist_core::repo::find_products;
use wishlist_core::repo::find_source_by_id;
use wishlist_core::repo::last_wishlist;
use wishlist_core::repo::required;
use wishlist_core::Category;
use wishlist_core::Error;
use wishlist_core::MissingField;
use wishlist_core::Product;
use wishlist_core::Source;
use wishlist_core::SourceCache;
use wishlist_core::Wishlist;

fn product(id: u64, ts: u64, title: &str, source_id: Option<u64>) -> Product {
    Product {
        id: Some(id),
        item_id: Some(id + 100),
        title: String::from(title),
        timestamp: ts,
        category_id: None,
        source_id,
        source: None,
    }
}

fn source(id: u64, name: &str) -> Source {
    Source { id, name: String::from(name) }
}

#[test]
fn source_cache_answers_repeats_from_memory() {
    let mut cache = SourceCache::new();
    assert!(cache.get(7).is_none());
    cache.insert(7, source(7, "acme"));
    let hit = cache.get(7).unwrap_or_else(|| panic!("expected a cache hit"));
    assert_eq!(hit.id, 7);
    assert_eq!(hit.name, "acme");
    assert!(cache.get(8).is_none());
}

#[test]
fn hydration_shares_one_source_across_products() {
    let products = vec![
        product(1, 1, "a", Some(7)),
        product(2, 2, "b", Some(7)),
        product(3, 3, "c", Some(9)),
    ];
    let sources = vec![source(7, "acme"), source(9, "zenith")];
    let out = hydrate_products(products, &sources).unwrap_or_else(|_| panic!("expected success"));
    let s0 = out[0].source.as_ref().unwrap_or_else(|| panic!("hydrated"));
    let s1 = out[1].source.as_ref().unwrap_or_else(|| panic!("hydrated"));
    let s2 = out[2].source.as_ref().unwrap_or_else(|| panic!("hydrated"));
    assert_eq!(s0.id, s1.id);
    assert_eq!(s0.name, s1.name);
    assert_eq!(s0.name, "acme");
    assert_eq!(s2.name, "zenith");
}

#[test]
fn hydration_without_source_id_fails_field_not_loaded() {
    let products = vec![product(1, 1, "a", None)];
    let sources = vec![source(7, "acme")];
    match hydrate_products(products, &sources) {
        Err(Error::FieldNotLoaded(f)) => {
            assert_eq!(f, MissingField::ProductSourceId);
            assert_eq!(f.entity(), "product");
            assert_eq!(f.field(), "source_id");
        }
        _ => panic!("a product without source_id must abort the batch"),
    }
}

#[test]
fn hydration_with_unknown_source_is_empty_result() {
    let products = vec![product(1, 1, "a", Some(9))];
    let sources = vec![source(7, "acme")];
    assert!(matches!(hydrate_products(products, &sources), Err(Error::EmptyResult)));
}

#[test]
fn collect_decoded_skips_undecodable_records() {
    let records: Vec<Option<u64>> = vec![Some(1), None, Some(3), None];
    assert_eq!(collect_decoded(records), vec![1, 3]);
    let empty: Vec<Option<u64>> = vec![];
    assert!(collect_decoded(empty).is_empty());
}

#[test]
fn required_turns_absence_into_empty_result() {
    assert!(matches!(required(Some(5u64)), Ok(5)));
    assert!(matches!(required::<u64>(None), Err(Error::EmptyResult)));
}

#[test]
fn find_products_applies_filter_sort_window_and_projection() {
    let coll = vec![
        product(1, 1, "one", Some(7)),
        product(2, 2, "two", Some(7)),
        product(3, 3, "three", Some(7)),
        product(4, 4, "four", Some(7)),
    ];
    let o = QueryOptions {
        sort: newest_products_options().sort,
        projection: newest_products_options().projection,
        skip: Some(1),
        limit: Some(2),
    };
    let out = find_products(&coll, &ProductFilter::Any, &o);
    let names: Vec<&str> = out.iter().map(|p| p.title.as_str()).collect();
    assert_eq!(names, vec!["three", "two"]);
    assert!(out.iter().all(|p| p.id.is_none() && p.item_id.is_none()));
}

#[test]
fn count_products_counts_the_archived_predicate() {
    let coll = vec![
        product(1, 1, "one", Some(7)),
        product(2, 2, "two", Some(7)),
        product(3, 3, "three", Some(7)),
    ];
    let wishlist_ids = vec![1, 3];
    let f = archived_products_filter(&wishlist_ids);
    assert_eq!(count_products(&coll, &f), 1);
    assert_eq!(count_products(&coll, &ProductFilter::Any), 3);
}

#[test]
fn archived_filter_excludes_exactly_the_wishlist_ids() {
    let wishlist_ids = vec![1, 3];
    let f = archived_products_filter(&wishlist_ids);
    assert!(!eval_product_filter(&product(1, 1, "one", Some(7)), &f));
    assert!(eval_product_filter(&product(2, 2, "two", Some(7)), &f));
    assert!(!eval_product_filter(&product(3, 3, "three", Some(7)), &f));
}

#[test]
fn newest_options_cap_the_page_at_ten() {
    let o = newest_products_options();
    assert_eq!(o.limit, Some(10));
    assert_eq!(o.skip, None);
}

#[test]
fn category_plan_special_cases_only_the_null_name() {
    assert!(matches!(category_lookup_plan(&String::from("null")), CategoryLookup::UseDefault));
    match category_lookup_plan(&String::from("Electronics")) {
        CategoryLookup::ByName(n) => assert_eq!(n, "Electronics"),
        CategoryLookup::UseDefault => panic!("only the literal name null gets the default"),
    }
}

#[test]
fn find_source_by_id_matches_exactly() {
    let sources = vec![source(7, "acme"), source(9, "zenith")];
    let s = find_source_by_id(&sources, 9).unwrap_or_else(|| panic!("expected a source"));
    assert_eq!(s.name, "zenith");
    assert!(find_source_by_id(&sources, 8).is_none());
}

#[test]
fn find_category_by_name_takes_the_first_match() {
    let cats = vec![
        Category { id: Some(1), name: String::from("Books") },
        Category { id: Some(2), name: String::from("Books") },
    ];
    let c = find_category_by_name(&cats, &String::from("Books"))
        .unwrap_or_else(|| panic!("expected a category"));
    assert_eq!(c.id, Some(1));
    assert!(find_category_by_name(&cats, &String::from("Games")).is_none());
}

#[test]
fn last_wishlist_picks_the_maximal_timestamp() {
    let ws = vec![
        Wishlist { id: Some(1), timestamp: 5, product_ids: None, products: None },
        Wishlist { id: Some(2), timestamp: 8, product_ids: Some(vec![4]), products: None },
    ];
    let w = last_wishlist(&ws).unwrap_or_else(|| panic!("expected a wishlist"));
    assert_eq!(w.timestamp, 8);
    assert!(w.id.is_none());
    let none: Vec<Wishlist> = vec![];
    assert!(last_wishlist(&none).is_none());
}
