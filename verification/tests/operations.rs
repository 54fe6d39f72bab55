use wishlist_core::aggregate::get_archived_product_count;
use wishlist_core::aggregate::get_archived_products;
use wishlist_core::aggregate::get_categories;
use wishlist_core::aggregate::get_category_by_name;
use wishlist_core::aggregate::get_last_wishlist;
use wishlist_core::aggregate::get_last_wishlist_hydrated;
use wishlist_core::aggregate::get_newest_products;
use wishlist_core::aggregate::get_products_by_category_name;
use wishlist_core::Category;
use wishlist_core::Error;
use wishlist_core::MissingField;
use wishlist_core::Pagination;
use wishlist_core::Product;
use wishlist_core::Source;
use wishlist_core::Store;
use wishlist_core::Wishlist;

fn product(id: u64, ts: u64, title: &str, category_id: Option<u64>, source_id: u64) -> Product {
    Product {
        id: Some(id),
        item_id: Some(id + 100),
        title: String::from(title),
        timestamp: ts,
        category_id,
        source_id: Some(source_id),
        source: None,
    }
}

fn source(id: u64, name: &str) -> Source {
    Source { id, name: String::from(name) }
}

fn store_with(
    wishlists: Vec<Wishlist>,
    products: Vec<Product>,
    sources: Vec<Source>,
    categories: Vec<Category>,
) -> Store {
    Store { wishlists, products, sources, categories }
}

fn titles(products: &[Product]) -> Vec<String> {
    products.iter().map(|p| p.title.clone()).collect()
}

#[test]
fn empty_store_has_no_last_wishlist() {
    let store = store_with(vec![], vec![], vec![], vec![]);
    let r = get_last_wishlist(&store);
    assert!(matches!(r, Err(Error::EmptyResult)));
}

#[test]
fn last_wishlist_is_newest_and_has_no_raw_id() {
    let store = store_with(
        vec![
            Wishlist { id: Some(1), timestamp: 10, product_ids: Some(vec![1]), products: None },
            Wishlist { id: Some(2), timestamp: 30, product_ids: Some(vec![2]), products: None },
            Wishlist { id: Some(3), timestamp: 20, product_ids: Some(vec![3]), products: None },
        ],
        vec![],
        vec![],
        vec![],
    );
    let w = get_last_wishlist(&store).unwrap_or_else(|_| panic!("expected a wishlist"));
    assert_eq!(w.timestamp, 30);
    assert!(w.id.is_none());
    assert_eq!(w.product_ids, Some(vec![2]));
}

#[test]
fn null_category_is_answered_with_the_default() {
    let store = store_with(vec![], vec![], vec![], vec![]);
    let r = get_category_by_name(&store, &String::from("null"));
    match r {
        Ok(c) => {
            assert!(c.id.is_none());
            assert_eq!(c.name, "");
        }
        Err(_) => panic!("the null category must resolve without a lookup"),
    }
}

#[test]
fn unknown_category_name_is_empty_result_not_empty_list() {
    let store = store_with(
        vec![],
        vec![],
        vec![],
        vec![Category { id: Some(1), name: String::from("Books") }],
    );
    let r = get_category_by_name(&store, &String::from("Electronics"));
    assert!(matches!(r, Err(Error::EmptyResult)));
    let listing = get_products_by_category_name(&store, &String::from("Electronics"));
    assert!(matches!(listing, Err(Error::EmptyResult)));
}

#[test]
fn category_lookup_finds_exact_name() {
    let store = store_with(
        vec![],
        vec![],
        vec![],
        vec![
            Category { id: Some(1), name: String::from("Books") },
            Category { id: Some(2), name: String::from("Electronics") },
        ],
    );
    let c = get_category_by_name(&store, &String::from("Electronics"))
        .unwrap_or_else(|_| panic!("expected a category"));
    assert_eq!(c.id, Some(2));
    assert_eq!(c.name, "Electronics");
}

#[test]
fn products_by_null_category_fail_on_missing_id() {
    let store = store_with(vec![], vec![], vec![], vec![]);
    let r = get_products_by_category_name(&store, &String::from("null"));
    match r {
        Err(Error::FieldNotLoaded(f)) => {
            assert_eq!(f, MissingField::CategoryId);
            assert_eq!(f.entity(), "category");
            assert_eq!(f.field(), "id");
        }
        _ => panic!("the default category carries no identifier"),
    }
}

#[test]
fn products_by_category_name_filters_and_hydrates() {
    let store = store_with(
        vec![],
        vec![
            product(1, 5, "lamp", Some(7), 40),
            product(2, 6, "rug", Some(8), 40),
            product(3, 7, "desk", Some(7), 41),
        ],
        vec![source(40, "alpha"), source(41, "beta")],
        vec![Category { id: Some(7), name: String::from("Furniture") }],
    );
    let out = get_products_by_category_name(&store, &String::from("Furniture"))
        .unwrap_or_else(|_| panic!("expected a listing"));
    assert_eq!(titles(&out), vec!["lamp", "desk"]);
    assert_eq!(out[0].source.as_ref().map(|s| s.name.as_str()), Some("alpha"));
    assert_eq!(out[1].source.as_ref().map(|s| s.name.as_str()), Some("beta"));
}

#[test]
fn hydrating_without_product_ids_fails_field_not_loaded() {
    let store = store_with(
        vec![Wishlist { id: Some(1), timestamp: 9, product_ids: None, products: None }],
        vec![],
        vec![],
        vec![],
    );
    let r = get_last_wishlist_hydrated(&store);
    match r {
        Err(Error::FieldNotLoaded(f)) => {
            assert_eq!(f, MissingField::WishlistProductIds);
            assert_eq!(f.entity(), "wishlist");
            assert_eq!(f.field(), "product_ids");
        }
        Err(Error::EmptyResult) => panic!("must not degrade to EmptyResult"),
        _ => panic!("must not succeed without loaded product_ids"),
    }
}

#[test]
fn last_wishlist_hydrated_attaches_products_and_sources() {
    let store = store_with(
        vec![Wishlist { id: Some(1), timestamp: 9, product_ids: Some(vec![1, 2]), products: None }],
        vec![
            product(1, 50, "older", None, 40),
            product(2, 60, "newer", None, 40),
            product(3, 70, "left out", None, 40),
        ],
        vec![source(40, "alpha")],
        vec![],
    );
    let w = get_last_wishlist_hydrated(&store).unwrap_or_else(|_| panic!("expected a wishlist"));
    let ps = w.products.unwrap_or_else(|| panic!("products must be attached"));
    assert_eq!(titles(&ps), vec!["newer", "older"]);
    assert!(ps.iter().all(|p| p.id.is_none() && p.item_id.is_none()));
    assert!(ps.iter().all(|p| p.source.as_ref().map(|s| s.name.as_str()) == Some("alpha")));
}

#[test]
fn newest_products_are_capped_at_ten_and_ordered_by_descending_id() {
    let mut products = Vec::new();
    for id in 1..=12u64 {
        products.push(product(id, id, &format!("p{id}"), None, 40));
    }
    let store = store_with(vec![], products, vec![source(40, "alpha")], vec![]);
    let out = get_newest_products(&store).unwrap_or_else(|_| panic!("expected a listing"));
    assert_eq!(out.len(), 10);
    let expected: Vec<String> = (3..=12u64).rev().map(|id| format!("p{id}")).collect();
    assert_eq!(titles(&out), expected);
}

#[test]
fn archived_products_example_returns_the_leftover() {
    let store = store_with(
        vec![Wishlist { id: Some(1), timestamp: 9, product_ids: Some(vec![1, 2]), products: None }],
        vec![
            product(1, 5, "wanted one", None, 40),
            product(2, 6, "wanted two", None, 40),
            product(3, 7, "leftover", None, 40),
        ],
        vec![source(40, "alpha")],
        vec![],
    );
    let out = get_archived_products(&store, &Pagination { offset: 0, per_page: 10 })
        .unwrap_or_else(|_| panic!("expected a listing"));
    assert_eq!(titles(&out), vec!["leftover"]);
    assert!(out[0].id.is_none());
    let n = get_archived_product_count(&store).unwrap_or_else(|_| panic!("expected a count"));
    assert_eq!(n, 1);
}

#[test]
fn archived_count_is_the_complement_of_the_wishlist() {
    let store = store_with(
        vec![Wishlist { id: Some(1), timestamp: 9, product_ids: Some(vec![2, 4]), products: None }],
        vec![
            product(1, 1, "a", None, 40),
            product(2, 2, "b", None, 40),
            product(3, 3, "c", None, 40),
            product(4, 4, "d", None, 40),
            product(5, 5, "e", None, 40),
        ],
        vec![source(40, "alpha")],
        vec![],
    );
    let n = get_archived_product_count(&store).unwrap_or_else(|_| panic!("expected a count"));
    assert_eq!(n, 3);
}

#[test]
fn archived_pages_do_not_overlap() {
    let store = store_with(
        vec![Wishlist { id: Some(1), timestamp: 9, product_ids: Some(vec![]), products: None }],
        vec![
            product(1, 1, "one", None, 40),
            product(2, 2, "two", None, 40),
            product(3, 3, "three", None, 40),
            product(4, 4, "four", None, 40),
            product(5, 5, "five", None, 40),
        ],
        vec![source(40, "alpha")],
        vec![],
    );
    let page0 = get_archived_products(&store, &Pagination { offset: 0, per_page: 2 })
        .unwrap_or_else(|_| panic!("expected a page"));
    let page1 = get_archived_products(&store, &Pagination { offset: 2, per_page: 2 })
        .unwrap_or_else(|_| panic!("expected a page"));
    assert_eq!(titles(&page0), vec!["five", "four"]);
    assert_eq!(titles(&page1), vec!["three", "two"]);
    for t in titles(&page0) {
        assert!(!titles(&page1).contains(&t));
    }
}

#[test]
fn archived_window_past_the_end_is_empty() {
    let store = store_with(
        vec![Wishlist { id: Some(1), timestamp: 9, product_ids: Some(vec![]), products: None }],
        vec![product(1, 1, "one", None, 40)],
        vec![source(40, "alpha")],
        vec![],
    );
    let page = get_archived_products(&store, &Pagination { offset: 5, per_page: 2 })
        .unwrap_or_else(|_| panic!("expected a page"));
    assert!(page.is_empty());
}

#[test]
fn null_name_wins_over_a_stored_category_called_null() {
    let store = store_with(
        vec![],
        vec![],
        vec![],
        vec![Category { id: Some(9), name: String::from("null") }],
    );
    let c = get_category_by_name(&store, &String::from("null"))
        .unwrap_or_else(|_| panic!("the null name resolves without a lookup"));
    assert!(c.id.is_none());
    assert_eq!(c.name, "");
}

#[test]
fn newest_products_with_unknown_source_fail_empty_result() {
    let store = store_with(vec![], vec![product(1, 1, "orphan", None, 99)], vec![], vec![]);
    assert!(matches!(get_newest_products(&store), Err(Error::EmptyResult)));
}

#[test]
fn hydrated_wishlist_with_product_missing_source_id_fails() {
    let mut orphan = product(1, 1, "orphan", None, 40);
    orphan.source_id = None;
    let store = store_with(
        vec![Wishlist { id: Some(1), timestamp: 9, product_ids: Some(vec![1]), products: None }],
        vec![orphan],
        vec![source(40, "alpha")],
        vec![],
    );
    match get_last_wishlist_hydrated(&store) {
        Err(Error::FieldNotLoaded(f)) => assert_eq!(f, MissingField::ProductSourceId),
        _ => panic!("a product without source_id must abort hydration"),
    }
}

#[test]
fn categories_are_listed_in_collection_order() {
    let store = store_with(
        vec![],
        vec![],
        vec![],
        vec![
            Category { id: Some(1), name: String::from("Books") },
            Category { id: Some(2), name: String::from("Games") },
        ],
    );
    let cats = get_categories(&store);
    let names: Vec<String> = cats.iter().map(|c| c.name.clone()).collect();
    assert_eq!(names, vec!["Books", "Games"]);
}
