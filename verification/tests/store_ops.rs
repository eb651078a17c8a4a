use catalog::store::CatalogError;
use catalog::store::Product;
use catalog::store::ProductCategory;

fn sample_store() -> Vec<Product> {
    let mut db: Vec<Product> = Vec::new();
    Product::create(
        &mut db,
        Product::new(String::from("tv"), ProductCategory::Electronics, 13370),
    )
    .unwrap();
    Product::create(
        &mut db,
        Product::new(String::from("Rust Programming"), ProductCategory::Books, 4999),
    )
    .unwrap();
    db
}

#[test]
fn create_distinct_names_all_succeed() {
    let mut db: Vec<Product> = Vec::new();
    let names = ["a", "b", "c", "d"];
    let mut successes = 0;
    for name in names {
        if Product::create(
            &mut db,
            Product::new(String::from(name), ProductCategory::Books, 100),
        )
        .is_ok()
        {
            successes += 1;
        }
    }
    assert_eq!(successes, 4);
    assert_eq!(db.len(), 4);
}

#[test]
fn create_duplicate_fails_and_changes_nothing() {
    let mut db = sample_store();
    let r = Product::create(
        &mut db,
        Product::new(String::from("tv"), ProductCategory::Books, 1),
    );
    assert_eq!(r, Err(CatalogError::DuplicateName));
    assert_eq!(db.len(), 2);
    assert_eq!(db[0].name, "tv");
    assert_eq!(db[0].price, 13370);
    assert!(matches!(db[0].category, ProductCategory::Electronics));
}

#[test]
fn find_by_name_present_and_absent() {
    let db = sample_store();
    let found = Product::find_by_name(&db, &String::from("tv")).unwrap();
    assert_eq!(found.name, "tv");
    assert_eq!(found.price, 13370);
    assert!(Product::find_by_name(&db, &String::from("radio")).is_none());
}

#[test]
fn update_price_changes_only_that_entry() {
    let mut db = sample_store();
    let r = Product::update_price(&mut db, &String::from("tv"), 15000);
    assert_eq!(r, Ok(()));
    assert_eq!(db[0].price, 15000);
    assert_eq!(db[0].name, "tv");
    assert!(db[0].in_stock);
    assert_eq!(db[1].price, 4999);
    assert_eq!(db[1].name, "Rust Programming");
}

#[test]
fn update_price_absent_name_not_found() {
    let mut db = sample_store();
    let r = Product::update_price(&mut db, &String::from("radio"), 1);
    assert_eq!(r, Err(CatalogError::NotFound));
    assert_eq!(db.len(), 2);
    assert_eq!(db[0].price, 13370);
    assert_eq!(db[1].price, 4999);
}

#[test]
fn delete_removes_one_and_keeps_order() {
    let mut db = sample_store();
    Product::create(
        &mut db,
        Product::new(String::from("socks"), ProductCategory::Clothing, 500),
    )
    .unwrap();
    let r = Product::delete(&mut db, &String::from("tv"));
    assert_eq!(r, Ok(()));
    assert_eq!(db.len(), 2);
    assert_eq!(db[0].name, "Rust Programming");
    assert_eq!(db[1].name, "socks");
}

#[test]
fn delete_absent_name_not_found() {
    let mut db = sample_store();
    let r = Product::delete(&mut db, &String::from("radio"));
    assert_eq!(r, Err(CatalogError::NotFound));
    assert_eq!(db.len(), 2);
}

#[test]
fn inventory_value_sums_in_stock_prices() {
    let mut db = sample_store();
    assert_eq!(Product::get_inventory_value(&db), 13370 + 4999);
    let mut shelf = Product::new(String::from("shelf"), ProductCategory::Clothing, 100000);
    shelf.in_stock = false;
    Product::create(&mut db, shelf).unwrap();
    assert_eq!(Product::get_inventory_value(&db), 13370 + 4999);
}

#[test]
fn inventory_value_empty_and_out_of_stock() {
    let db: Vec<Product> = Vec::new();
    assert_eq!(Product::get_inventory_value(&db), 0);
    let mut db2 = sample_store();
    db2[0].in_stock = false;
    db2[1].in_stock = false;
    assert_eq!(Product::get_inventory_value(&db2), 0);
}

#[test]
fn list_by_category_matches_in_order() {
    let mut db = sample_store();
    Product::create(
        &mut db,
        Product::new(String::from("laptop"), ProductCategory::Electronics, 99999),
    )
    .unwrap();
    let electronics = Product::list_by_category(&db, ProductCategory::Electronics);
    assert_eq!(electronics.len(), 2);
    assert_eq!(electronics[0].name, "tv");
    assert_eq!(electronics[1].name, "laptop");
    let clothing = Product::list_by_category(&db, ProductCategory::Clothing);
    assert!(clothing.is_empty());
}

#[test]
fn scenario_two_records() {
    let mut db: Vec<Product> = Vec::new();
    Product::create(
        &mut db,
        Product::new(String::from("tv"), ProductCategory::Electronics, 13370),
    )
    .unwrap();
    Product::create(
        &mut db,
        Product::new(String::from("Rust Programming"), ProductCategory::Books, 4999),
    )
    .unwrap();

    let tv = Product::find_by_name(&db, &String::from("tv")).unwrap();
    assert_eq!(tv.name, "tv");
    assert!(matches!(tv.category, ProductCategory::Electronics));
    assert_eq!(tv.price, 13370);

    Product::update_price(&mut db, &String::from("tv"), 15000).unwrap();
    assert_eq!(Product::get_inventory_value(&db), 19999);

    Product::delete(&mut db, &String::from("tv")).unwrap();
    assert_eq!(Product::get_inventory_value(&db), 4999);
    let electronics = Product::list_by_category(&db, ProductCategory::Electronics);
    assert!(electronics.is_empty());
}
