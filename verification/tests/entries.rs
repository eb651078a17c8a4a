use catalog::store::Product;
use catalog::store::ProductCategory;
use catalog::users::get_username;

#[test]
fn new_starts_in_stock() {
    let p = Product::new(String::from("tv"), ProductCategory::Electronics, 13370);
    assert_eq!(p.name, "tv");
    assert!(matches!(p.category, ProductCategory::Electronics));
    assert_eq!(p.price, 13370);
    assert!(p.in_stock);
}

#[test]
fn affordability_is_price_against_budget() {
    let p = Product::new(String::from("tv"), ProductCategory::Electronics, 13370);
    assert!(p.is_affordable(13370));
    assert!(p.is_affordable(20000));
    assert!(!p.is_affordable(13369));
}

#[test]
fn discount_scales_price_down() {
    let mut p = Product::new(String::from("tv"), ProductCategory::Electronics, 10000);
    p.apply_discount(25);
    assert_eq!(p.price, 7500);
    p.apply_discount(100);
    assert_eq!(p.price, 0);
    let mut q = Product::new(String::from("book"), ProductCategory::Books, 999);
    q.apply_discount(0);
    assert_eq!(q.price, 999);
    let mut r = Product::new(String::from("socks"), ProductCategory::Clothing, 101);
    r.apply_discount(50);
    assert_eq!(r.price, 50);
}

#[test]
fn details_render_name_category_and_price() {
    let p = Product::new(String::from("tv"), ProductCategory::Electronics, 13370);
    assert_eq!(p.get_details(), "tv (Electronics): $133.70");
    let q = Product::new(String::from("Rust Programming"), ProductCategory::Books, 4999);
    assert_eq!(q.get_details(), "Rust Programming (Books): $49.99");
    let r = Product::new(String::from("socks"), ProductCategory::Clothing, 5);
    assert_eq!(r.get_details(), "socks (Clothing): $0.05");
    let z = Product::new(String::from("air"), ProductCategory::Books, 0);
    assert_eq!(z.get_details(), "air (Books): $0.00");
}

#[test]
fn category_names_and_descriptions() {
    assert_eq!(ProductCategory::Books.to_string(), "Books");
    assert_eq!(ProductCategory::Clothing.to_string(), "Clothing");
    assert_eq!(ProductCategory::Electronics.to_string(), "Electronics");
    assert_eq!(
        ProductCategory::Books.description(),
        "Books and reading materials"
    );
    assert_eq!(
        ProductCategory::Clothing.description(),
        "Apparel and accessories"
    );
    assert_eq!(
        ProductCategory::Electronics.description(),
        "Electronic devices and gadgets"
    );
}

#[test]
fn username_known_and_unknown_ids() {
    assert_eq!(get_username(1), Some(String::from("user name")));
    assert_eq!(get_username(0), None);
    assert_eq!(get_username(2), None);
}
