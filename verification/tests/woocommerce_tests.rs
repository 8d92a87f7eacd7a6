use updater::builder::{build_product_dimensions, get_value, woo_build_product, woo_product_builder, woo_product_variation_builder, WooProduct};
use updater::field_mapping::AttributeMapping;
use updater::str_map::StrMap;
use updater::woocommerce::{
    is_product_type_exec, is_stock_status_exec, Category, ProductAttribute, ProductVariation,
    VariationAttribute, WooCommerceProduct,
};

fn product(sku: &str, name: &str) -> WooCommerceProduct {
    WooCommerceProduct {
        id: String::new(),
        name: name.to_string(),
        sku: sku.to_string(),
        type_: "simple".to_string(),
        parent: String::new(),
        featured: false,
        regular_price: "10".to_string(),
        sale_price: None,
        description: String::new(),
        short_description: String::new(),
        weight: None,
        categories: Vec::new(),
        tags: Vec::new(),
        images: Vec::new(),
        variations: Vec::new(),
        attributes: Vec::new(),
        manage_stock: None,
        stock_quantity: None,
        stock_status: Some("instock".to_string()),
        shipping_class: None,
        dimensions: None,
        meta_data: Vec::new(),
    }
}

fn variation(sku: &str, parent: &str) -> ProductVariation {
    ProductVariation {
        id: String::new(),
        sku: sku.to_string(),
        parent: parent.to_string(),
        description: String::new(),
        regular_price: "5".to_string(),
        sale_price: String::new(),
        attributes: Vec::new(),
        stock_quantity: None,
        image: None,
        stock_status: None,
        weight: None,
        shipping_class: None,
        dimensions: None,
        meta_data: Vec::new(),
    }
}

fn row(pairs: &[(&str, &str)]) -> StrMap<String> {
    let mut m = StrMap::new();
    for (k, v) in pairs {
        m.insert(k.to_string(), v.to_string());
    }
    m
}

#[test]
fn merge_prefers_other_where_set() {
    let mut base = product("A1", "Old name");
    base.id = "7".to_string();
    base.description = "Old text".to_string();
    base.sale_price = Some("8".to_string());
    let mut other = product("A1", "New name");
    other.regular_price = String::new();
    other.featured = true;
    let m = base.merge(&other);
    assert_eq!(m.id, "7");
    assert_eq!(m.name, "New name");
    assert_eq!(m.description, "Old text");
    assert_eq!(m.regular_price, "10");
    assert_eq!(m.sale_price.as_deref(), Some("8"));
    assert!(m.featured);
    assert_eq!(m.stock_status.as_deref(), Some("instock"));
    assert!(!base.merge(&base).featured);
}

#[test]
fn merge_clears_unknown_type_and_checks_merged_status() {
    let mut base = product("A1", "Shirt");
    base.type_ = "weird".to_string();
    base.stock_status = Some("nonsense".to_string());
    let mut other = product("A1", "Shirt");
    other.type_ = String::new();
    other.stock_status = Some("outofstock".to_string());
    let m = base.merge(&other);
    assert_eq!(m.type_, "");
    assert_eq!(m.stock_status.as_deref(), Some("outofstock"));
    let mut bogus = product("A1", "Shirt");
    bogus.stock_status = Some("bogus".to_string());
    let n = product("A1", "Shirt").merge(&bogus);
    assert_eq!(n.stock_status.as_deref(), Some("instock"));
}

#[test]
fn merge_takes_other_status_over_missing_one() {
    let mut base = product("A1", "Shirt");
    base.stock_status = None;
    let mut other = product("A1", "Shirt");
    other.stock_status = Some("outofstock".to_string());
    assert_eq!(base.merge(&other).stock_status.as_deref(), Some("outofstock"));
    other.stock_status = None;
    assert_eq!(base.merge(&other).stock_status.as_deref(), Some("instock"));
}

#[test]
fn product_merge_twice_changes_nothing() {
    let base = product("A1", "Shirt");
    let mut other = product("A1", "Tee");
    other.stock_status = Some("bogus".to_string());
    other.featured = true;
    let once = base.merge(&other);
    let twice = once.merge(&other);
    assert_eq!(twice.stock_status, once.stock_status);
    assert_eq!(twice.featured, once.featured);
    assert_eq!(twice.name, once.name);
    assert_eq!(twice.type_, once.type_);
    assert!(!once.has_changed(&twice));
}

#[test]
fn merge_keeps_known_stock_status_in_any_case() {
    let mut base = product("A1", "Shirt");
    base.stock_status = Some("InStock".to_string());
    let mut other = product("A1", "Shirt");
    other.stock_status = Some("outofstock".to_string());
    let m = base.merge(&other);
    assert_eq!(m.stock_status.as_deref(), Some("outofstock"));
}

#[test]
fn merge_with_itself_gives_it_back() {
    let p = product("A1", "Shirt");
    let m = p.merge(&p);
    assert_eq!(m.name, p.name);
    assert_eq!(m.sku, p.sku);
    assert_eq!(m.type_, p.type_);
    assert_eq!(m.stock_status, p.stock_status);
    assert!(!p.has_changed(&m));
    let v = variation("V1", "A1");
    let mv = v.merge(&v);
    assert_eq!(mv.sku, v.sku);
    assert_eq!(mv.regular_price, v.regular_price);
    assert!(!v.has_changed(&mv));
}

#[test]
fn validate_product_errors() {
    let mut p = product("A1", "");
    assert_eq!(p.validate(), Err("Product name is required".to_string()));
    p.parent = "P".to_string();
    assert_eq!(p.validate(), Ok(()));
    let mut q = product("", "Shirt");
    assert_eq!(q.validate(), Err("Product SKU is required".to_string()));
    q.sku = "A1".to_string();
    q.regular_price = String::new();
    assert_eq!(q.validate(), Err("Product regular price is required".to_string()));
    q.type_ = "variable".to_string();
    assert_eq!(q.validate(), Ok(()));
}

#[test]
fn validate_variation_errors() {
    let mut v = variation("", "A1");
    assert_eq!(v.validate(), Err("Product SKU is required".to_string()));
    v.sku = "V1".to_string();
    v.regular_price = String::new();
    assert_eq!(v.validate(), Err("Product regular price is required".to_string()));
    v.regular_price = "3".to_string();
    assert_eq!(v.validate(), Ok(()));
}

#[test]
fn product_changes_listed_in_order() {
    let current = product("A1", "Shirt");
    let mut new = product("A2", "Blouse");
    new.regular_price = "12".to_string();
    new.categories = vec![Category { id: None, name: "Tops".to_string(), slug: "tops".to_string() }];
    new.stock_quantity = Some(3);
    assert_eq!(
        current.get_changes(&new),
        vec!["name", "sku", "categories", "stock_quantity", "regular_price"]
    );
    assert!(current.has_changed(&new));
    assert!(current.get_changes(&current).is_empty());
    assert!(!current.has_changed(&current));
}

#[test]
fn product_changes_skip_empty_lists_and_variable_prices() {
    let mut current = product("A1", "Shirt");
    current.categories = vec![Category { id: Some(1), name: "Tops".to_string(), slug: "tops".to_string() }];
    let mut new = product("A1", "Shirt");
    new.type_ = "variable".to_string();
    new.regular_price = "99".to_string();
    assert!(current.get_changes(&new).is_empty());
}

#[test]
fn variation_changes_listed() {
    let current = variation("V1", "A1");
    let mut new = variation("V2", "A1");
    new.attributes = vec![VariationAttribute { name: "Colour".to_string(), option: "Red".to_string() }];
    new.shipping_class = Some("heavy".to_string());
    assert_eq!(current.get_changes(&new), vec!["sku", "attributes", "shipping_class"]);
    assert!(current.has_changed(&new));
    assert!(!current.has_changed(&current));
}

#[test]
fn product_helpers() {
    let mut p = product("A1", "Shirt");
    assert!(p.is_main_product());
    p.add_attribute(ProductAttribute::new("Colour", vec!["Red".to_string()]));
    let attrs = p.get_attribute();
    assert_eq!(attrs.len(), 1);
    assert_eq!(attrs[0].name, "Colour");
    assert_eq!(attrs[0].visible, Some(true));
    assert_eq!(attrs[0].variation, Some(true));
    assert_eq!(attrs[0].position, None);
    p.get_attribute_mut().clear();
    assert!(p.get_attribute().is_empty());
    p.set_id("55".to_string());
    assert_eq!(p.id, "55");
    p.parent = "X".to_string();
    assert!(!p.is_main_product());
    let mut v = variation("V1", "");
    assert!(!v.is_main_product());
    v.set_parent(&"A1".to_string());
    v.set_id("9".to_string());
    assert_eq!(v.parent, "A1");
    assert_eq!(v.id, "9");
}

#[test]
fn known_types_and_statuses() {
    assert!(is_product_type_exec("simple"));
    assert!(is_product_type_exec("variation"));
    assert!(!is_product_type_exec("Simple"));
    assert!(is_stock_status_exec("onbackorder"));
    assert!(!is_stock_status_exec("sold"));
}

#[test]
fn builder_reads_a_product_row() {
    let r = row(&[
        ("sku", " A1 "),
        ("name", "Shirt"),
        ("type", "Simple"),
        ("regular_price", "10"),
        ("category_ids", "Men Shirts| 12 |"),
        ("images", "a.jpg|b.jpg"),
        ("featured_image", "f.jpg"),
        ("stock_quantity", "4"),
        ("stock_status", "weird"),
        ("material", "cotton, silk"),
        ("length", "3"),
    ]);
    let mut attrs = StrMap::new();
    attrs.insert("Colour".to_string(), AttributeMapping { column: "Red, Blue".to_string(), variable: true });
    let p = woo_product_builder(&r, &attrs).unwrap();
    assert_eq!(p.sku, "A1");
    assert_eq!(p.type_, "Simple");
    assert_eq!(p.parent, "");
    assert_eq!(p.categories.len(), 2);
    assert_eq!(p.categories[0].name, "Men Shirts");
    assert_eq!(p.categories[0].slug, "men-shirts");
    assert_eq!(p.categories[0].id, None);
    assert_eq!(p.categories[1].id, Some(12));
    assert_eq!(p.images.len(), 3);
    assert_eq!(p.images[0].src, "f.jpg");
    assert_eq!(p.images[0].name.as_deref(), Some("Shirt"));
    assert_eq!(p.images[2].src, "b.jpg");
    assert_eq!(p.stock_quantity, Some(4));
    assert_eq!(p.manage_stock, Some(true));
    assert_eq!(p.stock_status.as_deref(), Some("instock"));
    assert_eq!(p.attributes.len(), 2);
    assert_eq!(p.attributes[0].name, "Material");
    assert_eq!(p.attributes[0].options, vec!["cotton", "silk"]);
    assert_eq!(p.attributes[1].name, "Colour");
    assert_eq!(p.attributes[1].options, vec!["Red", "Blue"]);
    assert_eq!(p.attributes[1].variation, Some(true));
    assert_eq!(p.attributes[1].visible, Some(true));
    assert_eq!(p.meta_data.len(), 1);
    assert_eq!(p.meta_data[0].key, "fifu_list_url");
    assert_eq!(p.meta_data[0].value, "f.jpg");
    let d = p.dimensions.unwrap();
    assert_eq!(d.length, "3");
    assert_eq!(d.width, "");
}

#[test]
fn builder_reads_a_variation_row() {
    let r = row(&[("sku", "V1"), ("parent_id", "A1"), ("regular_price", "5"), ("images", " |v.jpg")]);
    let mut attrs = StrMap::new();
    attrs.insert("Colour".to_string(), AttributeMapping { column: "Red".to_string(), variable: true });
    attrs.insert("Size".to_string(), AttributeMapping { column: String::new(), variable: true });
    let v = woo_product_variation_builder(&r, &attrs).unwrap();
    assert_eq!(v.parent, "A1");
    assert_eq!(v.attributes.len(), 1);
    assert_eq!(v.attributes[0].name, "Colour");
    assert_eq!(v.attributes[0].option, "Red");
    assert_eq!(v.image.map(|i| i.src), Some("v.jpg".to_string()));
    assert_eq!(v.stock_status.as_deref(), Some("instock"));
    match woo_build_product(&r, &attrs) {
        Some(WooProduct::Variation(w)) => assert_eq!(w.sku, "V1"),
        _ => panic!("expected a variation"),
    }
    let own_parent = row(&[("sku", "A1"), ("parent_id", "A1")]);
    match woo_build_product(&own_parent, &StrMap::new()) {
        Some(WooProduct::Product(p)) => assert_eq!(p.sku, "A1"),
        _ => panic!("expected a product"),
    }
}

#[test]
fn row_cells_and_dimensions() {
    let r = row(&[("name", "  Shirt  "), ("height", "2")]);
    assert_eq!(get_value(&r, "name"), "Shirt");
    assert_eq!(get_value(&r, "missing"), "");
    let d = build_product_dimensions(&r).unwrap();
    assert_eq!((d.length.as_str(), d.width.as_str(), d.height.as_str()), ("", "", "2"));
    assert!(build_product_dimensions(&row(&[("name", "x")])).is_none());
}

#[test]
fn variation_merge_twice_changes_nothing() {
    let mut a = variation("V1", "A1");
    a.description = "old".to_string();
    a.stock_quantity = Some(2);
    let mut b = variation("V1", "A1");
    b.regular_price = String::new();
    b.sale_price = "4".to_string();
    b.attributes = vec![VariationAttribute { name: "Size".to_string(), option: "M".to_string() }];
    let once = a.merge(&b);
    let twice = once.merge(&b);
    assert_eq!(once.description, "old");
    assert_eq!(once.regular_price, "5");
    assert_eq!(once.sale_price, "4");
    assert_eq!(once.stock_quantity, Some(2));
    assert_eq!(twice.description, once.description);
    assert_eq!(twice.regular_price, once.regular_price);
    assert_eq!(twice.sale_price, once.sale_price);
    assert_eq!(twice.attributes.len(), 1);
    assert!(!once.has_changed(&twice));
}
