use updater::field_mapping::{default_priority, default_wordpress_field_mapping, AttributeMapping};

fn colour() -> AttributeMapping {
    AttributeMapping { column: "Colour".to_string(), variable: true }
}

#[test]
fn default_mapping_columns() {
    let m = default_wordpress_field_mapping();
    assert_eq!(m.id.as_deref(), Some("ID FROM wp"));
    assert_eq!(m.type_.as_deref(), Some("Product Type"));
    assert_eq!(m.sku.as_deref(), Some("SKU"));
    assert_eq!(m.name.as_deref(), Some("Title"));
    assert_eq!(m.brand_ids.as_deref(), Some("Product Attribute: Brand"));
    assert_eq!(m.published, None);
    assert_eq!(m.get_all_attributes().len(), 0);
    assert_eq!(default_priority(), 1);
}

#[test]
fn get_field_reads_fixed_properties() {
    let m = default_wordpress_field_mapping();
    assert_eq!(m.get_field("sku").map(|s| s.as_str()), Some("SKU"));
    assert_eq!(m.get_field("regular_price").map(|s| s.as_str()), Some("Regular Price"));
    assert_eq!(m.get_field("published"), None);
    assert_eq!(m.get_field("no_such_property"), None);
    assert_eq!(m.get_field("attribute_colour"), None);
}

#[test]
fn get_field_reads_attributes() {
    let mut m = default_wordpress_field_mapping();
    m.add_attribute("colour".to_string(), colour());
    assert_eq!(m.get_field("attribute_colour").map(|s| s.as_str()), Some("Colour"));
    assert_eq!(m.get_field("attribute_size"), None);
}

#[test]
fn hashmap_holds_every_property() {
    let mut m = default_wordpress_field_mapping();
    m.add_attribute("colour".to_string(), colour());
    let h = m.to_hashmap();
    assert_eq!(h.len(), 43);
    assert_eq!(h.get("sku"), Some(&Some("SKU".to_string())));
    assert_eq!(h.get("published"), Some(&None));
    assert_eq!(h.get("attribute_colour"), Some(&Some("Colour".to_string())));
    assert_eq!(h.get("missing"), None);
}

#[test]
fn hashmap_agrees_with_get_field() {
    let mut m = default_wordpress_field_mapping();
    m.add_attribute("colour".to_string(), colour());
    let h = m.to_hashmap();
    for name in ["id", "sku", "published", "brand_ids", "attribute_colour", "attribute_size", "other"] {
        let from_map = h.get(name).and_then(|v| v.as_ref());
        assert_eq!(from_map, m.get_field(name), "{}", name);
    }
}

#[test]
fn active_mappings_are_the_set_ones() {
    let mut m = default_wordpress_field_mapping();
    m.add_attribute("colour".to_string(), colour());
    let a = m.get_active_mappings();
    assert_eq!(a.len(), 21);
    assert_eq!(a.get("sku").map(|s| s.as_str()), Some("SKU"));
    assert_eq!(a.get("published"), None);
    assert_eq!(a.get("attribute_colour").map(|s| s.as_str()), Some("Colour"));
}

#[test]
fn reverse_mapping_points_back() {
    let mut m = default_wordpress_field_mapping();
    m.add_attribute("colour".to_string(), colour());
    let r = m.get_reverse_mapping();
    assert_eq!(r.len(), 20);
    assert_eq!(r.get("SKU").map(|s| s.as_str()), Some("sku"));
    assert_eq!(r.get("Title").map(|s| s.as_str()), Some("name"));
    assert_eq!(r.get("Colour"), None);
    for (column, property) in r.entries().iter() {
        assert_eq!(m.get_field(property), Some(column));
    }
}

#[test]
fn reverse_mapping_later_property_wins() {
    let mut m = default_wordpress_field_mapping();
    m.description = Some("Text".to_string());
    m.short_description = Some("Text".to_string());
    let r = m.get_reverse_mapping();
    assert_eq!(r.get("Text").map(|s| s.as_str()), Some("description"));
}

#[test]
fn attributes_add_get_remove() {
    let mut m = default_wordpress_field_mapping();
    m.add_attribute("colour".to_string(), colour());
    m.add_attribute("size".to_string(), AttributeMapping { column: "Size".to_string(), variable: false });
    assert_eq!(m.get_attribute("colour").map(|a| a.column.as_str()), Some("Colour"));
    assert_eq!(m.get_all_attributes().len(), 2);
    m.add_attribute("colour".to_string(), AttributeMapping { column: "Color".to_string(), variable: false });
    assert_eq!(m.get_all_attributes().len(), 2);
    assert_eq!(m.get_attribute("colour").map(|a| a.column.as_str()), Some("Color"));
    let removed = m.remove_attribute("colour");
    assert_eq!(removed.map(|a| a.column), Some("Color".to_string()));
    assert!(m.get_attribute("colour").is_none());
    assert!(m.remove_attribute("colour").is_none());
    assert_eq!(m.get_all_attributes().len(), 1);
}

#[test]
fn inverted_attribute_points_back() {
    let mut m = default_wordpress_field_mapping();
    m.add_attribute("colour".to_string(), colour());
    m.add_attribute("size".to_string(), AttributeMapping { column: "Size".to_string(), variable: false });
    let inv = m.get_inverted_attribute();
    assert_eq!(inv.len(), 2);
    let c = inv.get("Colour").unwrap();
    assert_eq!(c.column, "colour");
    assert!(c.variable);
    let s = inv.get("Size").unwrap();
    assert_eq!(s.column, "size");
    assert!(!s.variable);
    for (column, back) in inv.entries().iter() {
        let a = m.get_attribute(&back.column).unwrap();
        assert_eq!(&a.column, column);
        assert_eq!(a.variable, back.variable);
    }
}

#[test]
fn attribute_default_is_empty() {
    let a = AttributeMapping::default();
    assert_eq!(a.column, "");
    assert!(!a.variable);
}
