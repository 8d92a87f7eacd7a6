//! How CSV columns map onto WooCommerce product properties.
use vstd::prelude::*;
use crate::str_map::{
    StrMap, insert_all, inserted, removed, lookup, index_of_key, lemma_index_of_key,
    lemma_index_of_key_is, lemma_last_value_unique, last_value, lemma_last_value_found, lemma_lookup_insert_all, lemma_insert_all_fresh, unique_keys,
};
use crate::text::{concat, str_eq, strip_prefix};

verus! {

/// Where one product attribute is read from: the CSV column, and whether
/// the attribute is used for variations.
pub struct AttributeMapping {
    pub column: String,
    pub variable: bool,
}

pub struct AttributeMappingView {
    pub column: Seq<char>,
    pub variable: bool,
}

impl View for AttributeMapping {
    type V = AttributeMappingView;

    open spec fn view(&self) -> AttributeMappingView {
        AttributeMappingView { column: self.column@, variable: self.variable }
    }
}

impl DeepView for AttributeMapping {
    type V = AttributeMappingView;

    open spec fn deep_view(&self) -> AttributeMappingView {
        self.view()
    }
}

impl AttributeMapping {
    /// A copy of this mapping.
    pub fn duplicate(&self) -> (r: Self)
        ensures
            r@ == self@,
    {
        AttributeMapping { column: self.column.clone(), variable: self.variable }
    }
}

impl Default for AttributeMapping {
    fn default() -> (r: Self)
        ensures
            r@ == (AttributeMappingView { column: Seq::empty(), variable: false }),
    {
        AttributeMapping { column: String::new(), variable: false }
    }
}

/// A copy of an optional text.
pub fn clone_opt(o: &Option<String>) -> (r: Option<String>)
    ensures
        r.deep_view() == o.deep_view(),
{
    match o {
        Some(s) => Some(s.clone()),
        None => None,
    }
}

/// The CSV column of each product property (`None`: not read from the CSV),
/// and the columns of named attributes.
pub struct WordPressFieldMapping {
    pub id: Option<String>,
    pub type_: Option<String>,
    pub sku: Option<String>,
    pub global_unique_id: Option<String>,
    pub name: Option<String>,
    pub published: Option<String>,
    pub featured: Option<String>,
    pub catalog_visibility: Option<String>,
    pub short_description: Option<String>,
    pub description: Option<String>,
    pub regular_price: Option<String>,
    pub sale_price: Option<String>,
    pub date_on_sale_from: Option<String>,
    pub date_on_sale_to: Option<String>,
    pub tax_status: Option<String>,
    pub tax_class: Option<String>,
    pub stock_status: Option<String>,
    pub stock_quantity: Option<String>,
    pub backorders: Option<String>,
    pub low_stock_amount: Option<String>,
    pub sold_individually: Option<String>,
    pub weight: Option<String>,
    pub length: Option<String>,
    pub width: Option<String>,
    pub height: Option<String>,
    pub category_ids: Option<String>,
    pub tag_ids: Option<String>,
    pub tag_ids_spaces: Option<String>,
    pub shipping_class_id: Option<String>,
    pub images: Option<String>,
    pub parent_id: Option<String>,
    pub upsell_ids: Option<String>,
    pub cross_sell_ids: Option<String>,
    pub grouped_products: Option<String>,
    pub product_url: Option<String>,
    pub button_text: Option<String>,
    pub download_limit: Option<String>,
    pub download_expiry: Option<String>,
    pub reviews_allowed: Option<String>,
    pub purchase_note: Option<String>,
    pub menu_order: Option<String>,
    pub brand_ids: Option<String>,
    pub attributes: StrMap<AttributeMapping>,
}

/// The property names, in the order in which the mapping lists them.
pub open spec fn field_names() -> Seq<Seq<char>> {
    seq![
        "id"@,
        "type"@,
        "sku"@,
        "global_unique_id"@,
        "name"@,
        "published"@,
        "featured"@,
        "catalog_visibility"@,
        "short_description"@,
        "description"@,
        "regular_price"@,
        "sale_price"@,
        "date_on_sale_from"@,
        "date_on_sale_to"@,
        "tax_status"@,
        "tax_class"@,
        "stock_status"@,
        "stock_quantity"@,
        "backorders"@,
        "low_stock_amount"@,
        "sold_individually"@,
        "weight"@,
        "length"@,
        "width"@,
        "height"@,
        "category_ids"@,
        "tag_ids"@,
        "tag_ids_spaces"@,
        "shipping_class_id"@,
        "images"@,
        "parent_id"@,
        "upsell_ids"@,
        "cross_sell_ids"@,
        "grouped_products"@,
        "product_url"@,
        "button_text"@,
        "download_limit"@,
        "download_expiry"@,
        "reviews_allowed"@,
        "purchase_note"@,
        "menu_order"@,
        "brand_ids"@,
    ]
}

/// The text that names an attribute property: `attribute_` and the attribute's key.
pub open spec fn attribute_property(key: Seq<char>) -> Seq<char> {
    "attribute_"@ + key
}

/// Each attribute as (`attribute_` + key, its column).
pub open spec fn attribute_columns(a: Seq<(Seq<char>, AttributeMappingView)>) -> Seq<(Seq<char>, Seq<char>)> {
    a.map_values(|p: (Seq<char>, AttributeMappingView)| (attribute_property(p.0), p.1.column))
}

/// The fixed properties that have a column, as (property, column).
pub open spec fn present_pairs(p: Seq<(Seq<char>, Option<Seq<char>>)>) -> Seq<(Seq<char>, Seq<char>)>
    decreases p.len(),
{
    if p.len() == 0 {
        Seq::empty()
    } else {
        present_pairs(p.drop_last()) + match p.last().1 {
            Some(v) => seq![(p.last().0, v)],
            None => Seq::empty(),
        }
    }
}

/// The fixed properties that have a column, as (column, property).
pub open spec fn swapped_pairs(p: Seq<(Seq<char>, Option<Seq<char>>)>) -> Seq<(Seq<char>, Seq<char>)>
    decreases p.len(),
{
    if p.len() == 0 {
        Seq::empty()
    } else {
        swapped_pairs(p.drop_last()) + match p.last().1 {
            Some(v) => seq![(v, p.last().0)],
            None => Seq::empty(),
        }
    }
}

/// Each attribute turned around: keyed by its column, holding the key as the column.
pub open spec fn inverted_pairs(a: Seq<(Seq<char>, AttributeMappingView)>) -> Seq<(Seq<char>, AttributeMappingView)> {
    a.map_values(
        |p: (Seq<char>, AttributeMappingView)|
            (p.1.column, AttributeMappingView { column: p.0, variable: p.1.variable }),
    )
}

/// Whether a property name names an attribute: it begins with `attribute_`.
pub open spec fn is_attribute_name(n: Seq<char>) -> bool {
    "attribute_"@.len() <= n.len() && n.take("attribute_"@.len() as int) == "attribute_"@
}

/// `x` differs from each of the first `n` texts of `s`.
pub open spec fn absent_below(s: Seq<Seq<char>>, x: Seq<char>, n: int) -> bool
    decreases n,
{
    n <= 0 || (s[n - 1] != x && absent_below(s, x, n - 1))
}

/// Each of the first `n` texts of `s` differs from every one before it.
pub open spec fn distinct_below(s: Seq<Seq<char>>, n: int) -> bool
    decreases n,
{
    n <= 0 || (absent_below(s, s[n - 1], n - 1) && distinct_below(s, n - 1))
}

proof fn lemma_absent_below(s: Seq<Seq<char>>, x: Seq<char>, n: int)
    requires
        absent_below(s, x, n),
    ensures
        forall|j: int| 0 <= j < n ==> s[j] != x,
    decreases n,
{
    if n > 0 {
        lemma_absent_below(s, x, n - 1);
    }
}

proof fn lemma_distinct_below(s: Seq<Seq<char>>, n: int)
    requires
        distinct_below(s, n),
    ensures
        forall|a: int, b: int| 0 <= a < n && 0 <= b < n && a != b ==> s[a] != s[b],
    decreases n,
{
    if n > 0 {
        lemma_distinct_below(s, n - 1);
        lemma_absent_below(s, s[n - 1], n - 1);
    }
}

/// The fixed property names are distinct, and none names an attribute.
pub proof fn lemma_fixed_names(m: &WordPressFieldMapping)
    ensures
        unique_keys(m.fixed_pairs()),
        forall|i: int| 0 <= i < m.fixed_pairs().len() ==> !is_attribute_name(#[trigger] m.fixed_pairs()[i].0),
{
    let s = field_names();
    reveal_strlit("attribute_");
    assert("attribute_"@[0] == 'a' && "attribute_"@[1] == 't' && "attribute_"@[2] == 't');
    reveal_strlit("id");
    assert(s[0] == "id"@ && "id"@[0] == 'i' && "id"@[1] == 'd');
    reveal_strlit("type");
    assert(s[1] == "type"@ && "type"@[0] == 't' && "type"@[1] == 'y' && "type"@[2] == 'p');
    reveal_strlit("sku");
    assert(s[2] == "sku"@ && "sku"@[0] == 's' && "sku"@[1] == 'k' && "sku"@[2] == 'u');
    reveal_strlit("global_unique_id");
    assert(s[3] == "global_unique_id"@ && "global_unique_id"@[0] == 'g' && "global_unique_id"@[1] == 'l' && "global_unique_id"@[2] == 'o');
    reveal_strlit("name");
    assert(s[4] == "name"@ && "name"@[0] == 'n' && "name"@[1] == 'a' && "name"@[2] == 'm');
    reveal_strlit("published");
    assert(s[5] == "published"@ && "published"@[0] == 'p' && "published"@[1] == 'u' && "published"@[2] == 'b');
    reveal_strlit("featured");
    assert(s[6] == "featured"@ && "featured"@[0] == 'f' && "featured"@[1] == 'e' && "featured"@[2] == 'a');
    reveal_strlit("catalog_visibility");
    assert(s[7] == "catalog_visibility"@ && "catalog_visibility"@[0] == 'c' && "catalog_visibility"@[1] == 'a' && "catalog_visibility"@[2] == 't');
    reveal_strlit("short_description");
    assert(s[8] == "short_description"@ && "short_description"@[0] == 's' && "short_description"@[1] == 'h' && "short_description"@[2] == 'o');
    reveal_strlit("description");
    assert(s[9] == "description"@ && "description"@[0] == 'd' && "description"@[1] == 'e' && "description"@[2] == 's');
    reveal_strlit("regular_price");
    assert(s[10] == "regular_price"@ && "regular_price"@[0] == 'r' && "regular_price"@[1] == 'e' && "regular_price"@[2] == 'g');
    reveal_strlit("sale_price");
    assert(s[11] == "sale_price"@ && "sale_price"@[0] == 's' && "sale_price"@[1] == 'a' && "sale_price"@[2] == 'l');
    reveal_strlit("date_on_sale_from");
    assert(s[12] == "date_on_sale_from"@ && "date_on_sale_from"@[0] == 'd' && "date_on_sale_from"@[1] == 'a' && "date_on_sale_from"@[2] == 't');
    reveal_strlit("date_on_sale_to");
    assert(s[13] == "date_on_sale_to"@ && "date_on_sale_to"@[0] == 'd' && "date_on_sale_to"@[1] == 'a' && "date_on_sale_to"@[2] == 't');
    reveal_strlit("tax_status");
    assert(s[14] == "tax_status"@ && "tax_status"@[0] == 't' && "tax_status"@[1] == 'a' && "tax_status"@[2] == 'x');
    reveal_strlit("tax_class");
    assert(s[15] == "tax_class"@ && "tax_class"@[0] == 't' && "tax_class"@[1] == 'a' && "tax_class"@[2] == 'x');
    reveal_strlit("stock_status");
    assert(s[16] == "stock_status"@ && "stock_status"@[0] == 's' && "stock_status"@[1] == 't' && "stock_status"@[2] == 'o');
    reveal_strlit("stock_quantity");
    assert(s[17] == "stock_quantity"@ && "stock_quantity"@[0] == 's' && "stock_quantity"@[1] == 't' && "stock_quantity"@[2] == 'o');
    reveal_strlit("backorders");
    assert(s[18] == "backorders"@ && "backorders"@[0] == 'b' && "backorders"@[1] == 'a' && "backorders"@[2] == 'c');
    reveal_strlit("low_stock_amount");
    assert(s[19] == "low_stock_amount"@ && "low_stock_amount"@[0] == 'l' && "low_stock_amount"@[1] == 'o' && "low_stock_amount"@[2] == 'w');
    reveal_strlit("sold_individually");
    assert(s[20] == "sold_individually"@ && "sold_individually"@[0] == 's' && "sold_individually"@[1] == 'o' && "sold_individually"@[2] == 'l');
    reveal_strlit("weight");
    assert(s[21] == "weight"@ && "weight"@[0] == 'w' && "weight"@[1] == 'e' && "weight"@[2] == 'i');
    reveal_strlit("length");
    assert(s[22] == "length"@ && "length"@[0] == 'l' && "length"@[1] == 'e' && "length"@[2] == 'n');
    reveal_strlit("width");
    assert(s[23] == "width"@ && "width"@[0] == 'w' && "width"@[1] == 'i' && "width"@[2] == 'd');
    reveal_strlit("height");
    assert(s[24] == "height"@ && "height"@[0] == 'h' && "height"@[1] == 'e' && "height"@[2] == 'i');
    reveal_strlit("category_ids");
    assert(s[25] == "category_ids"@ && "category_ids"@[0] == 'c' && "category_ids"@[1] == 'a' && "category_ids"@[2] == 't');
    reveal_strlit("tag_ids");
    assert(s[26] == "tag_ids"@ && "tag_ids"@[0] == 't' && "tag_ids"@[1] == 'a' && "tag_ids"@[2] == 'g');
    reveal_strlit("tag_ids_spaces");
    assert(s[27] == "tag_ids_spaces"@ && "tag_ids_spaces"@[0] == 't' && "tag_ids_spaces"@[1] == 'a' && "tag_ids_spaces"@[2] == 'g');
    reveal_strlit("shipping_class_id");
    assert(s[28] == "shipping_class_id"@ && "shipping_class_id"@[0] == 's' && "shipping_class_id"@[1] == 'h' && "shipping_class_id"@[2] == 'i');
    reveal_strlit("images");
    assert(s[29] == "images"@ && "images"@[0] == 'i' && "images"@[1] == 'm' && "images"@[2] == 'a');
    reveal_strlit("parent_id");
    assert(s[30] == "parent_id"@ && "parent_id"@[0] == 'p' && "parent_id"@[1] == 'a' && "parent_id"@[2] == 'r');
    reveal_strlit("upsell_ids");
    assert(s[31] == "upsell_ids"@ && "upsell_ids"@[0] == 'u' && "upsell_ids"@[1] == 'p' && "upsell_ids"@[2] == 's');
    reveal_strlit("cross_sell_ids");
    assert(s[32] == "cross_sell_ids"@ && "cross_sell_ids"@[0] == 'c' && "cross_sell_ids"@[1] == 'r' && "cross_sell_ids"@[2] == 'o');
    reveal_strlit("grouped_products");
    assert(s[33] == "grouped_products"@ && "grouped_products"@[0] == 'g' && "grouped_products"@[1] == 'r' && "grouped_products"@[2] == 'o');
    reveal_strlit("product_url");
    assert(s[34] == "product_url"@ && "product_url"@[0] == 'p' && "product_url"@[1] == 'r' && "product_url"@[2] == 'o');
    reveal_strlit("button_text");
    assert(s[35] == "button_text"@ && "button_text"@[0] == 'b' && "button_text"@[1] == 'u' && "button_text"@[2] == 't');
    reveal_strlit("download_limit");
    assert(s[36] == "download_limit"@ && "download_limit"@[0] == 'd' && "download_limit"@[1] == 'o' && "download_limit"@[2] == 'w');
    reveal_strlit("download_expiry");
    assert(s[37] == "download_expiry"@ && "download_expiry"@[0] == 'd' && "download_expiry"@[1] == 'o' && "download_expiry"@[2] == 'w');
    reveal_strlit("reviews_allowed");
    assert(s[38] == "reviews_allowed"@ && "reviews_allowed"@[0] == 'r' && "reviews_allowed"@[1] == 'e' && "reviews_allowed"@[2] == 'v');
    reveal_strlit("purchase_note");
    assert(s[39] == "purchase_note"@ && "purchase_note"@[0] == 'p' && "purchase_note"@[1] == 'u' && "purchase_note"@[2] == 'r');
    reveal_strlit("menu_order");
    assert(s[40] == "menu_order"@ && "menu_order"@[0] == 'm' && "menu_order"@[1] == 'e' && "menu_order"@[2] == 'n');
    reveal_strlit("brand_ids");
    assert(s[41] == "brand_ids"@ && "brand_ids"@[0] == 'b' && "brand_ids"@[1] == 'r' && "brand_ids"@[2] == 'a');
    assert(absent_below(s, s[1], 1)) by { reveal_with_fuel(absent_below, 2); }
    assert(absent_below(s, s[2], 2)) by { reveal_with_fuel(absent_below, 3); }
    assert(absent_below(s, s[3], 3)) by { reveal_with_fuel(absent_below, 4); }
    assert(absent_below(s, s[4], 4)) by { reveal_with_fuel(absent_below, 5); }
    assert(absent_below(s, s[5], 5)) by { reveal_with_fuel(absent_below, 6); }
    assert(absent_below(s, s[6], 6)) by { reveal_with_fuel(absent_below, 7); }
    assert(absent_below(s, s[7], 7)) by { reveal_with_fuel(absent_below, 8); }
    assert(absent_below(s, s[8], 8)) by { reveal_with_fuel(absent_below, 9); }
    assert(absent_below(s, s[9], 9)) by { reveal_with_fuel(absent_below, 10); }
    assert(absent_below(s, s[10], 10)) by { reveal_with_fuel(absent_below, 11); }
    assert(absent_below(s, s[11], 11)) by { reveal_with_fuel(absent_below, 12); }
    assert(absent_below(s, s[12], 12)) by { reveal_with_fuel(absent_below, 13); }
    assert(absent_below(s, s[13], 13)) by { reveal_with_fuel(absent_below, 14); }
    assert(absent_below(s, s[14], 14)) by { reveal_with_fuel(absent_below, 15); }
    assert(absent_below(s, s[15], 15)) by { reveal_with_fuel(absent_below, 16); }
    assert(absent_below(s, s[16], 16)) by { reveal_with_fuel(absent_below, 17); }
    assert(absent_below(s, s[17], 17)) by { reveal_with_fuel(absent_below, 18); }
    assert(absent_below(s, s[18], 18)) by { reveal_with_fuel(absent_below, 19); }
    assert(absent_below(s, s[19], 19)) by { reveal_with_fuel(absent_below, 20); }
    assert(absent_below(s, s[20], 20)) by { reveal_with_fuel(absent_below, 21); }
    assert(absent_below(s, s[21], 21)) by { reveal_with_fuel(absent_below, 22); }
    assert(absent_below(s, s[22], 22)) by { reveal_with_fuel(absent_below, 23); }
    assert(absent_below(s, s[23], 23)) by { reveal_with_fuel(absent_below, 24); }
    assert(absent_below(s, s[24], 24)) by { reveal_with_fuel(absent_below, 25); }
    assert(absent_below(s, s[25], 25)) by { reveal_with_fuel(absent_below, 26); }
    assert(absent_below(s, s[26], 26)) by { reveal_with_fuel(absent_below, 27); }
    assert(absent_below(s, s[27], 27)) by { reveal_with_fuel(absent_below, 28); }
    assert(absent_below(s, s[28], 28)) by { reveal_with_fuel(absent_below, 29); }
    assert(absent_below(s, s[29], 29)) by { reveal_with_fuel(absent_below, 30); }
    assert(absent_below(s, s[30], 30)) by { reveal_with_fuel(absent_below, 31); }
    assert(absent_below(s, s[31], 31)) by { reveal_with_fuel(absent_below, 32); }
    assert(absent_below(s, s[32], 32)) by { reveal_with_fuel(absent_below, 33); }
    assert(absent_below(s, s[33], 33)) by { reveal_with_fuel(absent_below, 34); }
    assert(absent_below(s, s[34], 34)) by { reveal_with_fuel(absent_below, 35); }
    assert(absent_below(s, s[35], 35)) by { reveal_with_fuel(absent_below, 36); }
    assert(absent_below(s, s[36], 36)) by { reveal_with_fuel(absent_below, 37); }
    assert(absent_below(s, s[37], 37)) by { reveal_with_fuel(absent_below, 38); }
    assert(absent_below(s, s[38], 38)) by { reveal_with_fuel(absent_below, 39); }
    assert(absent_below(s, s[39], 39)) by { reveal_with_fuel(absent_below, 40); }
    assert(absent_below(s, s[40], 40)) by { reveal_with_fuel(absent_below, 41); }
    assert(absent_below(s, s[41], 41)) by { reveal_with_fuel(absent_below, 42); }
    assert(distinct_below(s, 42)) by { reveal_with_fuel(distinct_below, 43); }
    lemma_distinct_below(s, 42);
    let p = m.fixed_pairs();
    assert forall|i: int| 0 <= i < p.len() implies p[i].0 == s[i] by {}
    assert forall|i: int| 0 <= i < p.len() implies !is_attribute_name(#[trigger] p[i].0) by {
        let n = p[i].0;
        if is_attribute_name(n) {
            assert(n[0] == 'a' && n[1] == 't' && n[2] == 't');
        }
    }
}

/// The attribute property names follow the attribute keys: looking one up
/// finds the entry of its key, and each is an attribute name.
proof fn lemma_attribute_columns(a: Seq<(Seq<char>, AttributeMappingView)>, k: Seq<char>)
    ensures
        index_of_key(attribute_columns(a), attribute_property(k)) == index_of_key(a, k),
        forall|i: int| 0 <= i < a.len() ==> is_attribute_name(#[trigger] attribute_columns(a)[i].0),
        unique_keys(a) ==> unique_keys(attribute_columns(a)),
{
    let c = attribute_columns(a);
    let p = "attribute_"@;
    lemma_index_of_key(a, k);
    let i = index_of_key(a, k);
    assert forall|j: int| 0 <= j < c.len() && (i < 0 || j < i) implies #[trigger] c[j].0 != attribute_property(k) by {
        assert(a[j].0 != k);
        if c[j].0 == attribute_property(k) {
            assert(c[j].0.skip(p.len() as int) =~= a[j].0);
            assert(attribute_property(k).skip(p.len() as int) =~= k);
        }
    }
    lemma_index_of_key_is(c, attribute_property(k), i);
    assert forall|j: int| 0 <= j < a.len() implies is_attribute_name(#[trigger] c[j].0) by {
        assert(c[j].0.take(p.len() as int) =~= p);
    }
    if unique_keys(a) {
        assert forall|x: int, y: int| 0 <= x < c.len() && 0 <= y < c.len() && x != y implies c[x].0 != c[y].0 by {
            if c[x].0 == c[y].0 {
                assert(c[x].0.skip(p.len() as int) =~= a[x].0);
                assert(c[y].0.skip(p.len() as int) =~= a[y].0);
            }
        }
    }
}

/// Looking a property up in `to_hashmap` gives what `get_field` gives: the
/// column of a fixed property, the column of the attribute that an
/// `attribute_<key>` name names, and nothing for any other name.
pub proof fn law_get_field_agrees_with_hashmap(m: &WordPressFieldMapping, name: Seq<char>)
    requires
        unique_keys(m.attributes@),
    ensures
        m.field_lookup(name) == match lookup(m.hashmap_view(), name) {
            Some(v) => v,
            None => None,
        },
{
    let fp = m.fixed_pairs();
    let c = attribute_columns(m.attributes@);
    let ac = c.map_values(|p: (Seq<char>, Seq<char>)| (p.0, Some(p.1)));
    let base = insert_all(Seq::empty(), fp);
    let pre = "attribute_"@;
    lemma_fixed_names(m);
    lemma_lookup_insert_all(base, ac, name);
    lemma_lookup_insert_all(Seq::empty(), fp, name);
    lemma_last_value_unique(fp, name);
    lemma_index_of_key(fp, name);
    let rest = name.skip(pre.len() as int);
    lemma_attribute_columns(m.attributes@, rest);
    assert(unique_keys(ac));
    lemma_last_value_unique(ac, name);
    lemma_index_of_key(ac, name);
    lemma_index_of_key(c, name);
    lemma_index_of_key(Seq::<(Seq<char>, Option<Seq<char>>)>::empty(), name);
    if is_attribute_name(name) {
        assert(attribute_property(rest) =~= name);
        assert(index_of_key(ac, name) == index_of_key(c, name)) by {
            lemma_index_of_key_is(ac, name, index_of_key(c, name));
        }
        if index_of_key(fp, name) >= 0 {
            assert(!is_attribute_name(fp[index_of_key(fp, name)].0));
        }
    } else {
        assert forall|j: int| 0 <= j < ac.len() implies #[trigger] ac[j].0 != name by {
            assert(is_attribute_name(c[j].0));
        }
        lemma_index_of_key_is(ac, name, -1);
    }
}

proof fn lemma_present_pairs(p: Seq<(Seq<char>, Option<Seq<char>>)>, n: Seq<char>)
    requires
        unique_keys(p),
    ensures
        last_value(present_pairs(p), n) == match last_value(p, n) {
            Some(Some(c)) => Some(c),
            _ => None,
        },
    decreases p.len(),
{
    if p.len() > 0 {
        let q = p.drop_last();
        let x = p.last();
        assert(unique_keys(q)) by {
            assert forall|i: int, j: int| 0 <= i < q.len() && 0 <= j < q.len() && i != j implies q[i].0 != q[j].0 by {
                assert(q[i] == p[i] && q[j] == p[j]);
            }
        }
        lemma_present_pairs(q, n);
        let pq = present_pairs(q);
        if x.0 == n {
            lemma_last_value_unique(q, n);
            lemma_index_of_key(q, n);
            assert forall|j: int| 0 <= j < q.len() implies #[trigger] q[j].0 != n by {
                assert(q[j] == p[j]);
                assert(x == p[p.len() - 1]);
            }
            lemma_index_of_key_is(q, n, -1);
        }
        match x.1 {
            Some(v) => {
                let pp = pq + seq![(x.0, v)];
                assert(pp.drop_last() =~= pq);
                assert(pp.last() == (x.0, v));
            },
            None => {
                assert(pq + Seq::<(Seq<char>, Seq<char>)>::empty() =~= pq);
            },
        }
    }
}

/// Read through the attribute columns with `Some` round each column, the
/// entries keep their places.
proof fn lemma_columns_as_options(c: Seq<(Seq<char>, Seq<char>)>, n: Seq<char>)
    requires
        unique_keys(c),
    ensures
        ({
            let ac = c.map_values(|p: (Seq<char>, Seq<char>)| (p.0, Some(p.1)));
            &&& unique_keys(ac)
            &&& last_value(ac, n) == match last_value(c, n) {
                Some(v) => Some(Some(v)),
                None => None,
            }
        }),
{
    let ac = c.map_values(|p: (Seq<char>, Seq<char>)| (p.0, Some(p.1)));
    assert(unique_keys(ac));
    lemma_last_value_unique(c, n);
    lemma_last_value_unique(ac, n);
    lemma_index_of_key(c, n);
    lemma_index_of_key_is(ac, n, index_of_key(c, n));
}

/// `get_active_mappings` holds exactly the properties to which `to_hashmap`
/// gives a column, each with that column.
pub proof fn law_active_mappings_are_set_fields(m: &WordPressFieldMapping, name: Seq<char>)
    requires
        unique_keys(m.attributes@),
    ensures
        lookup(m.active_view(), name) == match lookup(m.hashmap_view(), name) {
            Some(Some(c)) => Some(c),
            _ => None,
        },
{
    let fp = m.fixed_pairs();
    let c = attribute_columns(m.attributes@);
    let ac = c.map_values(|p: (Seq<char>, Seq<char>)| (p.0, Some(p.1)));
    lemma_fixed_names(m);
    lemma_attribute_columns(m.attributes@, name);
    lemma_columns_as_options(c, name);
    lemma_present_pairs(fp, name);
    lemma_lookup_insert_all(insert_all(Seq::empty(), fp), ac, name);
    lemma_lookup_insert_all(Seq::empty(), fp, name);
    lemma_lookup_insert_all(insert_all(Seq::empty(), present_pairs(fp)), c, name);
    lemma_lookup_insert_all(Seq::empty(), present_pairs(fp), name);
    lemma_index_of_key(Seq::<(Seq<char>, Option<Seq<char>>)>::empty(), name);
    lemma_index_of_key(Seq::<(Seq<char>, Seq<char>)>::empty(), name);
}

proof fn lemma_swapped_pairs(p: Seq<(Seq<char>, Option<Seq<char>>)>, c: Seq<char>)
    ensures
        last_value(swapped_pairs(p), c) is Some ==> exists|j: int|
            0 <= j < p.len() && #[trigger] p[j] == (last_value(swapped_pairs(p), c)->0, Some(c)),
    decreases p.len(),
{
    if p.len() > 0 {
        let q = p.drop_last();
        let x = p.last();
        lemma_swapped_pairs(q, c);
        let sq = swapped_pairs(q);
        match x.1 {
            Some(v) => {
                let sp = sq + seq![(v, x.0)];
                assert(sp.drop_last() =~= sq);
                if v == c {
                    assert(p[p.len() - 1] == (x.0, Some(c)));
                } else if last_value(sq, c) is Some {
                    let j = choose|j: int| 0 <= j < q.len() && #[trigger] q[j] == (last_value(sq, c)->0, Some(c));
                    assert(p[j] == q[j]);
                }
            },
            None => {
                assert(sq + Seq::<(Seq<char>, Seq<char>)>::empty() =~= sq);
                if last_value(sq, c) is Some {
                    let j = choose|j: int| 0 <= j < q.len() && #[trigger] q[j] == (last_value(sq, c)->0, Some(c));
                    assert(p[j] == q[j]);
                }
            },
        }
    }
}

proof fn lemma_swapped_pairs_last(p: Seq<(Seq<char>, Option<Seq<char>>)>, c: Seq<char>, j: int)
    requires
        0 <= j < p.len(),
        p[j].1 == Some(c),
        forall|k: int| j < k < p.len() ==> #[trigger] p[k].1 != Some(c),
    ensures
        last_value(swapped_pairs(p), c) == Some(p[j].0),
    decreases p.len(),
{
    let q = p.drop_last();
    let x = p.last();
    let sq = swapped_pairs(q);
    match x.1 {
        Some(v) => {
            let sp = sq + seq![(v, x.0)];
            assert(sp.drop_last() =~= sq);
        },
        None => {
            assert(sq + Seq::<(Seq<char>, Seq<char>)>::empty() =~= sq);
        },
    }
    if j < p.len() - 1 {
        assert(p[p.len() - 1].1 != Some(c));
        assert forall|k: int| j < k < q.len() implies #[trigger] q[k].1 != Some(c) by {
            assert(q[k] == p[k]);
        }
        lemma_swapped_pairs_last(q, c, j);
    }
}

/// `get_field` gives the column of the fixed property at place `j`.
proof fn lemma_fixed_field_lookup(m: &WordPressFieldMapping, j: int)
    requires
        0 <= j < m.fixed_pairs().len(),
    ensures
        m.field_lookup(m.fixed_pairs()[j].0) == m.fixed_pairs()[j].1,
{
    let fp = m.fixed_pairs();
    lemma_fixed_names(m);
    lemma_index_of_key_is(fp, fp[j].0, j);
}

/// Every entry of `get_reverse_mapping` points back: the property it gives
/// for a column is read from that column.
pub proof fn law_reverse_mapping_points_back(m: &WordPressFieldMapping, column: Seq<char>)
    ensures
        lookup(m.reverse_view(), column) matches Some(n) ==> m.field_lookup(n) == Some(column),
{
    let fp = m.fixed_pairs();
    let sp = swapped_pairs(fp);
    lemma_lookup_insert_all(Seq::empty(), sp, column);
    lemma_index_of_key(Seq::<(Seq<char>, Seq<char>)>::empty(), column);
    lemma_swapped_pairs(fp, column);
    if last_value(sp, column) is Some {
        let j = choose|j: int| 0 <= j < fp.len() && #[trigger] fp[j] == (last_value(sp, column)->0, Some(column));
        lemma_fixed_field_lookup(m, j);
    }
}

/// `get_reverse_mapping` maps a column to the last fixed property read from it.
pub proof fn law_reverse_mapping_finds_property(m: &WordPressFieldMapping, column: Seq<char>, j: int)
    requires
        0 <= j < m.fixed_pairs().len(),
        m.fixed_pairs()[j].1 == Some(column),
        forall|k: int| j < k < m.fixed_pairs().len() ==> #[trigger] m.fixed_pairs()[k].1 != Some(column),
    ensures
        lookup(m.reverse_view(), column) == Some(m.fixed_pairs()[j].0),
{
    let fp = m.fixed_pairs();
    lemma_lookup_insert_all(Seq::empty(), swapped_pairs(fp), column);
    lemma_swapped_pairs_last(fp, column, j);
}

/// Every entry of `get_inverted_attribute` points back: under the column it
/// is keyed by, it names the attribute read from that column, with that
/// attribute's variation flag.
pub proof fn law_inverted_attribute_points_back(m: &WordPressFieldMapping, column: Seq<char>)
    requires
        unique_keys(m.attributes@),
    ensures
        lookup(m.inverted_view(), column) matches Some(v) ==> lookup(m.attributes@, v.column) == Some(
            AttributeMappingView { column: column, variable: v.variable },
        ),
{
    let a = m.attributes@;
    let ip = inverted_pairs(a);
    lemma_lookup_insert_all(Seq::empty(), ip, column);
    lemma_index_of_key(Seq::<(Seq<char>, AttributeMappingView)>::empty(), column);
    lemma_last_value_found(ip, column);
    if last_value(ip, column) is Some {
        let j = choose|j: int| 0 <= j < ip.len() && #[trigger] ip[j] == (column, last_value(ip, column)->0);
        lemma_index_of_key_is(a, a[j].0, j);
    }
}

/// Each entry of `present_pairs` is a property of `p` with its column, and
/// the keys stay distinct where those of `p` are.
proof fn lemma_present_pairs_keys(p: Seq<(Seq<char>, Option<Seq<char>>)>)
    ensures
        forall|i: int| 0 <= i < present_pairs(p).len() ==> exists|j: int|
            0 <= j < p.len() && p[j].0 == (#[trigger] present_pairs(p)[i]).0 && p[j].1 == Some(present_pairs(p)[i].1),
        unique_keys(p) ==> unique_keys(present_pairs(p)),
    decreases p.len(),
{
    if p.len() > 0 {
        let q = p.drop_last();
        let x = p.last();
        lemma_present_pairs_keys(q);
        let pq = present_pairs(q);
        let pp = present_pairs(p);
        assert forall|i: int| 0 <= i < pq.len() implies exists|j: int|
            0 <= j < p.len() && p[j].0 == (#[trigger] pq[i]).0 && p[j].1 == Some(pq[i].1) by {
            let j = choose|j: int| 0 <= j < q.len() && q[j].0 == pq[i].0 && q[j].1 == Some(pq[i].1);
            assert(p[j] == q[j]);
        }
        if unique_keys(p) {
            assert(unique_keys(q)) by {
                assert forall|a: int, b: int| 0 <= a < q.len() && 0 <= b < q.len() && a != b implies q[a].0 != q[b].0 by {
                    assert(q[a] == p[a] && q[b] == p[b]);
                }
            }
        }
        match x.1 {
            Some(v) => {
                assert(pp == pq + seq![(x.0, v)]);
                assert forall|i: int| 0 <= i < pp.len() implies exists|j: int|
                    0 <= j < p.len() && p[j].0 == (#[trigger] pp[i]).0 && p[j].1 == Some(pp[i].1) by {
                    if i < pq.len() {
                        assert(pp[i] == pq[i]);
                    } else {
                        assert(p[p.len() - 1] == x);
                    }
                }
                if unique_keys(p) {
                    assert forall|a: int, b: int| 0 <= a < pp.len() && 0 <= b < pp.len() && a != b implies pp[a].0 != pp[b].0 by {
                        if a < pq.len() && b < pq.len() {
                            assert(pp[a] == pq[a] && pp[b] == pq[b]);
                        } else if a < pq.len() {
                            assert(pp[a] == pq[a]);
                            let j = choose|j: int| 0 <= j < p.len() && p[j].0 == pq[a].0 && p[j].1 == Some(pq[a].1);
                            assert(j != p.len() - 1);
                            assert(p[p.len() - 1] == x);
                        } else if b < pq.len() {
                            assert(pp[b] == pq[b]);
                            let j = choose|j: int| 0 <= j < p.len() && p[j].0 == pq[b].0 && p[j].1 == Some(pq[b].1);
                            assert(j != p.len() - 1);
                            assert(p[p.len() - 1] == x);
                        }
                    }
                }
            },
            None => {
                assert(pp =~= pq);
            },
        }
    }
}

/// `get_active_mappings` has one entry for each fixed property that has a
/// column and one for each attribute.
pub proof fn law_active_mappings_count(m: &WordPressFieldMapping)
    requires
        unique_keys(m.attributes@),
    ensures
        m.active_view().len() == present_pairs(m.fixed_pairs()).len() + m.attributes@.len(),
{
    let fp = m.fixed_pairs();
    let pp = present_pairs(fp);
    let c = attribute_columns(m.attributes@);
    lemma_fixed_names(m);
    lemma_present_pairs_keys(fp);
    lemma_attribute_columns(m.attributes@, Seq::empty());
    lemma_insert_all_fresh(Seq::<(Seq<char>, Seq<char>)>::empty(), pp);
    assert(Seq::<(Seq<char>, Seq<char>)>::empty() + pp =~= pp);
    assert forall|i: int, j: int| 0 <= i < pp.len() && 0 <= j < c.len() implies pp[i].0 != c[j].0 by {
        let k = choose|k: int| 0 <= k < fp.len() && fp[k].0 == pp[i].0 && fp[k].1 == Some(pp[i].1);
        assert(!is_attribute_name(fp[k].0));
        assert(is_attribute_name(c[j].0));
    }
    lemma_insert_all_fresh(pp, c);
}

proof fn lemma_swapped_pairs_found(p: Seq<(Seq<char>, Option<Seq<char>>)>, c: Seq<char>, j: int)
    requires
        0 <= j < p.len(),
        p[j].1 == Some(c),
    ensures
        last_value(swapped_pairs(p), c) is Some,
    decreases p.len(),
{
    let q = p.drop_last();
    let sq = swapped_pairs(q);
    match p.last().1 {
        Some(v) => {
            assert((sq + seq![(v, p.last().0)]).drop_last() =~= sq);
        },
        None => {
            assert(sq + Seq::<(Seq<char>, Seq<char>)>::empty() =~= sq);
        },
    }
    if j < p.len() - 1 {
        assert(q[j] == p[j]);
        lemma_swapped_pairs_found(q, c, j);
    }
}

/// `get_reverse_mapping` holds exactly the columns of the fixed properties.
pub proof fn law_reverse_mapping_keys(m: &WordPressFieldMapping, column: Seq<char>)
    ensures
        lookup(m.reverse_view(), column) is Some <==> exists|j: int|
            0 <= j < m.fixed_pairs().len() && #[trigger] m.fixed_pairs()[j].1 == Some(column),
{
    let fp = m.fixed_pairs();
    let sp = swapped_pairs(fp);
    lemma_lookup_insert_all(Seq::empty(), sp, column);
    lemma_index_of_key(Seq::<(Seq<char>, Seq<char>)>::empty(), column);
    lemma_swapped_pairs(fp, column);
    if last_value(sp, column) is Some {
        let j = choose|j: int| 0 <= j < fp.len() && #[trigger] fp[j] == (last_value(sp, column)->0, Some(column));
        assert(fp[j].1 == Some(column));
    }
    if exists|j: int| 0 <= j < fp.len() && #[trigger] fp[j].1 == Some(column) {
        let j = choose|j: int| 0 <= j < fp.len() && #[trigger] fp[j].1 == Some(column);
        lemma_swapped_pairs_found(fp, column, j);
    }
}

/// Where no two fixed properties share a column, `get_reverse_mapping` is
/// the inverse of the fixed part of `get_field` and of `get_active_mappings`:
/// it maps a column to a property exactly when that property, which is not
/// an attribute, is read from that column.
pub proof fn law_reverse_mapping_inverts(m: &WordPressFieldMapping, column: Seq<char>, name: Seq<char>)
    requires
        unique_keys(m.attributes@),
        forall|j: int, k: int|
            0 <= j < k < m.fixed_pairs().len() && (#[trigger] m.fixed_pairs()[j]).1 is Some ==> m.fixed_pairs()[j].1
                != (#[trigger] m.fixed_pairs()[k]).1,
    ensures
        lookup(m.reverse_view(), column) == Some(name) <==> (!is_attribute_name(name) && m.field_lookup(name) == Some(
            column,
        )),
        m.field_lookup(name) == lookup(m.active_view(), name),
{
    let fp = m.fixed_pairs();
    let sp = swapped_pairs(fp);
    lemma_fixed_names(m);
    law_reverse_mapping_points_back(m, column);
    law_get_field_agrees_with_hashmap(m, name);
    law_active_mappings_are_set_fields(m, name);
    lemma_lookup_insert_all(Seq::empty(), sp, column);
    lemma_index_of_key(Seq::<(Seq<char>, Seq<char>)>::empty(), column);
    lemma_swapped_pairs(fp, column);
    if lookup(m.reverse_view(), column) == Some(name) {
        let j = choose|j: int| 0 <= j < fp.len() && #[trigger] fp[j] == (last_value(sp, column)->0, Some(column));
        assert(fp[j].0 == name);
    }
    if !is_attribute_name(name) && m.field_lookup(name) == Some(column) {
        lemma_index_of_key(fp, name);
        let j = index_of_key(fp, name);
        assert(fp[j].1 == Some(column));
        assert forall|k: int| j < k < fp.len() implies #[trigger] fp[k].1 != Some(column) by {
            assert(fp[j].1 != fp[k].1);
        }
        law_reverse_mapping_finds_property(m, column, j);
    }
}

/// `get_reverse_mapping` never gives an attribute: every property it maps a
/// column to is a fixed property, whose name does not start with
/// `attribute_`, whether or not columns repeat.
pub proof fn law_reverse_mapping_has_no_attributes(m: &WordPressFieldMapping, column: Seq<char>)
    ensures
        lookup(m.reverse_view(), column) matches Some(n) ==> !is_attribute_name(n) && exists|j: int|
            0 <= j < m.fixed_pairs().len() && #[trigger] m.fixed_pairs()[j] == (n, Some(column)),
{
    let fp = m.fixed_pairs();
    let sp = swapped_pairs(fp);
    lemma_fixed_names(m);
    lemma_lookup_insert_all(Seq::empty(), sp, column);
    lemma_index_of_key(Seq::<(Seq<char>, Seq<char>)>::empty(), column);
    lemma_swapped_pairs(fp, column);
    if last_value(sp, column) is Some {
        let j = choose|j: int| 0 <= j < fp.len() && #[trigger] fp[j] == (last_value(sp, column)->0, Some(column));
        assert(!is_attribute_name(fp[j].0));
    }
}

impl WordPressFieldMapping {
    /// Each fixed property with its column, in the listed order.
    pub open spec fn fixed_pairs(&self) -> Seq<(Seq<char>, Option<Seq<char>>)> {
        seq![
            ("id"@, self.id.deep_view()),
            ("type"@, self.type_.deep_view()),
            ("sku"@, self.sku.deep_view()),
            ("global_unique_id"@, self.global_unique_id.deep_view()),
            ("name"@, self.name.deep_view()),
            ("published"@, self.published.deep_view()),
            ("featured"@, self.featured.deep_view()),
            ("catalog_visibility"@, self.catalog_visibility.deep_view()),
            ("short_description"@, self.short_description.deep_view()),
            ("description"@, self.description.deep_view()),
            ("regular_price"@, self.regular_price.deep_view()),
            ("sale_price"@, self.sale_price.deep_view()),
            ("date_on_sale_from"@, self.date_on_sale_from.deep_view()),
            ("date_on_sale_to"@, self.date_on_sale_to.deep_view()),
            ("tax_status"@, self.tax_status.deep_view()),
            ("tax_class"@, self.tax_class.deep_view()),
            ("stock_status"@, self.stock_status.deep_view()),
            ("stock_quantity"@, self.stock_quantity.deep_view()),
            ("backorders"@, self.backorders.deep_view()),
            ("low_stock_amount"@, self.low_stock_amount.deep_view()),
            ("sold_individually"@, self.sold_individually.deep_view()),
            ("weight"@, self.weight.deep_view()),
            ("length"@, self.length.deep_view()),
            ("width"@, self.width.deep_view()),
            ("height"@, self.height.deep_view()),
            ("category_ids"@, self.category_ids.deep_view()),
            ("tag_ids"@, self.tag_ids.deep_view()),
            ("tag_ids_spaces"@, self.tag_ids_spaces.deep_view()),
            ("shipping_class_id"@, self.shipping_class_id.deep_view()),
            ("images"@, self.images.deep_view()),
            ("parent_id"@, self.parent_id.deep_view()),
            ("upsell_ids"@, self.upsell_ids.deep_view()),
            ("cross_sell_ids"@, self.cross_sell_ids.deep_view()),
            ("grouped_products"@, self.grouped_products.deep_view()),
            ("product_url"@, self.product_url.deep_view()),
            ("button_text"@, self.button_text.deep_view()),
            ("download_limit"@, self.download_limit.deep_view()),
            ("download_expiry"@, self.download_expiry.deep_view()),
            ("reviews_allowed"@, self.reviews_allowed.deep_view()),
            ("purchase_note"@, self.purchase_note.deep_view()),
            ("menu_order"@, self.menu_order.deep_view()),
            ("brand_ids"@, self.brand_ids.deep_view()),
        ]
    }

    /// The entries of `to_hashmap`.
    pub open spec fn hashmap_view(&self) -> Seq<(Seq<char>, Option<Seq<char>>)> {
        insert_all(
            insert_all(Seq::empty(), self.fixed_pairs()),
            attribute_columns(self.attributes@).map_values(
                |p: (Seq<char>, Seq<char>)| (p.0, Some(p.1)),
            ),
        )
    }

    /// The column that `get_field` gives for a property name.
    pub open spec fn field_lookup(&self, name: Seq<char>) -> Option<Seq<char>> {
        if "attribute_"@.len() <= name.len() && name.take("attribute_"@.len() as int) == "attribute_"@ {
            match lookup(self.attributes@, name.skip("attribute_"@.len() as int)) {
                Some(a) => Some(a.column),
                None => None,
            }
        } else {
            match lookup(self.fixed_pairs(), name) {
                Some(v) => v,
                None => None,
            }
        }
    }

    /// The entries of `get_active_mappings`.
    pub open spec fn active_view(&self) -> Seq<(Seq<char>, Seq<char>)> {
        insert_all(
            insert_all(Seq::empty(), present_pairs(self.fixed_pairs())),
            attribute_columns(self.attributes@),
        )
    }

    /// The entries of `get_reverse_mapping`.
    pub open spec fn reverse_view(&self) -> Seq<(Seq<char>, Seq<char>)> {
        insert_all(Seq::empty(), swapped_pairs(self.fixed_pairs()))
    }

    /// The entries of `get_inverted_attribute`.
    pub open spec fn inverted_view(&self) -> Seq<(Seq<char>, AttributeMappingView)> {
        insert_all(Seq::empty(), inverted_pairs(self.attributes@))
    }

    fn fixed_fields(&self) -> (r: Vec<(&'static str, &Option<String>)>)
        ensures
            r.deep_view() == self.fixed_pairs(),
    {
        let mut r: Vec<(&'static str, &Option<String>)> = Vec::new();
        r.push(("id", &self.id));
        r.push(("type", &self.type_));
        r.push(("sku", &self.sku));
        r.push(("global_unique_id", &self.global_unique_id));
        r.push(("name", &self.name));
        r.push(("published", &self.published));
        r.push(("featured", &self.featured));
        r.push(("catalog_visibility", &self.catalog_visibility));
        r.push(("short_description", &self.short_description));
        r.push(("description", &self.description));
        r.push(("regular_price", &self.regular_price));
        r.push(("sale_price", &self.sale_price));
        r.push(("date_on_sale_from", &self.date_on_sale_from));
        r.push(("date_on_sale_to", &self.date_on_sale_to));
        r.push(("tax_status", &self.tax_status));
        r.push(("tax_class", &self.tax_class));
        r.push(("stock_status", &self.stock_status));
        r.push(("stock_quantity", &self.stock_quantity));
        r.push(("backorders", &self.backorders));
        r.push(("low_stock_amount", &self.low_stock_amount));
        r.push(("sold_individually", &self.sold_individually));
        r.push(("weight", &self.weight));
        r.push(("length", &self.length));
        r.push(("width", &self.width));
        r.push(("height", &self.height));
        r.push(("category_ids", &self.category_ids));
        r.push(("tag_ids", &self.tag_ids));
        r.push(("tag_ids_spaces", &self.tag_ids_spaces));
        r.push(("shipping_class_id", &self.shipping_class_id));
        r.push(("images", &self.images));
        r.push(("parent_id", &self.parent_id));
        r.push(("upsell_ids", &self.upsell_ids));
        r.push(("cross_sell_ids", &self.cross_sell_ids));
        r.push(("grouped_products", &self.grouped_products));
        r.push(("product_url", &self.product_url));
        r.push(("button_text", &self.button_text));
        r.push(("download_limit", &self.download_limit));
        r.push(("download_expiry", &self.download_expiry));
        r.push(("reviews_allowed", &self.reviews_allowed));
        r.push(("purchase_note", &self.purchase_note));
        r.push(("menu_order", &self.menu_order));
        r.push(("brand_ids", &self.brand_ids));
        assert(r.deep_view() =~= self.fixed_pairs());
        r
    }

    /// Every property with its column (`None` where it has none), and every
    /// attribute as `attribute_<key>` with its column.
    pub fn to_hashmap(&self) -> (r: StrMap<Option<String>>)
        ensures
            r@ == self.hashmap_view(),
    {
        let fixed = self.fixed_fields();
        let mut map: StrMap<Option<String>> = StrMap::new();
        let mut i: usize = 0;
        while i < fixed.len()
            invariant
                i <= fixed.len(),
                fixed.deep_view() == self.fixed_pairs(),
                map@ == insert_all(Seq::empty(), self.fixed_pairs().take(i as int)),
            decreases fixed.len() - i,
        {
            let name: &str = fixed[i].0;
            let value: &Option<String> = fixed[i].1;
            assert(self.fixed_pairs().take(i as int + 1).drop_last() == self.fixed_pairs().take(i as int));
            map.insert(name.to_owned(), clone_opt(value));
            i = i + 1;
        }
        assert(self.fixed_pairs().take(fixed.len() as int) == self.fixed_pairs());
        let ghost base = map@;
        let attrs = self.attributes.entries();
        let ghost ap = attribute_columns(self.attributes@).map_values(
            |p: (Seq<char>, Seq<char>)| (p.0, Some(p.1)),
        );
        let mut j: usize = 0;
        while j < attrs.len()
            invariant
                j <= attrs.len(),
                attrs.deep_view() == self.attributes@,
                ap == attribute_columns(self.attributes@).map_values(
                    |p: (Seq<char>, Seq<char>)| (p.0, Some(p.1)),
                ),
                map@ == insert_all(base, ap.take(j as int)),
            decreases attrs.len() - j,
        {
            let key = concat("attribute_", attrs[j].0.as_str());
            let col = attrs[j].1.column.clone();
            assert(ap.take(j as int + 1).drop_last() == ap.take(j as int));
            assert(attrs.deep_view()[j as int] == attrs@[j as int].deep_view());
            map.insert(key, Some(col));
            j = j + 1;
        }
        assert(ap.take(attrs.len() as int) == ap);
        map
    }

    /// The column of a property, or of an attribute when the name is
    /// `attribute_<key>`.
    pub fn get_field(&self, property_name: &str) -> (r: Option<&String>)
        ensures
            r.deep_view() == self.field_lookup(property_name@),
    {
        match strip_prefix(property_name, "attribute_") {
            Some(attr) => match self.attributes.get(attr.as_str()) {
                Some(a) => {
                    assert(self.field_lookup(property_name@) == Some(a.column@));
                    Some(&a.column)
                },
                None => {
                    assert(self.field_lookup(property_name@) is None);
                    None
                },
            },
            None => {
                let fixed = self.fixed_fields();
                let mut j: usize = 0;
                while j < fixed.len()
                    invariant
                        j <= fixed.len(),
                        fixed.deep_view() == self.fixed_pairs(),
                        forall|t: int| 0 <= t < j ==> #[trigger] self.fixed_pairs()[t].0 != property_name@,
                        self.field_lookup(property_name@) == match lookup(self.fixed_pairs(), property_name@) {
                            Some(v) => v,
                            None => None,
                        },
                    decreases fixed.len() - j,
                {
                    assert(fixed.deep_view()[j as int] == (fixed@[j as int].0@, fixed@[j as int].1.deep_view()));
                    if str_eq(fixed[j].0, property_name) {
                        proof {
                            lemma_index_of_key_is(self.fixed_pairs(), property_name@, j as int);
                        }
                        assert(lookup(self.fixed_pairs(), property_name@) == Some(fixed@[j as int].1.deep_view()));
                        let r = match fixed[j].1 {
                            Some(s) => Some(s),
                            None => None,
                        };
                        assert(r.deep_view() == self.field_lookup(property_name@));
                        return r;
                    }
                    j = j + 1;
                }
                assert(fixed.deep_view().len() == fixed@.len());
                proof {
                    lemma_index_of_key_is(self.fixed_pairs(), property_name@, -1);
                }
                assert(self.field_lookup(property_name@) is None);
                None
            },
        }
    }

    /// Every property that has a column, with that column, and every
    /// attribute as `attribute_<key>` with its column.
    pub fn get_active_mappings(&self) -> (r: StrMap<String>)
        ensures
            r@ == self.active_view(),
    {
        let fixed = self.fixed_fields();
        let mut map: StrMap<String> = StrMap::new();
        let mut i: usize = 0;
        while i < fixed.len()
            invariant
                i <= fixed.len(),
                fixed.deep_view() == self.fixed_pairs(),
                map@ == insert_all(Seq::empty(), present_pairs(self.fixed_pairs().take(i as int))),
            decreases fixed.len() - i,
        {
            let name: &str = fixed[i].0;
            let value: &Option<String> = fixed[i].1;
            assert(self.fixed_pairs().take(i as int + 1).drop_last() == self.fixed_pairs().take(i as int));
            assert(fixed.deep_view()[i as int] == (name@, value.deep_view()));
            assert(self.fixed_pairs().take(i as int + 1).last() == (name@, value.deep_view()));
            match value {
                Some(v) => {
                    map.insert(name.to_owned(), v.clone());
                    assert(present_pairs(self.fixed_pairs().take(i as int + 1)) =~= present_pairs(
                        self.fixed_pairs().take(i as int),
                    ).push((name@, v@)));
                    assert(present_pairs(self.fixed_pairs().take(i as int + 1)).drop_last() =~= present_pairs(
                        self.fixed_pairs().take(i as int),
                    ));
                },
                None => {
                    assert(present_pairs(self.fixed_pairs().take(i as int + 1)) =~= present_pairs(
                        self.fixed_pairs().take(i as int),
                    ));
                },
            }
            i = i + 1;
        }
        assert(self.fixed_pairs().take(fixed.len() as int) == self.fixed_pairs());
        let ghost base = map@;
        let attrs = self.attributes.entries();
        let ghost ap = attribute_columns(self.attributes@);
        let mut j: usize = 0;
        while j < attrs.len()
            invariant
                j <= attrs.len(),
                attrs.deep_view() == self.attributes@,
                ap == attribute_columns(self.attributes@),
                map@ == insert_all(base, ap.take(j as int)),
            decreases attrs.len() - j,
        {
            let key = concat("attribute_", attrs[j].0.as_str());
            let col = attrs[j].1.column.clone();
            assert(ap.take(j as int + 1).drop_last() == ap.take(j as int));
            assert(attrs.deep_view()[j as int] == attrs@[j as int].deep_view());
            map.insert(key, col);
            j = j + 1;
        }
        assert(ap.take(attrs.len() as int) == ap);
        map
    }

    /// From each column back to the property read from it; where two
    /// properties share a column, the later one in the list wins.
    /// Attributes are left out.
    pub fn get_reverse_mapping(&self) -> (r: StrMap<String>)
        ensures
            r@ == self.reverse_view(),
    {
        let fixed = self.fixed_fields();
        let mut map: StrMap<String> = StrMap::new();
        let mut i: usize = 0;
        while i < fixed.len()
            invariant
                i <= fixed.len(),
                fixed.deep_view() == self.fixed_pairs(),
                map@ == insert_all(Seq::empty(), swapped_pairs(self.fixed_pairs().take(i as int))),
            decreases fixed.len() - i,
        {
            let name: &str = fixed[i].0;
            let value: &Option<String> = fixed[i].1;
            assert(self.fixed_pairs().take(i as int + 1).drop_last() == self.fixed_pairs().take(i as int));
            assert(fixed.deep_view()[i as int] == (name@, value.deep_view()));
            assert(self.fixed_pairs().take(i as int + 1).last() == (name@, value.deep_view()));
            match value {
                Some(v) => {
                    map.insert(v.clone(), name.to_owned());
                    assert(swapped_pairs(self.fixed_pairs().take(i as int + 1)) =~= swapped_pairs(
                        self.fixed_pairs().take(i as int),
                    ).push((v@, name@)));
                    assert(swapped_pairs(self.fixed_pairs().take(i as int + 1)).drop_last() =~= swapped_pairs(
                        self.fixed_pairs().take(i as int),
                    ));
                },
                None => {
                    assert(swapped_pairs(self.fixed_pairs().take(i as int + 1)) =~= swapped_pairs(
                        self.fixed_pairs().take(i as int),
                    ));
                },
            }
            i = i + 1;
        }
        assert(self.fixed_pairs().take(fixed.len() as int) == self.fixed_pairs());
        map
    }

    /// Adds or replaces an attribute.
    pub fn add_attribute(&mut self, key: String, value: AttributeMapping)
        ensures
            final(self).attributes@ == inserted(old(self).attributes@, key@, value@),
            final(self).fixed_pairs() == old(self).fixed_pairs(),
    {
        self.attributes.insert(key, value);
    }

    /// The attribute stored under `key`.
    pub fn get_attribute(&self, key: &str) -> (r: Option<&AttributeMapping>)
        ensures
            r.deep_view() == lookup(self.attributes@, key@),
    {
        self.attributes.get(key)
    }

    /// Removes an attribute, handing it back.
    pub fn remove_attribute(&mut self, key: &str) -> (r: Option<AttributeMapping>)
        ensures
            final(self).attributes@ == removed(old(self).attributes@, key@),
            final(self).fixed_pairs() == old(self).fixed_pairs(),
            r.deep_view() == lookup(old(self).attributes@, key@),
    {
        self.attributes.remove(key)
    }

    /// All attributes.
    pub fn get_all_attributes(&self) -> (r: &StrMap<AttributeMapping>)
        ensures
            r@ == self.attributes@,
    {
        &self.attributes
    }

    /// The attributes keyed by their columns, each holding its key as the
    /// column (where two attributes share a column, the later one wins).
    pub fn get_inverted_attribute(&self) -> (r: StrMap<AttributeMapping>)
        ensures
            r@ == self.inverted_view(),
    {
        let attrs = self.attributes.entries();
        let ghost ip = inverted_pairs(self.attributes@);
        let mut map: StrMap<AttributeMapping> = StrMap::new();
        let mut j: usize = 0;
        while j < attrs.len()
            invariant
                j <= attrs.len(),
                attrs.deep_view() == self.attributes@,
                ip == inverted_pairs(self.attributes@),
                map@ == insert_all(Seq::empty(), ip.take(j as int)),
            decreases attrs.len() - j,
        {
            let key = attrs[j].1.column.clone();
            let value = AttributeMapping { column: attrs[j].0.clone(), variable: attrs[j].1.variable };
            assert(ip.take(j as int + 1).drop_last() == ip.take(j as int));
            assert(attrs.deep_view()[j as int] == attrs@[j as int].deep_view());
            map.insert(key, value);
            j = j + 1;
        }
        assert(ip.take(attrs.len() as int) == ip);
        map
    }
}

/// The default priority of a queued file.
pub fn default_priority() -> (r: u8)
    ensures
        r == 1,
{
    1
}

/// The mapping used when a queued file names none.
pub fn default_wordpress_field_mapping() -> (r: WordPressFieldMapping)
    ensures
        r.id.deep_view() == Some("ID FROM wp"@),
        r.type_.deep_view() == Some("Product Type"@),
        r.sku.deep_view() == Some("SKU"@),
        r.global_unique_id.deep_view() == Some("Product Attribute: EAN"@),
        r.name.deep_view() == Some("Title"@),
        r.published is None,
        r.featured.deep_view() == Some("Featured Image"@),
        r.catalog_visibility.deep_view() == Some("Catalog Visibility"@),
        r.short_description.deep_view() == Some("Short Description"@),
        r.description.deep_view() == Some("Description"@),
        r.regular_price.deep_view() == Some("Regular Price"@),
        r.sale_price.deep_view() == Some("Sale Price"@),
        r.date_on_sale_from is None,
        r.date_on_sale_to is None,
        r.tax_status is None,
        r.tax_class is None,
        r.stock_status is None,
        r.stock_quantity.deep_view() == Some("Stock"@),
        r.backorders is None,
        r.low_stock_amount is None,
        r.sold_individually is None,
        r.weight.deep_view() == Some("Weight"@),
        r.length is None,
        r.width is None,
        r.height is None,
        r.category_ids.deep_view() == Some("Categories"@),
        r.tag_ids.deep_view() == Some("Tags"@),
        r.tag_ids_spaces is None,
        r.shipping_class_id.deep_view() == Some("Shipping Class"@),
        r.images.deep_view() == Some("Product Image Gallery"@),
        r.parent_id.deep_view() == Some("Parent"@),
        r.upsell_ids is None,
        r.cross_sell_ids is None,
        r.grouped_products is None,
        r.product_url.deep_view() == Some("Slug"@),
        r.button_text is None,
        r.download_limit is None,
        r.download_expiry is None,
        r.reviews_allowed is None,
        r.purchase_note is None,
        r.menu_order is None,
        r.brand_ids.deep_view() == Some("Product Attribute: Brand"@),
        r.attributes@.len() == 0,
{
    WordPressFieldMapping {
        id: Some("ID FROM wp".to_owned()),
        type_: Some("Product Type".to_owned()),
        sku: Some("SKU".to_owned()),
        global_unique_id: Some("Product Attribute: EAN".to_owned()),
        name: Some("Title".to_owned()),
        published: None,
        featured: Some("Featured Image".to_owned()),
        catalog_visibility: Some("Catalog Visibility".to_owned()),
        short_description: Some("Short Description".to_owned()),
        description: Some("Description".to_owned()),
        regular_price: Some("Regular Price".to_owned()),
        sale_price: Some("Sale Price".to_owned()),
        date_on_sale_from: None,
        date_on_sale_to: None,
        tax_status: None,
        tax_class: None,
        stock_status: None,
        stock_quantity: Some("Stock".to_owned()),
        backorders: None,
        low_stock_amount: None,
        sold_individually: None,
        weight: Some("Weight".to_owned()),
        length: None,
        width: None,
        height: None,
        category_ids: Some("Categories".to_owned()),
        tag_ids: Some("Tags".to_owned()),
        tag_ids_spaces: None,
        shipping_class_id: Some("Shipping Class".to_owned()),
        images: Some("Product Image Gallery".to_owned()),
        parent_id: Some("Parent".to_owned()),
        upsell_ids: None,
        cross_sell_ids: None,
        grouped_products: None,
        product_url: Some("Slug".to_owned()),
        button_text: None,
        download_limit: None,
        download_expiry: None,
        reviews_allowed: None,
        purchase_note: None,
        menu_order: None,
        brand_ids: Some("Product Attribute: Brand".to_owned()),
        attributes: StrMap::new(),
    }
}

} // verus!
