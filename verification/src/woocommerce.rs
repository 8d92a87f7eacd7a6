//! WooCommerce products and variations: their data, how two versions of one
//! are merged and compared, and when one may be created.
use vstd::prelude::*;
use crate::text::{ascii_lowered, is_ascii_text, lowercase, lowered, str_eq};
use crate::value::{Duplicate, ViewEq};

verus! {

/// A product category or tag.
pub struct Category {
    pub id: Option<i32>,
    pub name: String,
    pub slug: String,
}

pub struct CategoryView {
    pub id: Option<i32>,
    pub name: Seq<char>,
    pub slug: Seq<char>,
}

impl View for Category {
    type V = CategoryView;

    open spec fn view(&self) -> CategoryView {
        CategoryView {
            id: self.id.deep_view(),
            name: self.name.deep_view(),
            slug: self.slug.deep_view(),
        }
    }
}

impl DeepView for Category {
    type V = CategoryView;

    open spec fn deep_view(&self) -> CategoryView {
        self.view()
    }
}

impl ViewEq for Category {
    fn same_as(&self, other: &Self) -> (r: bool) {
        self.id.same_as(&other.id)
            && self.name.same_as(&other.name)
            && self.slug.same_as(&other.slug)
    }
}

impl Duplicate for Category {
    fn duplicate(&self) -> (r: Self) {
        Category {
            id: self.id.duplicate(),
            name: self.name.duplicate(),
            slug: self.slug.duplicate(),
        }
    }
}

/// An image of a product.
pub struct ProductImage {
    pub src: String,
    pub name: Option<String>,
    pub alt: Option<String>,
}

pub struct ProductImageView {
    pub src: Seq<char>,
    pub name: Option<Seq<char>>,
    pub alt: Option<Seq<char>>,
}

impl View for ProductImage {
    type V = ProductImageView;

    open spec fn view(&self) -> ProductImageView {
        ProductImageView {
            src: self.src.deep_view(),
            name: self.name.deep_view(),
            alt: self.alt.deep_view(),
        }
    }
}

impl DeepView for ProductImage {
    type V = ProductImageView;

    open spec fn deep_view(&self) -> ProductImageView {
        self.view()
    }
}

impl ViewEq for ProductImage {
    fn same_as(&self, other: &Self) -> (r: bool) {
        self.src.same_as(&other.src)
            && self.name.same_as(&other.name)
            && self.alt.same_as(&other.alt)
    }
}

impl Duplicate for ProductImage {
    fn duplicate(&self) -> (r: Self) {
        ProductImage {
            src: self.src.duplicate(),
            name: self.name.duplicate(),
            alt: self.alt.duplicate(),
        }
    }
}

/// A product attribute with the options it offers.
pub struct ProductAttribute {
    pub name: String,
    pub position: Option<i32>,
    pub visible: Option<bool>,
    pub variation: Option<bool>,
    pub options: Vec<String>,
}

pub struct ProductAttributeView {
    pub name: Seq<char>,
    pub position: Option<i32>,
    pub visible: Option<bool>,
    pub variation: Option<bool>,
    pub options: Seq<Seq<char>>,
}

impl View for ProductAttribute {
    type V = ProductAttributeView;

    open spec fn view(&self) -> ProductAttributeView {
        ProductAttributeView {
            name: self.name.deep_view(),
            position: self.position.deep_view(),
            visible: self.visible.deep_view(),
            variation: self.variation.deep_view(),
            options: self.options.deep_view(),
        }
    }
}

impl DeepView for ProductAttribute {
    type V = ProductAttributeView;

    open spec fn deep_view(&self) -> ProductAttributeView {
        self.view()
    }
}

impl ViewEq for ProductAttribute {
    fn same_as(&self, other: &Self) -> (r: bool) {
        self.name.same_as(&other.name)
            && self.position.same_as(&other.position)
            && self.visible.same_as(&other.visible)
            && self.variation.same_as(&other.variation)
            && self.options.same_as(&other.options)
    }
}

impl Duplicate for ProductAttribute {
    fn duplicate(&self) -> (r: Self) {
        ProductAttribute {
            name: self.name.duplicate(),
            position: self.position.duplicate(),
            visible: self.visible.duplicate(),
            variation: self.variation.duplicate(),
            options: self.options.duplicate(),
        }
    }
}

/// The option a variation takes for one attribute.
pub struct VariationAttribute {
    pub name: String,
    pub option: String,
}

pub struct VariationAttributeView {
    pub name: Seq<char>,
    pub option: Seq<char>,
}

impl View for VariationAttribute {
    type V = VariationAttributeView;

    open spec fn view(&self) -> VariationAttributeView {
        VariationAttributeView {
            name: self.name.deep_view(),
            option: self.option.deep_view(),
        }
    }
}

impl DeepView for VariationAttribute {
    type V = VariationAttributeView;

    open spec fn deep_view(&self) -> VariationAttributeView {
        self.view()
    }
}

impl ViewEq for VariationAttribute {
    fn same_as(&self, other: &Self) -> (r: bool) {
        self.name.same_as(&other.name)
            && self.option.same_as(&other.option)
    }
}

impl Duplicate for VariationAttribute {
    fn duplicate(&self) -> (r: Self) {
        VariationAttribute {
            name: self.name.duplicate(),
            option: self.option.duplicate(),
        }
    }
}

/// A product's dimensions, as texts.
pub struct ProductDimension {
    pub length: String,
    pub width: String,
    pub height: String,
}

pub struct ProductDimensionView {
    pub length: Seq<char>,
    pub width: Seq<char>,
    pub height: Seq<char>,
}

impl View for ProductDimension {
    type V = ProductDimensionView;

    open spec fn view(&self) -> ProductDimensionView {
        ProductDimensionView {
            length: self.length.deep_view(),
            width: self.width.deep_view(),
            height: self.height.deep_view(),
        }
    }
}

impl DeepView for ProductDimension {
    type V = ProductDimensionView;

    open spec fn deep_view(&self) -> ProductDimensionView {
        self.view()
    }
}

impl ViewEq for ProductDimension {
    fn same_as(&self, other: &Self) -> (r: bool) {
        self.length.same_as(&other.length)
            && self.width.same_as(&other.width)
            && self.height.same_as(&other.height)
    }
}

impl Duplicate for ProductDimension {
    fn duplicate(&self) -> (r: Self) {
        ProductDimension {
            length: self.length.duplicate(),
            width: self.width.duplicate(),
            height: self.height.duplicate(),
        }
    }
}

/// A metadata entry; the value is a JSON string value.
pub struct KeyValue {
    pub key: String,
    pub value: String,
}

pub struct KeyValueView {
    pub key: Seq<char>,
    pub value: Seq<char>,
}

impl View for KeyValue {
    type V = KeyValueView;

    open spec fn view(&self) -> KeyValueView {
        KeyValueView {
            key: self.key.deep_view(),
            value: self.value.deep_view(),
        }
    }
}

impl DeepView for KeyValue {
    type V = KeyValueView;

    open spec fn deep_view(&self) -> KeyValueView {
        self.view()
    }
}

impl ViewEq for KeyValue {
    fn same_as(&self, other: &Self) -> (r: bool) {
        self.key.same_as(&other.key)
            && self.value.same_as(&other.value)
    }
}

impl Duplicate for KeyValue {
    fn duplicate(&self) -> (r: Self) {
        KeyValue {
            key: self.key.duplicate(),
            value: self.value.duplicate(),
        }
    }
}

/// A WooCommerce product as the REST API takes and gives it.
pub struct WooCommerceProduct {
    pub id: String,
    pub name: String,
    pub sku: String,
    pub type_: String,
    pub parent: String,
    pub featured: bool,
    pub regular_price: String,
    pub sale_price: Option<String>,
    pub description: String,
    pub short_description: String,
    pub weight: Option<String>,
    pub categories: Vec<Category>,
    pub tags: Vec<Category>,
    pub images: Vec<ProductImage>,
    pub variations: Vec<u64>,
    pub attributes: Vec<ProductAttribute>,
    pub manage_stock: Option<bool>,
    pub stock_quantity: Option<i32>,
    pub stock_status: Option<String>,
    pub shipping_class: Option<String>,
    pub dimensions: Option<ProductDimension>,
    pub meta_data: Vec<KeyValue>,
}

pub struct WooCommerceProductView {
    pub id: Seq<char>,
    pub name: Seq<char>,
    pub sku: Seq<char>,
    pub type_: Seq<char>,
    pub parent: Seq<char>,
    pub featured: bool,
    pub regular_price: Seq<char>,
    pub sale_price: Option<Seq<char>>,
    pub description: Seq<char>,
    pub short_description: Seq<char>,
    pub weight: Option<Seq<char>>,
    pub categories: Seq<CategoryView>,
    pub tags: Seq<CategoryView>,
    pub images: Seq<ProductImageView>,
    pub variations: Seq<u64>,
    pub attributes: Seq<ProductAttributeView>,
    pub manage_stock: Option<bool>,
    pub stock_quantity: Option<i32>,
    pub stock_status: Option<Seq<char>>,
    pub shipping_class: Option<Seq<char>>,
    pub dimensions: Option<ProductDimensionView>,
    pub meta_data: Seq<KeyValueView>,
}

impl View for WooCommerceProduct {
    type V = WooCommerceProductView;

    open spec fn view(&self) -> WooCommerceProductView {
        WooCommerceProductView {
            id: self.id.deep_view(),
            name: self.name.deep_view(),
            sku: self.sku.deep_view(),
            type_: self.type_.deep_view(),
            parent: self.parent.deep_view(),
            featured: self.featured.deep_view(),
            regular_price: self.regular_price.deep_view(),
            sale_price: self.sale_price.deep_view(),
            description: self.description.deep_view(),
            short_description: self.short_description.deep_view(),
            weight: self.weight.deep_view(),
            categories: self.categories.deep_view(),
            tags: self.tags.deep_view(),
            images: self.images.deep_view(),
            variations: self.variations.deep_view(),
            attributes: self.attributes.deep_view(),
            manage_stock: self.manage_stock.deep_view(),
            stock_quantity: self.stock_quantity.deep_view(),
            stock_status: self.stock_status.deep_view(),
            shipping_class: self.shipping_class.deep_view(),
            dimensions: self.dimensions.deep_view(),
            meta_data: self.meta_data.deep_view(),
        }
    }
}

impl DeepView for WooCommerceProduct {
    type V = WooCommerceProductView;

    open spec fn deep_view(&self) -> WooCommerceProductView {
        self.view()
    }
}

impl ViewEq for WooCommerceProduct {
    fn same_as(&self, other: &Self) -> (r: bool) {
        self.id.same_as(&other.id)
            && self.name.same_as(&other.name)
            && self.sku.same_as(&other.sku)
            && self.type_.same_as(&other.type_)
            && self.parent.same_as(&other.parent)
            && self.featured.same_as(&other.featured)
            && self.regular_price.same_as(&other.regular_price)
            && self.sale_price.same_as(&other.sale_price)
            && self.description.same_as(&other.description)
            && self.short_description.same_as(&other.short_description)
            && self.weight.same_as(&other.weight)
            && self.categories.same_as(&other.categories)
            && self.tags.same_as(&other.tags)
            && self.images.same_as(&other.images)
            && self.variations.same_as(&other.variations)
            && self.attributes.same_as(&other.attributes)
            && self.manage_stock.same_as(&other.manage_stock)
            && self.stock_quantity.same_as(&other.stock_quantity)
            && self.stock_status.same_as(&other.stock_status)
            && self.shipping_class.same_as(&other.shipping_class)
            && self.dimensions.same_as(&other.dimensions)
            && self.meta_data.same_as(&other.meta_data)
    }
}

impl Duplicate for WooCommerceProduct {
    fn duplicate(&self) -> (r: Self) {
        WooCommerceProduct {
            id: self.id.duplicate(),
            name: self.name.duplicate(),
            sku: self.sku.duplicate(),
            type_: self.type_.duplicate(),
            parent: self.parent.duplicate(),
            featured: self.featured.duplicate(),
            regular_price: self.regular_price.duplicate(),
            sale_price: self.sale_price.duplicate(),
            description: self.description.duplicate(),
            short_description: self.short_description.duplicate(),
            weight: self.weight.duplicate(),
            categories: self.categories.duplicate(),
            tags: self.tags.duplicate(),
            images: self.images.duplicate(),
            variations: self.variations.duplicate(),
            attributes: self.attributes.duplicate(),
            manage_stock: self.manage_stock.duplicate(),
            stock_quantity: self.stock_quantity.duplicate(),
            stock_status: self.stock_status.duplicate(),
            shipping_class: self.shipping_class.duplicate(),
            dimensions: self.dimensions.duplicate(),
            meta_data: self.meta_data.duplicate(),
        }
    }
}

/// A variation of a variable WooCommerce product.
pub struct ProductVariation {
    pub id: String,
    pub sku: String,
    pub parent: String,
    pub description: String,
    pub regular_price: String,
    pub sale_price: String,
    pub attributes: Vec<VariationAttribute>,
    pub stock_quantity: Option<i32>,
    pub image: Option<ProductImage>,
    pub stock_status: Option<String>,
    pub weight: Option<String>,
    pub shipping_class: Option<String>,
    pub dimensions: Option<ProductDimension>,
    pub meta_data: Vec<KeyValue>,
}

pub struct ProductVariationView {
    pub id: Seq<char>,
    pub sku: Seq<char>,
    pub parent: Seq<char>,
    pub description: Seq<char>,
    pub regular_price: Seq<char>,
    pub sale_price: Seq<char>,
    pub attributes: Seq<VariationAttributeView>,
    pub stock_quantity: Option<i32>,
    pub image: Option<ProductImageView>,
    pub stock_status: Option<Seq<char>>,
    pub weight: Option<Seq<char>>,
    pub shipping_class: Option<Seq<char>>,
    pub dimensions: Option<ProductDimensionView>,
    pub meta_data: Seq<KeyValueView>,
}

impl View for ProductVariation {
    type V = ProductVariationView;

    open spec fn view(&self) -> ProductVariationView {
        ProductVariationView {
            id: self.id.deep_view(),
            sku: self.sku.deep_view(),
            parent: self.parent.deep_view(),
            description: self.description.deep_view(),
            regular_price: self.regular_price.deep_view(),
            sale_price: self.sale_price.deep_view(),
            attributes: self.attributes.deep_view(),
            stock_quantity: self.stock_quantity.deep_view(),
            image: self.image.deep_view(),
            stock_status: self.stock_status.deep_view(),
            weight: self.weight.deep_view(),
            shipping_class: self.shipping_class.deep_view(),
            dimensions: self.dimensions.deep_view(),
            meta_data: self.meta_data.deep_view(),
        }
    }
}

impl DeepView for ProductVariation {
    type V = ProductVariationView;

    open spec fn deep_view(&self) -> ProductVariationView {
        self.view()
    }
}

impl ViewEq for ProductVariation {
    fn same_as(&self, other: &Self) -> (r: bool) {
        self.id.same_as(&other.id)
            && self.sku.same_as(&other.sku)
            && self.parent.same_as(&other.parent)
            && self.description.same_as(&other.description)
            && self.regular_price.same_as(&other.regular_price)
            && self.sale_price.same_as(&other.sale_price)
            && self.attributes.same_as(&other.attributes)
            && self.stock_quantity.same_as(&other.stock_quantity)
            && self.image.same_as(&other.image)
            && self.stock_status.same_as(&other.stock_status)
            && self.weight.same_as(&other.weight)
            && self.shipping_class.same_as(&other.shipping_class)
            && self.dimensions.same_as(&other.dimensions)
            && self.meta_data.same_as(&other.meta_data)
    }
}

impl Duplicate for ProductVariation {
    fn duplicate(&self) -> (r: Self) {
        ProductVariation {
            id: self.id.duplicate(),
            sku: self.sku.duplicate(),
            parent: self.parent.duplicate(),
            description: self.description.duplicate(),
            regular_price: self.regular_price.duplicate(),
            sale_price: self.sale_price.duplicate(),
            attributes: self.attributes.duplicate(),
            stock_quantity: self.stock_quantity.duplicate(),
            image: self.image.duplicate(),
            stock_status: self.stock_status.duplicate(),
            weight: self.weight.duplicate(),
            shipping_class: self.shipping_class.duplicate(),
            dimensions: self.dimensions.duplicate(),
            meta_data: self.meta_data.duplicate(),
        }
    }
}


/// `b` where it is not empty, else `a`.
pub open spec fn merge_text(a: Seq<char>, b: Seq<char>) -> Seq<char> {
    if b.len() > 0 { b } else { a }
}

/// `b` where it is present, else `a`.
pub open spec fn merge_opt<T>(a: Option<T>, b: Option<T>) -> Option<T> {
    if b is Some { b } else { a }
}

/// `b` where it is not empty, else `a`.
pub open spec fn merge_seq<T>(a: Seq<T>, b: Seq<T>) -> Seq<T> {
    if b.len() > 0 { b } else { a }
}

/// The product types WooCommerce knows.
pub open spec fn is_product_type(t: Seq<char>) -> bool {
    t == "simple"@ || t == "grouped"@ || t == "external"@ || t == "variable"@ || t == "variation"@
}

/// The stock statuses WooCommerce knows.
pub open spec fn is_stock_status(t: Seq<char>) -> bool {
    t == "instock"@ || t == "outofstock"@ || t == "onbackorder"@
}

/// The text held, or the empty text.
pub open spec fn text_or_empty(o: Option<Seq<char>>) -> Seq<char> {
    match o {
        Some(s) => s,
        None => Seq::empty(),
    }
}

pub fn is_product_type_exec(t: &str) -> (r: bool)
    ensures
        r == is_product_type(t@),
{
    str_eq(t, "simple") || str_eq(t, "grouped") || str_eq(t, "external") || str_eq(t, "variable")
        || str_eq(t, "variation")
}

pub fn is_stock_status_exec(t: &str) -> (r: bool)
    ensures
        r == is_stock_status(t@),
{
    str_eq(t, "instock") || str_eq(t, "outofstock") || str_eq(t, "onbackorder")
}

fn merge_string(a: &String, b: &String) -> (r: String)
    ensures
        r@ == merge_text(a@, b@),
{
    if !b.as_str().is_empty() {
        b.clone()
    } else {
        a.clone()
    }
}

fn merge_option<T: Duplicate>(a: &Option<T>, b: &Option<T>) -> (r: Option<T>)
    ensures
        r.deep_view() == merge_opt(a.deep_view(), b.deep_view()),
{
    if b.is_some() {
        b.duplicate()
    } else {
        a.duplicate()
    }
}

fn merge_vec<T: Duplicate>(a: &Vec<T>, b: &Vec<T>) -> (r: Vec<T>)
    ensures
        r.deep_view() == merge_seq(a.deep_view(), b.deep_view()),
{
    if b.len() > 0 {
        assert(b.deep_view().len() > 0);
        b.duplicate()
    } else {
        assert(b.deep_view().len() == 0);
        a.duplicate()
    }
}

/// Adds `what` to `changes` when `cond` holds.
fn note_change(changes: &mut Vec<String>, cond: bool, what: &str)
    ensures
        final(changes).deep_view() == old(changes).deep_view() + (if cond {
            seq![what@]
        } else {
            Seq::empty()
        }),
{
    let ghost before = changes.deep_view();
    if cond {
        changes.push(what.to_owned());
    }
    assert(changes.deep_view() =~= before + (if cond {
        seq![what@]
    } else {
        Seq::empty()
    }));
}

/// `[what]` when `cond` holds, else nothing.
pub open spec fn change_if(cond: bool, what: Seq<char>) -> Seq<Seq<char>> {
    if cond { seq![what] } else { Seq::empty() }
}

/// The merged stock status: `other`'s where it has one, else `base`'s;
/// `instock` where that, lowercased, is not a known status.
pub open spec fn merged_stock_status(base: Option<Seq<char>>, other: Option<Seq<char>>) -> Option<Seq<char>> {
    let s = merge_opt(base, other);
    if is_stock_status(lowered(text_or_empty(s))) {
        s
    } else {
        Some("instock"@)
    }
}

/// `other`'s values over `base`'s where `other` has them (a product is
/// featured when either is); an unknown product type becomes empty; see
/// `merged_stock_status` for the stock status.
pub open spec fn merged_product(base: WooCommerceProductView, other: WooCommerceProductView) -> WooCommerceProductView {
    let t = merge_text(base.type_, other.type_);
    WooCommerceProductView {
        id: merge_text(base.id, other.id),
        name: merge_text(base.name, other.name),
        sku: merge_text(base.sku, other.sku),
        type_: if is_product_type(t) { t } else { Seq::empty() },
        parent: merge_text(base.parent, other.parent),
        featured: base.featured || other.featured,
        regular_price: merge_text(base.regular_price, other.regular_price),
        sale_price: merge_opt(base.sale_price, other.sale_price),
        description: merge_text(base.description, other.description),
        short_description: merge_text(base.short_description, other.short_description),
        weight: merge_opt(base.weight, other.weight),
        categories: merge_seq(base.categories, other.categories),
        tags: merge_seq(base.tags, other.tags),
        images: merge_seq(base.images, other.images),
        variations: merge_seq(base.variations, other.variations),
        attributes: merge_seq(base.attributes, other.attributes),
        manage_stock: merge_opt(base.manage_stock, other.manage_stock),
        stock_quantity: merge_opt(base.stock_quantity, other.stock_quantity),
        stock_status: merged_stock_status(base.stock_status, other.stock_status),
        shipping_class: merge_opt(base.shipping_class, other.shipping_class),
        dimensions: merge_opt(base.dimensions, other.dimensions),
        meta_data: merge_seq(base.meta_data, other.meta_data),
    }
}

/// Why a product may not be created, if it may not.
pub open spec fn product_error(p: WooCommerceProductView) -> Option<Seq<char>> {
    if p.name.len() == 0 && p.parent.len() == 0 {
        Some("Product name is required"@)
    } else if p.sku.len() == 0 {
        Some("Product SKU is required"@)
    } else if p.regular_price.len() == 0 && p.type_ == "simple"@ {
        Some("Product regular price is required"@)
    } else {
        None
    }
}

/// The names of the fields in which `new` differs from `current`. Category,
/// tag, variation and attribute lists count only where `new` has some;
/// prices count only where `new` is a simple product or has no type.
pub open spec fn product_changes(current: WooCommerceProductView, new: WooCommerceProductView) -> Seq<Seq<char>> {
    text_changes(current, new) + list_changes(current, new) + stock_changes(current, new) + price_changes(
        current,
        new,
    )
}

pub open spec fn text_changes(current: WooCommerceProductView, new: WooCommerceProductView) -> Seq<Seq<char>> {
    change_if(current.name != new.name, "name"@)
    + change_if(current.sku != new.sku, "sku"@)
    + change_if(current.description != new.description, "description"@)
    + change_if(current.short_description != new.short_description, "short_description"@)
}

pub open spec fn list_changes(current: WooCommerceProductView, new: WooCommerceProductView) -> Seq<Seq<char>> {
    change_if(current.categories != new.categories && new.categories.len() > 0, "categories"@)
    + change_if(current.tags != new.tags && new.tags.len() > 0, "tags"@)
    + change_if(current.variations != new.variations && new.variations.len() > 0, "variations"@)
    + change_if(current.attributes != new.attributes && new.attributes.len() > 0, "attributes"@)
}

pub open spec fn stock_changes(current: WooCommerceProductView, new: WooCommerceProductView) -> Seq<Seq<char>> {
    change_if(current.manage_stock != new.manage_stock, "manage_stock"@)
    + change_if(current.stock_quantity != new.stock_quantity, "stock_quantity"@)
    + change_if(current.shipping_class != new.shipping_class, "shipping_class"@)
}

pub open spec fn price_changes(current: WooCommerceProductView, new: WooCommerceProductView) -> Seq<Seq<char>> {
    change_if(prices_compared(new) && current.regular_price != new.regular_price, "regular_price"@)
    + change_if(prices_compared(new) && current.sale_price != new.sale_price, "sale_price"@)
}

/// Prices are compared only for simple products and products without a type.
pub open spec fn prices_compared(new: WooCommerceProductView) -> bool {
    new.type_.len() == 0 || new.type_ == "simple"@
}

impl ProductAttribute {
    /// A visible attribute used for variations, with the given options.
    pub fn new(name: &str, options: Vec<String>) -> (r: Self)
        ensures
            r@ == (ProductAttributeView {
                name: name@,
                position: None,
                visible: Some(true),
                variation: Some(true),
                options: options.deep_view(),
            }),
    {
        ProductAttribute {
            name: name.to_owned(),
            position: None,
            visible: Some(true),
            variation: Some(true),
            options,
        }
    }
}

impl WooCommerceProduct {
    /// Merges `other` into a copy of `self`: see `merged_product`.
    pub fn merge(&self, other: &WooCommerceProduct) -> (r: WooCommerceProduct)
        ensures
            r@ == merged_product(self@, other@),
    {
        let mut type_ = merge_string(&self.type_, &other.type_);
        if !is_product_type_exec(type_.as_str()) {
            type_ = String::new();
        }
        let mut stock_status = merge_option(&self.stock_status, &other.stock_status);
        let own_status = match &stock_status {
            Some(s) => lowercase(s.as_str()),
            None => lowercase(""),
        };
        proof {
            reveal_strlit("");
            assert(""@ =~= Seq::<char>::empty());
        }
        if !is_stock_status_exec(own_status.as_str()) {
            stock_status = Some("instock".to_owned());
        }
        WooCommerceProduct {
            name: merge_string(&self.name, &other.name),
            id: merge_string(&self.id, &other.id),
            sku: merge_string(&self.sku, &other.sku),
            type_,
            featured: self.featured || other.featured,
            regular_price: merge_string(&self.regular_price, &other.regular_price),
            sale_price: merge_option(&self.sale_price, &other.sale_price),
            description: merge_string(&self.description, &other.description),
            short_description: merge_string(&self.short_description, &other.short_description),
            weight: merge_option(&self.weight, &other.weight),
            parent: merge_string(&self.parent, &other.parent),
            categories: merge_vec(&self.categories, &other.categories),
            tags: merge_vec(&self.tags, &other.tags),
            images: merge_vec(&self.images, &other.images),
            variations: merge_vec(&self.variations, &other.variations),
            attributes: merge_vec(&self.attributes, &other.attributes),
            manage_stock: merge_option(&self.manage_stock, &other.manage_stock),
            stock_quantity: merge_option(&self.stock_quantity, &other.stock_quantity),
            stock_status,
            shipping_class: merge_option(&self.shipping_class, &other.shipping_class),
            dimensions: merge_option(&self.dimensions, &other.dimensions),
            meta_data: merge_vec(&self.meta_data, &other.meta_data),
        }
    }

    /// `Ok` when the product may be created, else why not: see `product_error`.
    pub fn validate(&self) -> (r: Result<(), String>)
        ensures
            r is Ok <==> product_error(self@) is None,
            r matches Err(m) ==> product_error(self@) == Some(m@),
    {
        if self.name.as_str().is_empty() && self.is_main_product() {
            return Err("Product name is required".to_owned());
        }
        if self.sku.as_str().is_empty() {
            return Err("Product SKU is required".to_owned());
        }
        if self.regular_price.as_str().is_empty() && str_eq(self.type_.as_str(), "simple") {
            return Err("Product regular price is required".to_owned());
        }
        Ok(())
    }

    fn note_text_changes(&self, other: &WooCommerceProduct, changes: &mut Vec<String>)
        ensures
            final(changes).deep_view() == old(changes).deep_view() + text_changes(self@, other@),
    {
        let ghost start = changes.deep_view();
        note_change(changes, !self.name.same_as(&other.name), "name");
        note_change(changes, !self.sku.same_as(&other.sku), "sku");
        note_change(changes, !self.description.same_as(&other.description), "description");
        note_change(changes, !self.short_description.same_as(&other.short_description), "short_description");
        assert(changes.deep_view() =~= start + text_changes(self@, other@));
    }

    fn note_list_changes(&self, other: &WooCommerceProduct, changes: &mut Vec<String>)
        ensures
            final(changes).deep_view() == old(changes).deep_view() + list_changes(self@, other@),
    {
        let ghost start = changes.deep_view();
        assert(other.categories.deep_view().len() == other.categories@.len());
        assert(other.tags.deep_view().len() == other.tags@.len());
        assert(other.variations.deep_view().len() == other.variations@.len());
        assert(other.attributes.deep_view().len() == other.attributes@.len());
        let c1 = !self.categories.same_as(&other.categories) && other.categories.len() > 0;
        let c2 = !self.tags.same_as(&other.tags) && other.tags.len() > 0;
        let c3 = !self.variations.same_as(&other.variations) && other.variations.len() > 0;
        let c4 = !self.attributes.same_as(&other.attributes) && other.attributes.len() > 0;
        note_change(changes, c1, "categories");
        note_change(changes, c2, "tags");
        note_change(changes, c3, "variations");
        note_change(changes, c4, "attributes");
        assert(changes.deep_view() =~= start + list_changes(self@, other@));
    }

    fn note_stock_changes(&self, other: &WooCommerceProduct, changes: &mut Vec<String>)
        ensures
            final(changes).deep_view() == old(changes).deep_view() + stock_changes(self@, other@),
    {
        let ghost start = changes.deep_view();
        note_change(changes, !self.manage_stock.same_as(&other.manage_stock), "manage_stock");
        note_change(changes, !self.stock_quantity.same_as(&other.stock_quantity), "stock_quantity");
        note_change(changes, !self.shipping_class.same_as(&other.shipping_class), "shipping_class");
        assert(changes.deep_view() =~= start + stock_changes(self@, other@));
    }

    fn note_price_changes(&self, other: &WooCommerceProduct, changes: &mut Vec<String>)
        ensures
            final(changes).deep_view() == old(changes).deep_view() + price_changes(self@, other@),
    {
        let ghost start = changes.deep_view();
        let prices = other.type_.as_str().is_empty() || str_eq(other.type_.as_str(), "simple");
        note_change(changes, prices && !self.regular_price.same_as(&other.regular_price), "regular_price");
        note_change(changes, prices && !self.sale_price.same_as(&other.sale_price), "sale_price");
        assert(changes.deep_view() =~= start + price_changes(self@, other@));
    }

    /// The fields in which `other` differs from `self`: see `product_changes`.
    pub fn get_changes(&self, other: &WooCommerceProduct) -> (r: Vec<String>)
        ensures
            r.deep_view() == product_changes(self@, other@),
    {
        let mut changes: Vec<String> = Vec::new();
        let ghost empty = changes.deep_view();
        self.note_text_changes(other, &mut changes);
        self.note_list_changes(other, &mut changes);
        self.note_stock_changes(other, &mut changes);
        self.note_price_changes(other, &mut changes);
        assert(empty =~= Seq::<Seq<char>>::empty());
        assert(changes.deep_view() =~= product_changes(self@, other@));
        changes
    }

    /// Whether `other` differs from `self` in any field that `get_changes` looks at.
    pub fn has_changed(&self, other: &WooCommerceProduct) -> (r: bool)
        ensures
            r == (product_changes(self@, other@).len() > 0),
    {
        let changes = self.get_changes(other);
        assert(changes.deep_view().len() == changes@.len());
        changes.len() > 0
    }

    /// Whether this is a main product, that is, has no parent.
    pub fn is_main_product(&self) -> (r: bool)
        ensures
            r == (self@.parent.len() == 0),
    {
        self.parent.as_str().is_empty()
    }

    /// A copy of the attributes.
    pub fn get_attribute(&self) -> (r: Vec<ProductAttribute>)
        ensures
            r.deep_view() == self@.attributes,
    {
        self.attributes.duplicate()
    }

    /// The attribute list itself, to change in place.
    pub fn get_attribute_mut(&mut self) -> (r: &mut Vec<ProductAttribute>)
        ensures
            *r == old(self).attributes,
            *final(self) == (WooCommerceProduct { attributes: *final(r), ..*old(self) }),
    {
        &mut self.attributes
    }

    /// Adds an attribute at the end.
    pub fn add_attribute(&mut self, attribute: ProductAttribute)
        ensures
            final(self)@ == (WooCommerceProductView {
                attributes: old(self)@.attributes.push(attribute@),
                ..old(self)@
            }),
    {
        let ghost before = self.attributes.deep_view();
        self.attributes.push(attribute);
        assert(self.attributes.deep_view() =~= before.push(attribute@));
    }

    /// Replaces the id.
    pub fn set_id(&mut self, id: String)
        ensures
            final(self)@ == (WooCommerceProductView { id: id@, ..old(self)@ }),
    {
        self.id = id;
    }
}

/// `other`'s values over `base`'s where `other` has them.
pub open spec fn merged_variation(base: ProductVariationView, other: ProductVariationView) -> ProductVariationView {
    ProductVariationView {
        id: merge_text(base.id, other.id),
        sku: merge_text(base.sku, other.sku),
        regular_price: merge_text(base.regular_price, other.regular_price),
        sale_price: merge_text(base.sale_price, other.sale_price),
        description: merge_text(base.description, other.description),
        parent: merge_text(base.parent, other.parent),
        attributes: merge_seq(base.attributes, other.attributes),
        stock_quantity: merge_opt(base.stock_quantity, other.stock_quantity),
        shipping_class: merge_opt(base.shipping_class, other.shipping_class),
        dimensions: merge_opt(base.dimensions, other.dimensions),
        weight: merge_opt(base.weight, other.weight),
        image: merge_opt(base.image, other.image),
        stock_status: merge_opt(base.stock_status, other.stock_status),
        meta_data: merge_seq(base.meta_data, other.meta_data),
    }
}

/// Why a variation may not be created, if it may not.
pub open spec fn variation_error(p: ProductVariationView) -> Option<Seq<char>> {
    if p.sku.len() == 0 {
        Some("Product SKU is required"@)
    } else if p.regular_price.len() == 0 {
        Some("Product regular price is required"@)
    } else {
        None
    }
}

/// The names of the fields in which `new` differs from `current`; the
/// attribute list counts only where `new` has some.
pub open spec fn variation_changes(current: ProductVariationView, new: ProductVariationView) -> Seq<Seq<char>> {
    Seq::empty()
    + change_if(current.sku != new.sku, "sku"@)
    + change_if(current.description != new.description, "description"@)
    + change_if(current.attributes != new.attributes && new.attributes.len() > 0, "attributes"@)
    + change_if(current.stock_quantity != new.stock_quantity, "stock_quantity"@)
    + change_if(current.shipping_class != new.shipping_class, "shipping_class"@)
}

impl ProductVariation {
    /// Merges `other` into a copy of `self`: see `merged_variation`.
    pub fn merge(&self, other: &ProductVariation) -> (r: ProductVariation)
        ensures
            r@ == merged_variation(self@, other@),
    {
        ProductVariation {
            id: merge_string(&self.id, &other.id),
            sku: merge_string(&self.sku, &other.sku),
            regular_price: merge_string(&self.regular_price, &other.regular_price),
            sale_price: merge_string(&self.sale_price, &other.sale_price),
            description: merge_string(&self.description, &other.description),
            parent: merge_string(&self.parent, &other.parent),
            attributes: merge_vec(&self.attributes, &other.attributes),
            stock_quantity: merge_option(&self.stock_quantity, &other.stock_quantity),
            shipping_class: merge_option(&self.shipping_class, &other.shipping_class),
            dimensions: merge_option(&self.dimensions, &other.dimensions),
            weight: merge_option(&self.weight, &other.weight),
            image: merge_option(&self.image, &other.image),
            stock_status: merge_option(&self.stock_status, &other.stock_status),
            meta_data: merge_vec(&self.meta_data, &other.meta_data),
        }
    }

    /// Sets the parent.
    pub fn set_parent(&mut self, parent: &String)
        ensures
            final(self)@ == (ProductVariationView { parent: parent@, ..old(self)@ }),
    {
        self.parent = parent.clone();
    }

    /// Replaces the id.
    pub fn set_id(&mut self, id: String)
        ensures
            final(self)@ == (ProductVariationView { id: id@, ..old(self)@ }),
    {
        self.id = id;
    }

    /// `Ok` when the variation may be created, else why not: see `variation_error`.
    pub fn validate(&self) -> (r: Result<(), String>)
        ensures
            r is Ok <==> variation_error(self@) is None,
            r matches Err(m) ==> variation_error(self@) == Some(m@),
    {
        if self.sku.as_str().is_empty() {
            return Err("Product SKU is required".to_owned());
        }
        if self.regular_price.as_str().is_empty() {
            return Err("Product regular price is required".to_owned());
        }
        Ok(())
    }

    /// The fields in which `other` differs from `self`: see `variation_changes`.
    pub fn get_changes(&self, other: &ProductVariation) -> (r: Vec<String>)
        ensures
            r.deep_view() == variation_changes(self@, other@),
    {
        let mut changes: Vec<String> = Vec::new();
        assert(changes.deep_view() =~= Seq::<Seq<char>>::empty());
        note_change(&mut changes, !self.sku.same_as(&other.sku), "sku");
        note_change(&mut changes, !self.description.same_as(&other.description), "description");
        note_change(
            &mut changes,
            !self.attributes.same_as(&other.attributes) && other.attributes.len() > 0,
            "attributes",
        );
        note_change(&mut changes, !self.stock_quantity.same_as(&other.stock_quantity), "stock_quantity");
        note_change(&mut changes, !self.shipping_class.same_as(&other.shipping_class), "shipping_class");
        assert(other.attributes.deep_view().len() == other.attributes@.len());
        changes
    }

    /// Whether `other` differs from `self` in any field that `get_changes` looks at.
    pub fn has_changed(&self, other: &ProductVariation) -> (r: bool)
        ensures
            r == (variation_changes(self@, other@).len() > 0),
    {
        let changes = self.get_changes(other);
        assert(changes.deep_view().len() == changes@.len());
        changes.len() > 0
    }

    /// A variation is never a main product.
    pub fn is_main_product(&self) -> (r: bool)
        ensures
            r == false,
    {
        false
    }

    /// A copy of the attributes.
    pub fn get_attribute(&self) -> (r: Vec<VariationAttribute>)
        ensures
            r.deep_view() == self@.attributes,
    {
        self.attributes.duplicate()
    }
}

/// A product compared with itself shows no change.
pub proof fn law_product_unchanged_by_itself(p: WooCommerceProductView)
    ensures
        product_changes(p, p).len() == 0,
{
    assert(product_changes(p, p) =~= Seq::<Seq<char>>::empty());
}

/// A variation compared with itself shows no change.
pub proof fn law_variation_unchanged_by_itself(v: ProductVariationView)
    ensures
        variation_changes(v, v).len() == 0,
{
    assert(variation_changes(v, v) =~= Seq::<Seq<char>>::empty());
}

/// Merging a variation with itself gives it back.
pub proof fn law_variation_merged_with_itself(v: ProductVariationView)
    ensures
        merged_variation(v, v) == v,
{
}

/// Merging in the same variation twice changes nothing the second time.
pub proof fn law_variation_merge_idempotent(a: ProductVariationView, b: ProductVariationView)
    ensures
        merged_variation(merged_variation(a, b), b) == merged_variation(a, b),
{
}

/// Merging in another product keeps every value of `base` that `other`
/// leaves empty, and takes every value that `other` has: texts where they
/// are not empty, optional values where present, lists where not empty; a
/// product is featured when either is, and a known product type of `other`
/// is taken.
pub proof fn law_product_merge_prefers_other(base: WooCommerceProductView, other: WooCommerceProductView)
    ensures
        other.id.len() > 0 ==> merged_product(base, other).id == other.id,
        other.id.len() == 0 ==> merged_product(base, other).id == base.id,
        other.name.len() > 0 ==> merged_product(base, other).name == other.name,
        other.name.len() == 0 ==> merged_product(base, other).name == base.name,
        other.sku.len() > 0 ==> merged_product(base, other).sku == other.sku,
        other.sku.len() == 0 ==> merged_product(base, other).sku == base.sku,
        other.parent.len() > 0 ==> merged_product(base, other).parent == other.parent,
        other.parent.len() == 0 ==> merged_product(base, other).parent == base.parent,
        other.regular_price.len() > 0 ==> merged_product(base, other).regular_price == other.regular_price,
        other.regular_price.len() == 0 ==> merged_product(base, other).regular_price == base.regular_price,
        other.description.len() > 0 ==> merged_product(base, other).description == other.description,
        other.description.len() == 0 ==> merged_product(base, other).description == base.description,
        other.short_description.len() > 0 ==> merged_product(base, other).short_description
            == other.short_description,
        other.short_description.len() == 0 ==> merged_product(base, other).short_description
            == base.short_description,
        is_product_type(other.type_) ==> merged_product(base, other).type_ == other.type_,
        other.type_.len() == 0 && is_product_type(base.type_) ==> merged_product(base, other).type_ == base.type_,
        merged_product(base, other).featured == (base.featured || other.featured),
        other.sale_price is Some ==> merged_product(base, other).sale_price == other.sale_price,
        other.sale_price is None ==> merged_product(base, other).sale_price == base.sale_price,
        other.weight is Some ==> merged_product(base, other).weight == other.weight,
        other.weight is None ==> merged_product(base, other).weight == base.weight,
        other.manage_stock is Some ==> merged_product(base, other).manage_stock == other.manage_stock,
        other.manage_stock is None ==> merged_product(base, other).manage_stock == base.manage_stock,
        other.stock_quantity is Some ==> merged_product(base, other).stock_quantity == other.stock_quantity,
        other.stock_quantity is None ==> merged_product(base, other).stock_quantity == base.stock_quantity,
        other.shipping_class is Some ==> merged_product(base, other).shipping_class == other.shipping_class,
        other.shipping_class is None ==> merged_product(base, other).shipping_class == base.shipping_class,
        other.dimensions is Some ==> merged_product(base, other).dimensions == other.dimensions,
        other.dimensions is None ==> merged_product(base, other).dimensions == base.dimensions,
        other.categories.len() > 0 ==> merged_product(base, other).categories == other.categories,
        other.categories.len() == 0 ==> merged_product(base, other).categories == base.categories,
        other.tags.len() > 0 ==> merged_product(base, other).tags == other.tags,
        other.tags.len() == 0 ==> merged_product(base, other).tags == base.tags,
        other.images.len() > 0 ==> merged_product(base, other).images == other.images,
        other.images.len() == 0 ==> merged_product(base, other).images == base.images,
        other.variations.len() > 0 ==> merged_product(base, other).variations == other.variations,
        other.variations.len() == 0 ==> merged_product(base, other).variations == base.variations,
        other.attributes.len() > 0 ==> merged_product(base, other).attributes == other.attributes,
        other.attributes.len() == 0 ==> merged_product(base, other).attributes == base.attributes,
        other.meta_data.len() > 0 ==> merged_product(base, other).meta_data == other.meta_data,
        other.meta_data.len() == 0 ==> merged_product(base, other).meta_data == base.meta_data,
{
    if is_product_type(other.type_) {
        reveal_strlit("simple");
        reveal_strlit("grouped");
        reveal_strlit("external");
        reveal_strlit("variable");
        reveal_strlit("variation");
        assert(other.type_.len() > 0);
    }
}

/// Merging in another variation keeps every value of `base` that `other`
/// leaves empty, and takes every value that `other` has: texts where they
/// are not empty, optional values where present, lists where not empty.
pub proof fn law_variation_merge_prefers_other(base: ProductVariationView, other: ProductVariationView)
    ensures
        other.id.len() > 0 ==> merged_variation(base, other).id == other.id,
        other.id.len() == 0 ==> merged_variation(base, other).id == base.id,
        other.sku.len() > 0 ==> merged_variation(base, other).sku == other.sku,
        other.sku.len() == 0 ==> merged_variation(base, other).sku == base.sku,
        other.parent.len() > 0 ==> merged_variation(base, other).parent == other.parent,
        other.parent.len() == 0 ==> merged_variation(base, other).parent == base.parent,
        other.regular_price.len() > 0 ==> merged_variation(base, other).regular_price == other.regular_price,
        other.regular_price.len() == 0 ==> merged_variation(base, other).regular_price == base.regular_price,
        other.sale_price.len() > 0 ==> merged_variation(base, other).sale_price == other.sale_price,
        other.sale_price.len() == 0 ==> merged_variation(base, other).sale_price == base.sale_price,
        other.description.len() > 0 ==> merged_variation(base, other).description == other.description,
        other.description.len() == 0 ==> merged_variation(base, other).description == base.description,
        other.attributes.len() > 0 ==> merged_variation(base, other).attributes == other.attributes,
        other.attributes.len() == 0 ==> merged_variation(base, other).attributes == base.attributes,
        other.meta_data.len() > 0 ==> merged_variation(base, other).meta_data == other.meta_data,
        other.meta_data.len() == 0 ==> merged_variation(base, other).meta_data == base.meta_data,
        other.stock_quantity is Some ==> merged_variation(base, other).stock_quantity == other.stock_quantity,
        other.stock_quantity is None ==> merged_variation(base, other).stock_quantity == base.stock_quantity,
        other.shipping_class is Some ==> merged_variation(base, other).shipping_class == other.shipping_class,
        other.shipping_class is None ==> merged_variation(base, other).shipping_class == base.shipping_class,
        other.dimensions is Some ==> merged_variation(base, other).dimensions == other.dimensions,
        other.dimensions is None ==> merged_variation(base, other).dimensions == base.dimensions,
        other.weight is Some ==> merged_variation(base, other).weight == other.weight,
        other.weight is None ==> merged_variation(base, other).weight == base.weight,
        other.image is Some ==> merged_variation(base, other).image == other.image,
        other.image is None ==> merged_variation(base, other).image == base.image,
        other.stock_status is Some ==> merged_variation(base, other).stock_status == other.stock_status,
        other.stock_status is None ==> merged_variation(base, other).stock_status == base.stock_status,
{
}

/// A list holds what either of its two parts holds, and nothing else.
proof fn lemma_concat_contains<A>(a: Seq<A>, b: Seq<A>, x: A)
    ensures
        (a + b).contains(x) <==> (a.contains(x) || b.contains(x)),
{
    if a.contains(x) {
        let i = choose|i: int| 0 <= i < a.len() && a[i] == x;
        assert((a + b)[i] == x);
    }
    if b.contains(x) {
        let j = choose|j: int| 0 <= j < b.len() && b[j] == x;
        assert((a + b)[a.len() + j] == x);
    }
    if (a + b).contains(x) {
        let k = choose|k: int| 0 <= k < (a + b).len() && (a + b)[k] == x;
        if k < a.len() {
            assert(a[k] == x);
        } else {
            assert(b[k - a.len()] == x);
        }
    }
}

/// A noted change holds its field's name exactly when the condition holds.
proof fn lemma_change_if_contains(cond: bool, what: Seq<char>, x: Seq<char>)
    ensures
        change_if(cond, what).contains(x) <==> (cond && x == what),
{
    if cond {
        assert(change_if(cond, what)[0] == what);
    }
}

/// Every field in which the CSV's product differs from the shop's copy is
/// reported, and so the product counts as changed: its name, SKU,
/// descriptions, stock management, quantity and shipping class always; its
/// category, tag, variation and attribute lists where the CSV has some; its
/// prices where the CSV's product is simple or has no type.
pub proof fn law_product_changes_reported(current: WooCommerceProductView, new: WooCommerceProductView)
    ensures
        current.name != new.name ==> product_changes(current, new).contains("name"@),
        current.sku != new.sku ==> product_changes(current, new).contains("sku"@),
        current.description != new.description ==> product_changes(current, new).contains("description"@),
        current.short_description != new.short_description ==> product_changes(current, new).contains(
            "short_description"@,
        ),
        current.categories != new.categories && new.categories.len() > 0 ==> product_changes(
            current,
            new,
        ).contains("categories"@),
        current.tags != new.tags && new.tags.len() > 0 ==> product_changes(current, new).contains("tags"@),
        current.variations != new.variations && new.variations.len() > 0 ==> product_changes(
            current,
            new,
        ).contains("variations"@),
        current.attributes != new.attributes && new.attributes.len() > 0 ==> product_changes(
            current,
            new,
        ).contains("attributes"@),
        current.manage_stock != new.manage_stock ==> product_changes(current, new).contains("manage_stock"@),
        current.stock_quantity != new.stock_quantity ==> product_changes(current, new).contains(
            "stock_quantity"@,
        ),
        current.shipping_class != new.shipping_class ==> product_changes(current, new).contains(
            "shipping_class"@,
        ),
        prices_compared(new) && current.regular_price != new.regular_price ==> product_changes(
            current,
            new,
        ).contains("regular_price"@),
        prices_compared(new) && current.sale_price != new.sale_price ==> product_changes(current, new).contains(
            "sale_price"@,
        ),
        product_changes(current, new).len() == 0 ==> {
            &&& current.name == new.name
            &&& current.sku == new.sku
            &&& current.description == new.description
            &&& current.short_description == new.short_description
            &&& current.manage_stock == new.manage_stock
            &&& current.stock_quantity == new.stock_quantity
            &&& current.shipping_class == new.shipping_class
        },
{
    lemma_text_changes_reported(current, new);
    lemma_list_changes_reported(current, new);
    lemma_stock_changes_reported(current, new);
    lemma_price_changes_reported(current, new);
}

/// What any of four lists holds, their concatenation holds.
proof fn lemma_in_four<A>(a: Seq<A>, b: Seq<A>, c: Seq<A>, d: Seq<A>, x: A)
    ensures
        a.contains(x) || b.contains(x) || c.contains(x) || d.contains(x) <==> (a + b + c + d).contains(x),
{
    lemma_concat_contains(a, b, x);
    lemma_concat_contains(a + b, c, x);
    lemma_concat_contains(a + b + c, d, x);
}

/// A change noted in one of the four groups is among the product's changes.
proof fn lemma_noted_change(current: WooCommerceProductView, new: WooCommerceProductView, x: Seq<char>)
    ensures
        text_changes(current, new).contains(x) || list_changes(current, new).contains(x) || stock_changes(
            current,
            new,
        ).contains(x) || price_changes(current, new).contains(x) <==> product_changes(current, new).contains(x),
{
    lemma_in_four(text_changes(current, new), list_changes(current, new), stock_changes(current, new), price_changes(current, new), x);
}

/// A noted change whose condition holds is among the four noted changes.
proof fn lemma_one_of_four(
    c1: bool, w1: Seq<char>, c2: bool, w2: Seq<char>, c3: bool, w3: Seq<char>, c4: bool, w4: Seq<char>, x: Seq<char>,
)
    ensures
        (c1 && x == w1) || (c2 && x == w2) || (c3 && x == w3) || (c4 && x == w4) <==> (change_if(c1, w1) + change_if(
            c2,
            w2,
        ) + change_if(c3, w3) + change_if(c4, w4)).contains(x),
{
    lemma_change_if_contains(c1, w1, x);
    lemma_change_if_contains(c2, w2, x);
    lemma_change_if_contains(c3, w3, x);
    lemma_change_if_contains(c4, w4, x);
    lemma_in_four(change_if(c1, w1), change_if(c2, w2), change_if(c3, w3), change_if(c4, w4), x);
}

proof fn lemma_text_changes_reported(current: WooCommerceProductView, new: WooCommerceProductView)
    ensures
        current.name != new.name ==> product_changes(current, new).contains("name"@),
        current.sku != new.sku ==> product_changes(current, new).contains("sku"@),
        current.description != new.description ==> product_changes(current, new).contains("description"@),
        current.short_description != new.short_description ==> product_changes(current, new).contains(
            "short_description"@,
        ),
{
    let c1 = current.name != new.name;
    let c2 = current.sku != new.sku;
    let c3 = current.description != new.description;
    let c4 = current.short_description != new.short_description;
    let (w1, w2, w3, w4) = ("name"@, "sku"@, "description"@, "short_description"@);
    lemma_one_of_four(c1, w1, c2, w2, c3, w3, c4, w4, w1);
    lemma_one_of_four(c1, w1, c2, w2, c3, w3, c4, w4, w2);
    lemma_one_of_four(c1, w1, c2, w2, c3, w3, c4, w4, w3);
    lemma_one_of_four(c1, w1, c2, w2, c3, w3, c4, w4, w4);
    lemma_noted_change(current, new, w1);
    lemma_noted_change(current, new, w2);
    lemma_noted_change(current, new, w3);
    lemma_noted_change(current, new, w4);
}

proof fn lemma_list_changes_reported(current: WooCommerceProductView, new: WooCommerceProductView)
    ensures
        current.categories != new.categories && new.categories.len() > 0 ==> product_changes(
            current,
            new,
        ).contains("categories"@),
        current.tags != new.tags && new.tags.len() > 0 ==> product_changes(current, new).contains("tags"@),
        current.variations != new.variations && new.variations.len() > 0 ==> product_changes(
            current,
            new,
        ).contains("variations"@),
        current.attributes != new.attributes && new.attributes.len() > 0 ==> product_changes(
            current,
            new,
        ).contains("attributes"@),
{
    let c1 = current.categories != new.categories && new.categories.len() > 0;
    let c2 = current.tags != new.tags && new.tags.len() > 0;
    let c3 = current.variations != new.variations && new.variations.len() > 0;
    let c4 = current.attributes != new.attributes && new.attributes.len() > 0;
    let (w1, w2, w3, w4) = ("categories"@, "tags"@, "variations"@, "attributes"@);
    lemma_one_of_four(c1, w1, c2, w2, c3, w3, c4, w4, w1);
    lemma_one_of_four(c1, w1, c2, w2, c3, w3, c4, w4, w2);
    lemma_one_of_four(c1, w1, c2, w2, c3, w3, c4, w4, w3);
    lemma_one_of_four(c1, w1, c2, w2, c3, w3, c4, w4, w4);
    lemma_noted_change(current, new, w1);
    lemma_noted_change(current, new, w2);
    lemma_noted_change(current, new, w3);
    lemma_noted_change(current, new, w4);
}

proof fn lemma_stock_changes_reported(current: WooCommerceProductView, new: WooCommerceProductView)
    ensures
        current.manage_stock != new.manage_stock ==> product_changes(current, new).contains("manage_stock"@),
        current.stock_quantity != new.stock_quantity ==> product_changes(current, new).contains(
            "stock_quantity"@,
        ),
        current.shipping_class != new.shipping_class ==> product_changes(current, new).contains(
            "shipping_class"@,
        ),
{
    let c1 = current.manage_stock != new.manage_stock;
    let c2 = current.stock_quantity != new.stock_quantity;
    let c3 = current.shipping_class != new.shipping_class;
    let (w1, w2, w3) = ("manage_stock"@, "stock_quantity"@, "shipping_class"@);
    let e = Seq::<Seq<char>>::empty();
    assert(stock_changes(current, new) =~= change_if(c1, w1) + change_if(c2, w2) + change_if(c3, w3) + e);
    lemma_one_of_four(c1, w1, c2, w2, c3, w3, false, w3, w1);
    lemma_one_of_four(c1, w1, c2, w2, c3, w3, false, w3, w2);
    lemma_one_of_four(c1, w1, c2, w2, c3, w3, false, w3, w3);
    lemma_noted_change(current, new, w1);
    lemma_noted_change(current, new, w2);
    lemma_noted_change(current, new, w3);
}

proof fn lemma_price_changes_reported(current: WooCommerceProductView, new: WooCommerceProductView)
    ensures
        prices_compared(new) && current.regular_price != new.regular_price ==> product_changes(
            current,
            new,
        ).contains("regular_price"@),
        prices_compared(new) && current.sale_price != new.sale_price ==> product_changes(current, new).contains(
            "sale_price"@,
        ),
{
    let c1 = prices_compared(new) && current.regular_price != new.regular_price;
    let c2 = prices_compared(new) && current.sale_price != new.sale_price;
    let (w1, w2) = ("regular_price"@, "sale_price"@);
    lemma_change_if_contains(c1, w1, w1);
    lemma_change_if_contains(c2, w2, w2);
    lemma_concat_contains(change_if(c1, w1), change_if(c2, w2), w1);
    lemma_concat_contains(change_if(c1, w1), change_if(c2, w2), w2);
    lemma_noted_change(current, new, w1);
    lemma_noted_change(current, new, w2);
}

/// A product change is reported only for a field that really differs (and,
/// for lists and prices, only where the CSV's product is one whose lists or
/// prices are compared).
pub proof fn law_product_change_means_difference(
    current: WooCommerceProductView,
    new: WooCommerceProductView,
    x: Seq<char>,
)
    ensures
        product_changes(current, new).contains(x) ==> {
            ||| x == "name"@ && current.name != new.name
            ||| x == "sku"@ && current.sku != new.sku
            ||| x == "description"@ && current.description != new.description
            ||| x == "short_description"@ && current.short_description != new.short_description
            ||| x == "categories"@ && current.categories != new.categories && new.categories.len() > 0
            ||| x == "tags"@ && current.tags != new.tags && new.tags.len() > 0
            ||| x == "variations"@ && current.variations != new.variations && new.variations.len() > 0
            ||| x == "attributes"@ && current.attributes != new.attributes && new.attributes.len() > 0
            ||| x == "manage_stock"@ && current.manage_stock != new.manage_stock
            ||| x == "stock_quantity"@ && current.stock_quantity != new.stock_quantity
            ||| x == "shipping_class"@ && current.shipping_class != new.shipping_class
            ||| x == "regular_price"@ && prices_compared(new) && current.regular_price != new.regular_price
            ||| x == "sale_price"@ && prices_compared(new) && current.sale_price != new.sale_price
        },
{
    lemma_noted_change(current, new, x);
    lemma_one_of_four(
        current.name != new.name,
        "name"@,
        current.sku != new.sku,
        "sku"@,
        current.description != new.description,
        "description"@,
        current.short_description != new.short_description,
        "short_description"@,
        x,
    );
    lemma_one_of_four(
        current.categories != new.categories && new.categories.len() > 0,
        "categories"@,
        current.tags != new.tags && new.tags.len() > 0,
        "tags"@,
        current.variations != new.variations && new.variations.len() > 0,
        "variations"@,
        current.attributes != new.attributes && new.attributes.len() > 0,
        "attributes"@,
        x,
    );
    let c1 = current.manage_stock != new.manage_stock;
    let c2 = current.stock_quantity != new.stock_quantity;
    let c3 = current.shipping_class != new.shipping_class;
    let (w1, w2, w3) = ("manage_stock"@, "stock_quantity"@, "shipping_class"@);
    assert(stock_changes(current, new) =~= change_if(c1, w1) + change_if(c2, w2) + change_if(c3, w3) + Seq::<
        Seq<char>,
    >::empty());
    lemma_one_of_four(c1, w1, c2, w2, c3, w3, false, w3, x);
    let p1 = prices_compared(new) && current.regular_price != new.regular_price;
    let p2 = prices_compared(new) && current.sale_price != new.sale_price;
    lemma_change_if_contains(p1, "regular_price"@, x);
    lemma_change_if_contains(p2, "sale_price"@, x);
    lemma_concat_contains(change_if(p1, "regular_price"@), change_if(p2, "sale_price"@), x);
}

/// A variation change is reported only for a field that really differs
/// (for attributes, only where the CSV's variation has some).
pub proof fn law_variation_change_means_difference(
    current: ProductVariationView,
    new: ProductVariationView,
    x: Seq<char>,
)
    ensures
        variation_changes(current, new).contains(x) ==> {
            ||| x == "sku"@ && current.sku != new.sku
            ||| x == "description"@ && current.description != new.description
            ||| x == "attributes"@ && current.attributes != new.attributes && new.attributes.len() > 0
            ||| x == "stock_quantity"@ && current.stock_quantity != new.stock_quantity
            ||| x == "shipping_class"@ && current.shipping_class != new.shipping_class
        },
{
    let c1 = current.sku != new.sku;
    let c2 = current.description != new.description;
    let c3 = current.attributes != new.attributes && new.attributes.len() > 0;
    let c4 = current.stock_quantity != new.stock_quantity;
    let c5 = current.shipping_class != new.shipping_class;
    let (w1, w2, w3, w4, w5) = ("sku"@, "description"@, "attributes"@, "stock_quantity"@, "shipping_class"@);
    let head = change_if(c1, w1) + change_if(c2, w2) + change_if(c3, w3) + change_if(c4, w4);
    assert(variation_changes(current, new) =~= head + change_if(c5, w5));
    lemma_one_of_four(c1, w1, c2, w2, c3, w3, c4, w4, x);
    lemma_concat_contains(head, change_if(c5, w5), x);
    lemma_change_if_contains(c5, w5, x);
}

/// Every field in which the CSV's variation differs from the shop's copy is
/// reported, and so the variation counts as changed: its SKU, description,
/// stock quantity and shipping class always, its attributes where the CSV
/// has some.
pub proof fn law_variation_changes_reported(current: ProductVariationView, new: ProductVariationView)
    ensures
        current.sku != new.sku ==> variation_changes(current, new).contains("sku"@),
        current.description != new.description ==> variation_changes(current, new).contains("description"@),
        current.attributes != new.attributes && new.attributes.len() > 0 ==> variation_changes(
            current,
            new,
        ).contains("attributes"@),
        current.stock_quantity != new.stock_quantity ==> variation_changes(current, new).contains(
            "stock_quantity"@,
        ),
        current.shipping_class != new.shipping_class ==> variation_changes(current, new).contains(
            "shipping_class"@,
        ),
        variation_changes(current, new).len() == 0 ==> {
            &&& current.sku == new.sku
            &&& current.description == new.description
            &&& current.stock_quantity == new.stock_quantity
            &&& current.shipping_class == new.shipping_class
        },
{
    let c1 = current.sku != new.sku;
    let c2 = current.description != new.description;
    let c3 = current.attributes != new.attributes && new.attributes.len() > 0;
    let c4 = current.stock_quantity != new.stock_quantity;
    let c5 = current.shipping_class != new.shipping_class;
    let (w1, w2, w3, w4, w5) = ("sku"@, "description"@, "attributes"@, "stock_quantity"@, "shipping_class"@);
    let head = change_if(c1, w1) + change_if(c2, w2) + change_if(c3, w3) + change_if(c4, w4);
    assert(variation_changes(current, new) =~= head + change_if(c5, w5));
    lemma_one_of_four(c1, w1, c2, w2, c3, w3, c4, w4, w1);
    lemma_one_of_four(c1, w1, c2, w2, c3, w3, c4, w4, w2);
    lemma_one_of_four(c1, w1, c2, w2, c3, w3, c4, w4, w3);
    lemma_one_of_four(c1, w1, c2, w2, c3, w3, c4, w4, w4);
    lemma_concat_contains(head, change_if(c5, w5), w1);
    lemma_concat_contains(head, change_if(c5, w5), w2);
    lemma_concat_contains(head, change_if(c5, w5), w3);
    lemma_concat_contains(head, change_if(c5, w5), w4);
    lemma_concat_contains(head, change_if(c5, w5), w5);
    lemma_change_if_contains(c5, w5, w5);
}

/// Merging a product with itself gives it back, where its type is a known
/// one or empty and its stock status, lowercased, is a known one.
pub proof fn law_product_merged_with_itself(p: WooCommerceProductView)
    requires
        p.type_.len() == 0 || is_product_type(p.type_),
        is_stock_status(lowered(text_or_empty(p.stock_status))),
    ensures
        merged_product(p, p) == p,
{
    if p.type_.len() == 0 {
        assert(p.type_ =~= Seq::empty());
    }
}

/// Merging in the same product twice changes nothing the second time.
pub proof fn law_product_merge_idempotent(a: WooCommerceProductView, b: WooCommerceProductView)
    ensures
        merged_product(merged_product(a, b), b) == merged_product(a, b),
{
    let t = merge_text(a.type_, b.type_);
    if !is_product_type(t) && b.type_.len() == 0 {
        reveal_strlit("simple");
        reveal_strlit("grouped");
        reveal_strlit("external");
        reveal_strlit("variable");
        reveal_strlit("variation");
        assert("simple"@.len() == 6 && "grouped"@.len() == 7 && "external"@.len() == 8);
        assert("variable"@.len() == 8 && "variation"@.len() == 9);
        assert(!is_product_type(Seq::<char>::empty()));
    }
}

/// A known stock status written in lowercase lowercases to itself.
proof fn lemma_known_status_lowered(t: Seq<char>)
    requires
        is_stock_status(t),
    ensures
        lowered(t) == t,
{
    reveal_strlit("instock");
    reveal_strlit("outofstock");
    reveal_strlit("onbackorder");
    assert(is_ascii_text(t));
    assert(ascii_lowered(t) =~= t);
}

/// An update that gives a known stock status sets it, whatever the shop's
/// copy had.
pub proof fn law_merge_takes_known_status(base: Option<Seq<char>>, status: Seq<char>)
    requires
        is_stock_status(status),
    ensures
        merged_stock_status(base, Some(status)) == Some(status),
{
    lemma_known_status_lowered(status);
}

} // verus!
