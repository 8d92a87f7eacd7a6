//! Building WooCommerce products and variations from one CSV row, read as a
//! map from property names to cell texts.
use vstd::prelude::*;
use crate::field_mapping::{AttributeMapping, AttributeMappingView};
use crate::number::{all_digits, digits_value, lemma_numeral_digits, parse_i32, parsed_i32};
use crate::str_map::{lookup, StrMap};
use crate::text::{lowercase, lowered, replace_char, replaced, split_char, split_on, str_eq, trim, trimmed};
use crate::value::Duplicate;
use crate::woocommerce::{
    is_product_type, is_product_type_exec, is_stock_status, is_stock_status_exec, Category, CategoryView,
    KeyValue, KeyValueView, ProductAttribute, ProductAttributeView, ProductDimension, ProductDimensionView,
    ProductImage, ProductImageView, ProductVariation, ProductVariationView, VariationAttribute,
    VariationAttributeView, WooCommerceProduct, WooCommerceProductView,
};

verus! {

/// The trimmed text stored under `key`, or the empty text.
pub open spec fn cell(row: Seq<(Seq<char>, Seq<char>)>, key: Seq<char>) -> Seq<char> {
    trimmed(
        match lookup(row, key) {
            Some(v) => v,
            None => Seq::empty(),
        },
    )
}

/// `None` for the empty text, else the text.
pub open spec fn opt_nonempty(s: Seq<char>) -> Option<Seq<char>> {
    if s.len() == 0 { None } else { Some(s) }
}

/// The words that mark a product as featured.
pub open spec fn is_feature_word(w: Seq<char>) -> bool {
    w == "yes"@ || w == "true"@ || w == "1"@
}

/// A category named by one piece of a `|`-separated list: the trimmed
/// piece, its number if it is one, and a slug made of it lowercased with
/// spaces as dashes.
pub open spec fn category_of(piece: Seq<char>) -> CategoryView {
    let t = trimmed(piece);
    CategoryView { id: parsed_i32(t), name: t, slug: replaced(lowered(t), ' ', "-"@) }
}

/// A category for each piece that is not blank.
pub open spec fn categories_from(pieces: Seq<Seq<char>>) -> Seq<CategoryView>
    decreases pieces.len(),
{
    if pieces.len() == 0 {
        Seq::empty()
    } else {
        categories_from(pieces.drop_last()) + (if trimmed(pieces.last()).len() > 0 {
            seq![category_of(pieces.last())]
        } else {
            Seq::empty()
        })
    }
}

/// An image for each piece that is not blank, its source the trimmed piece.
pub open spec fn gallery_from(pieces: Seq<Seq<char>>, name: Option<Seq<char>>) -> Seq<ProductImageView>
    decreases pieces.len(),
{
    if pieces.len() == 0 {
        Seq::empty()
    } else {
        gallery_from(pieces.drop_last(), name) + (if trimmed(pieces.last()).len() > 0 {
            seq![ProductImageView { src: trimmed(pieces.last()), name: name, alt: name }]
        } else {
            Seq::empty()
        })
    }
}

/// The trimmed pieces that are not blank.
pub open spec fn options_from(pieces: Seq<Seq<char>>) -> Seq<Seq<char>>
    decreases pieces.len(),
{
    if pieces.len() == 0 {
        Seq::empty()
    } else {
        options_from(pieces.drop_last()) + (if trimmed(pieces.last()).len() > 0 {
            seq![trimmed(pieces.last())]
        } else {
            Seq::empty()
        })
    }
}

/// The featured image first, when there is one.
pub open spec fn lead_image(featured: Seq<char>, name: Option<Seq<char>>) -> Seq<ProductImageView> {
    if featured.len() > 0 {
        seq![ProductImageView { src: featured, name: name, alt: name }]
    } else {
        Seq::empty()
    }
}

/// The metadata entry that records the featured image's URL.
pub open spec fn featured_meta(featured: Seq<char>) -> Seq<KeyValueView> {
    if featured.len() > 0 {
        seq![KeyValueView { key: "fifu_list_url"@, value: featured }]
    } else {
        Seq::empty()
    }
}

/// The `Material` attribute, when the row names materials.
pub open spec fn material_attribute(material: Seq<char>) -> Seq<ProductAttributeView> {
    if material.len() > 0 {
        seq![ProductAttributeView {
            name: "Material"@,
            position: Some(1),
            visible: Some(true),
            variation: Some(false),
            options: options_from(split_on(material, ',')),
        }]
    } else {
        Seq::empty()
    }
}

/// The `Brand` attribute, when the row names a brand.
pub open spec fn brand_attribute(brand: Seq<char>) -> Seq<ProductAttributeView> {
    if brand.len() > 0 {
        seq![ProductAttributeView {
            name: "Brand"@,
            position: Some(2),
            visible: Some(true),
            variation: Some(false),
            options: seq![brand],
        }]
    } else {
        Seq::empty()
    }
}

/// An attribute for each mapped attribute whose cell is not empty; its
/// options are the cell's comma-separated parts.
pub open spec fn mapped_attributes(a: Seq<(Seq<char>, AttributeMappingView)>, type_: Seq<char>) -> Seq<ProductAttributeView>
    decreases a.len(),
{
    if a.len() == 0 {
        Seq::empty()
    } else {
        mapped_attributes(a.drop_last(), type_) + (if a.last().1.column.len() > 0 {
            seq![ProductAttributeView {
                name: a.last().0,
                position: None,
                visible: Some(a.last().1.variable),
                variation: Some(type_ != "simple"@),
                options: options_from(split_on(a.last().1.column, ',')),
            }]
        } else {
            Seq::empty()
        })
    }
}

/// A variation attribute for each mapped attribute whose cell is not empty.
pub open spec fn variation_attributes(a: Seq<(Seq<char>, AttributeMappingView)>) -> Seq<VariationAttributeView>
    decreases a.len(),
{
    if a.len() == 0 {
        Seq::empty()
    } else {
        variation_attributes(a.drop_last()) + (if a.last().1.column.len() > 0 {
            seq![VariationAttributeView { name: a.last().0, option: a.last().1.column }]
        } else {
            Seq::empty()
        })
    }
}

/// The row's dimensions, unless length, width and height are all empty.
pub open spec fn built_dimensions(row: Seq<(Seq<char>, Seq<char>)>) -> Option<ProductDimensionView> {
    let l = cell(row, "length"@);
    let w = cell(row, "width"@);
    let h = cell(row, "height"@);
    if l.len() == 0 && w.len() == 0 && h.len() == 0 {
        None
    } else {
        Some(ProductDimensionView { length: l, width: w, height: h })
    }
}

/// The stock status when it is a known one, else `instock`.
pub open spec fn stock_status_or_default(s: Seq<char>) -> Seq<char> {
    if is_stock_status(s) { s } else { "instock"@ }
}

/// The product that a row describes.
pub open spec fn built_product(row: Seq<(Seq<char>, Seq<char>)>, attrs: Seq<(Seq<char>, AttributeMappingView)>) -> WooCommerceProductView {
    let name = cell(row, "name"@);
    let type0 = cell(row, "type"@);
    let type_ = if is_product_type(lowered(type0)) { type0 } else { Seq::empty() };
    let featured_image = cell(row, "featured_image"@);
    let qty = parsed_i32(cell(row, "stock_quantity"@));
    WooCommerceProductView {
        id: cell(row, "id"@),
        name: name,
        sku: cell(row, "sku"@),
        type_: type_,
        parent: Seq::empty(),
        featured: is_feature_word(lowered(cell(row, "featured"@))),
        regular_price: cell(row, "regular_price"@),
        sale_price: opt_nonempty(cell(row, "sale_price"@)),
        description: cell(row, "description"@),
        short_description: cell(row, "short_description"@),
        weight: opt_nonempty(cell(row, "weight"@)),
        categories: categories_from(split_on(cell(row, "category_ids"@), '|')),
        tags: categories_from(split_on(cell(row, "tag_ids"@), '|')),
        images: lead_image(featured_image, opt_nonempty(name)) + gallery_from(
            split_on(cell(row, "images"@), '|'),
            opt_nonempty(name),
        ),
        variations: Seq::empty(),
        attributes: material_attribute(cell(row, "material"@)) + brand_attribute(cell(row, "brand"@))
            + mapped_attributes(attrs, type_),
        manage_stock: if qty is Some { Some(true) } else { None },
        stock_quantity: qty,
        stock_status: Some(stock_status_or_default(cell(row, "stock_status"@))),
        shipping_class: opt_nonempty(cell(row, "shipping_class_id"@)),
        dimensions: built_dimensions(row),
        meta_data: featured_meta(featured_image),
    }
}

/// The first element, if any.
pub open spec fn first_of<T>(s: Seq<T>) -> Option<T> {
    if s.len() > 0 { Some(s[0]) } else { None }
}

/// The variation that a row describes.
pub open spec fn built_variation(row: Seq<(Seq<char>, Seq<char>)>, attrs: Seq<(Seq<char>, AttributeMappingView)>) -> ProductVariationView {
    let featured_image = cell(row, "featured_image"@);
    ProductVariationView {
        id: cell(row, "id"@),
        sku: cell(row, "sku"@),
        parent: cell(row, "parent_id"@),
        description: cell(row, "description"@),
        regular_price: cell(row, "regular_price"@),
        sale_price: cell(row, "sale_price"@),
        attributes: variation_attributes(attrs),
        stock_quantity: parsed_i32(cell(row, "stock_quantity"@)),
        image: first_of(
            lead_image(featured_image, None) + gallery_from(split_on(cell(row, "images"@), '|'), None),
        ),
        stock_status: Some(stock_status_or_default(cell(row, "stock_status"@))),
        weight: opt_nonempty(cell(row, "weight"@)),
        shipping_class: opt_nonempty(cell(row, "shipping_class_id"@)),
        dimensions: built_dimensions(row),
        meta_data: featured_meta(featured_image),
    }
}

/// The pieces of a list that are not blank.
pub open spec fn nonblank_pieces(pieces: Seq<Seq<char>>) -> Seq<Seq<char>> {
    pieces.filter(|p: Seq<char>| trimmed(p).len() > 0)
}

proof fn lemma_nonblank_pieces_step(pieces: Seq<Seq<char>>)
    requires
        pieces.len() > 0,
    ensures
        nonblank_pieces(pieces) == nonblank_pieces(pieces.drop_last()) + (if trimmed(pieces.last()).len() > 0 {
            seq![pieces.last()]
        } else {
            Seq::empty()
        }),
{
    let f = |p: Seq<char>| trimmed(p).len() > 0;
    reveal(Seq::filter);
    assert(pieces.filter(f) == (if f(pieces.last()) {
        pieces.drop_last().filter(f).push(pieces.last())
    } else {
        pieces.drop_last().filter(f)
    }));
    if trimmed(pieces.last()).len() > 0 {
        assert(pieces.drop_last().filter(f).push(pieces.last()) =~= pieces.drop_last().filter(f) + seq![pieces.last()]);
    } else {
        assert(pieces.drop_last().filter(f) =~= pieces.drop_last().filter(f) + Seq::<Seq<char>>::empty());
    }
}

/// A `|`-separated list names one category for each piece that is not
/// blank, in order, and no other.
pub proof fn law_categories_from_nonblank_pieces(pieces: Seq<Seq<char>>)
    ensures
        categories_from(pieces) == nonblank_pieces(pieces).map_values(|p: Seq<char>| category_of(p)),
    decreases pieces.len(),
{
    let f = |p: Seq<char>| category_of(p);
    if pieces.len() == 0 {
        assert(categories_from(pieces) =~= nonblank_pieces(pieces).map_values(f));
    } else {
        law_categories_from_nonblank_pieces(pieces.drop_last());
        lemma_nonblank_pieces_step(pieces);
        let prev = nonblank_pieces(pieces.drop_last());
        if trimmed(pieces.last()).len() > 0 {
            assert((prev + seq![pieces.last()]).map_values(f) =~= prev.map_values(f) + seq![category_of(pieces.last())]);
        } else {
            assert((prev + Seq::<Seq<char>>::empty()).map_values(f) =~= prev.map_values(f) + Seq::<CategoryView>::empty());
        }
    }
}

/// A `|`-separated list of images gives one image for each piece that is
/// not blank, in order, its source the trimmed piece.
pub proof fn law_gallery_from_nonblank_pieces(pieces: Seq<Seq<char>>, name: Option<Seq<char>>)
    ensures
        gallery_from(pieces, name) == nonblank_pieces(pieces).map_values(
            |p: Seq<char>| ProductImageView { src: trimmed(p), name: name, alt: name },
        ),
    decreases pieces.len(),
{
    let f = |p: Seq<char>| ProductImageView { src: trimmed(p), name: name, alt: name };
    if pieces.len() == 0 {
        assert(gallery_from(pieces, name) =~= nonblank_pieces(pieces).map_values(f));
    } else {
        law_gallery_from_nonblank_pieces(pieces.drop_last(), name);
        lemma_nonblank_pieces_step(pieces);
        let prev = nonblank_pieces(pieces.drop_last());
        if trimmed(pieces.last()).len() > 0 {
            assert((prev + seq![pieces.last()]).map_values(f) =~= prev.map_values(f) + seq![f(pieces.last())]);
        } else {
            assert((prev + Seq::<Seq<char>>::empty()).map_values(f) =~= prev.map_values(f) + Seq::<
                ProductImageView,
            >::empty());
        }
    }
}

/// A built product carries the row's own texts: its id, name, SKU, regular
/// price and descriptions are the trimmed cells; its sale price, weight and
/// shipping class are the trimmed cells where they are not blank and absent
/// where they are; its stock quantity is the cell read as an `i32` numeral,
/// with stock managed exactly when there is one; it has no parent and no
/// variations yet. Its type is the cell where that names a known type, its
/// stock status the cell where known and `instock` otherwise; it has
/// dimensions unless all three are blank; its categories and tags are one
/// for each non-blank piece of their lists; the featured image, where there
/// is one, comes first among the images and is recorded in the metadata.
pub proof fn law_built_product_takes_row_cells(
    row: Seq<(Seq<char>, Seq<char>)>,
    attrs: Seq<(Seq<char>, AttributeMappingView)>,
)
    ensures
        built_product(row, attrs).id == cell(row, "id"@),
        built_product(row, attrs).name == cell(row, "name"@),
        built_product(row, attrs).sku == cell(row, "sku"@),
        built_product(row, attrs).regular_price == cell(row, "regular_price"@),
        built_product(row, attrs).description == cell(row, "description"@),
        built_product(row, attrs).short_description == cell(row, "short_description"@),
        cell(row, "sale_price"@).len() > 0 ==> built_product(row, attrs).sale_price == Some(cell(row, "sale_price"@)),
        cell(row, "sale_price"@).len() == 0 ==> built_product(row, attrs).sale_price is None,
        cell(row, "weight"@).len() > 0 ==> built_product(row, attrs).weight == Some(cell(row, "weight"@)),
        cell(row, "weight"@).len() == 0 ==> built_product(row, attrs).weight is None,
        cell(row, "shipping_class_id"@).len() > 0 ==> built_product(row, attrs).shipping_class == Some(
            cell(row, "shipping_class_id"@),
        ),
        cell(row, "shipping_class_id"@).len() == 0 ==> built_product(row, attrs).shipping_class is None,
        built_product(row, attrs).stock_quantity == parsed_i32(cell(row, "stock_quantity"@)),
        all_digits(cell(row, "stock_quantity"@)) && cell(row, "stock_quantity"@).len() > 0 && digits_value(
            cell(row, "stock_quantity"@),
        ) <= i32::MAX ==> built_product(row, attrs).stock_quantity == Some(
            digits_value(cell(row, "stock_quantity"@)) as i32,
        ),
        built_product(row, attrs).manage_stock == (if built_product(row, attrs).stock_quantity is Some {
            Some(true)
        } else {
            None
        }),
        built_product(row, attrs).parent.len() == 0,
        built_product(row, attrs).variations.len() == 0,
        is_product_type(lowered(cell(row, "type"@))) ==> built_product(row, attrs).type_ == cell(row, "type"@),
        !is_product_type(lowered(cell(row, "type"@))) ==> built_product(row, attrs).type_.len() == 0,
        built_product(row, attrs).featured == is_feature_word(lowered(cell(row, "featured"@))),
        is_stock_status(cell(row, "stock_status"@)) ==> built_product(row, attrs).stock_status == Some(
            cell(row, "stock_status"@),
        ),
        !is_stock_status(cell(row, "stock_status"@)) ==> built_product(row, attrs).stock_status == Some(
            "instock"@,
        ),
        cell(row, "length"@).len() == 0 && cell(row, "width"@).len() == 0 && cell(row, "height"@).len() == 0
            ==> built_product(row, attrs).dimensions is None,
        cell(row, "length"@).len() > 0 || cell(row, "width"@).len() > 0 || cell(row, "height"@).len() > 0
            ==> built_product(row, attrs).dimensions == Some(
            ProductDimensionView {
                length: cell(row, "length"@),
                width: cell(row, "width"@),
                height: cell(row, "height"@),
            },
        ),
        built_product(row, attrs).categories == nonblank_pieces(split_on(cell(row, "category_ids"@), '|')).map_values(
            |p: Seq<char>| category_of(p),
        ),
        built_product(row, attrs).tags == nonblank_pieces(split_on(cell(row, "tag_ids"@), '|')).map_values(
            |p: Seq<char>| category_of(p),
        ),
        cell(row, "featured_image"@).len() > 0 ==> built_product(row, attrs).images.len() > 0
            && built_product(row, attrs).images[0].src == cell(row, "featured_image"@)
            && built_product(row, attrs).meta_data == seq![
            KeyValueView { key: "fifu_list_url"@, value: cell(row, "featured_image"@) },
        ],
        cell(row, "featured_image"@).len() == 0 ==> built_product(row, attrs).images == nonblank_pieces(
            split_on(cell(row, "images"@), '|'),
        ).map_values(
            |p: Seq<char>| ProductImageView {
                src: trimmed(p),
                name: opt_nonempty(cell(row, "name"@)),
                alt: opt_nonempty(cell(row, "name"@)),
            },
        ) && built_product(row, attrs).meta_data.len() == 0,
{
    lemma_numeral_digits(cell(row, "stock_quantity"@));
    law_categories_from_nonblank_pieces(split_on(cell(row, "category_ids"@), '|'));
    law_categories_from_nonblank_pieces(split_on(cell(row, "tag_ids"@), '|'));
    let name = opt_nonempty(cell(row, "name"@));
    let gallery = gallery_from(split_on(cell(row, "images"@), '|'), name);
    law_gallery_from_nonblank_pieces(split_on(cell(row, "images"@), '|'), name);
    if cell(row, "featured_image"@).len() == 0 {
        assert(lead_image(cell(row, "featured_image"@), name) + gallery =~= gallery);
    } else {
        let b = built_product(row, attrs);
        assert(b.images[0] == lead_image(cell(row, "featured_image"@), name)[0]);
    }
}

/// A built variation carries the row's own texts: its id, SKU, parent,
/// prices and description are the trimmed cells (the parent from
/// `parent_id`); its weight and shipping class are the trimmed cells where
/// they are not blank and absent where they are; its stock quantity is the
/// cell read as an `i32` numeral; its stock status is the cell where known
/// and `instock` otherwise; it has dimensions unless all three are blank;
/// its image is the featured image, else the first non-blank piece of the
/// image list, else none.
pub proof fn law_built_variation_takes_row_cells(
    row: Seq<(Seq<char>, Seq<char>)>,
    attrs: Seq<(Seq<char>, AttributeMappingView)>,
)
    ensures
        built_variation(row, attrs).id == cell(row, "id"@),
        built_variation(row, attrs).sku == cell(row, "sku"@),
        built_variation(row, attrs).parent == cell(row, "parent_id"@),
        built_variation(row, attrs).regular_price == cell(row, "regular_price"@),
        built_variation(row, attrs).sale_price == cell(row, "sale_price"@),
        built_variation(row, attrs).description == cell(row, "description"@),
        cell(row, "weight"@).len() > 0 ==> built_variation(row, attrs).weight == Some(cell(row, "weight"@)),
        cell(row, "weight"@).len() == 0 ==> built_variation(row, attrs).weight is None,
        cell(row, "shipping_class_id"@).len() > 0 ==> built_variation(row, attrs).shipping_class == Some(
            cell(row, "shipping_class_id"@),
        ),
        cell(row, "shipping_class_id"@).len() == 0 ==> built_variation(row, attrs).shipping_class is None,
        built_variation(row, attrs).stock_quantity == parsed_i32(cell(row, "stock_quantity"@)),
        all_digits(cell(row, "stock_quantity"@)) && cell(row, "stock_quantity"@).len() > 0 && digits_value(
            cell(row, "stock_quantity"@),
        ) <= i32::MAX ==> built_variation(row, attrs).stock_quantity == Some(
            digits_value(cell(row, "stock_quantity"@)) as i32,
        ),
        is_stock_status(cell(row, "stock_status"@)) ==> built_variation(row, attrs).stock_status == Some(
            cell(row, "stock_status"@),
        ),
        !is_stock_status(cell(row, "stock_status"@)) ==> built_variation(row, attrs).stock_status == Some(
            "instock"@,
        ),
        cell(row, "length"@).len() == 0 && cell(row, "width"@).len() == 0 && cell(row, "height"@).len() == 0
            ==> built_variation(row, attrs).dimensions is None,
        cell(row, "length"@).len() > 0 || cell(row, "width"@).len() > 0 || cell(row, "height"@).len() > 0
            ==> built_variation(row, attrs).dimensions == Some(
            ProductDimensionView {
                length: cell(row, "length"@),
                width: cell(row, "width"@),
                height: cell(row, "height"@),
            },
        ),
        cell(row, "featured_image"@).len() > 0 ==> built_variation(row, attrs).image == Some(
            ProductImageView { src: cell(row, "featured_image"@), name: None, alt: None },
        ) && built_variation(row, attrs).meta_data == seq![
            KeyValueView { key: "fifu_list_url"@, value: cell(row, "featured_image"@) },
        ],
        cell(row, "featured_image"@).len() == 0 && nonblank_pieces(split_on(cell(row, "images"@), '|')).len() > 0
            ==> built_variation(row, attrs).image == Some(
            ProductImageView {
                src: trimmed(nonblank_pieces(split_on(cell(row, "images"@), '|'))[0]),
                name: None,
                alt: None,
            },
        ),
        cell(row, "featured_image"@).len() == 0 && nonblank_pieces(split_on(cell(row, "images"@), '|')).len() == 0
            ==> built_variation(row, attrs).image is None,
        cell(row, "featured_image"@).len() == 0 ==> built_variation(row, attrs).meta_data.len() == 0,
{
    lemma_numeral_digits(cell(row, "stock_quantity"@));
    let featured = cell(row, "featured_image"@);
    let gallery = gallery_from(split_on(cell(row, "images"@), '|'), None);
    law_gallery_from_nonblank_pieces(split_on(cell(row, "images"@), '|'), None);
    if featured.len() == 0 {
        assert(lead_image(featured, None) + gallery =~= gallery);
    } else {
        assert((lead_image(featured, None) + gallery)[0] == lead_image(featured, None)[0]);
    }
}

/// What a row becomes: a product, or a variation of another product.
pub enum WooProduct {
    Product(WooCommerceProduct),
    Variation(ProductVariation),
}

pub enum WooProductView {
    Product(WooCommerceProductView),
    Variation(ProductVariationView),
}

impl View for WooProduct {
    type V = WooProductView;

    open spec fn view(&self) -> WooProductView {
        match self {
            WooProduct::Product(p) => WooProductView::Product(p@),
            WooProduct::Variation(v) => WooProductView::Variation(v@),
        }
    }
}

impl DeepView for WooProduct {
    type V = WooProductView;

    open spec fn deep_view(&self) -> WooProductView {
        self.view()
    }
}

/// A row with no parent, or whose parent is its own SKU, is a product; any
/// other row is a variation of its parent.
pub open spec fn built(row: Seq<(Seq<char>, Seq<char>)>, attrs: Seq<(Seq<char>, AttributeMappingView)>) -> WooProductView {
    let parent = cell(row, "parent_id"@);
    let sku = cell(row, "sku"@);
    if parent.len() == 0 || parent == sku {
        WooProductView::Product(built_product(row, attrs))
    } else {
        WooProductView::Variation(built_variation(row, attrs))
    }
}

/// A row becomes a product when its parent cell is blank or names its own
/// SKU, and a variation of that parent otherwise.
pub proof fn law_built_row_kind(row: Seq<(Seq<char>, Seq<char>)>, attrs: Seq<(Seq<char>, AttributeMappingView)>)
    ensures
        (built(row, attrs) is Product) <==> (cell(row, "parent_id"@).len() == 0 || cell(row, "parent_id"@) == cell(
            row,
            "sku"@,
        )),
        built(row, attrs) matches WooProductView::Variation(v) ==> v.parent == cell(row, "parent_id"@) && v.parent
            != v.sku,
{
}

/// The trimmed cell stored under `key`.
pub fn get_value(row: &StrMap<String>, key: &str) -> (r: String)
    ensures
        r@ == cell(row@, key@),
{
    match row.get(key) {
        Some(v) => trim(v.as_str()),
        None => {
            proof {
                reveal_strlit("");
                assert(""@ =~= Seq::<char>::empty());
            }
            trim("")
        },
    }
}

fn non_empty(s: String) -> (r: Option<String>)
    ensures
        r.deep_view() == opt_nonempty(s@),
{
    if s.as_str().is_empty() {
        None
    } else {
        Some(s)
    }
}

fn build_categories(text: &str) -> (r: Vec<Category>)
    ensures
        r.deep_view() == categories_from(split_on(text@, '|')),
{
    let pieces = split_char(text, '|');
    let ghost ps = pieces.deep_view();
    let mut out: Vec<Category> = Vec::new();
    let mut i: usize = 0;
    while i < pieces.len()
        invariant
            i <= pieces.len(),
            ps == pieces.deep_view(),
            out.deep_view() == categories_from(ps.take(i as int)),
        decreases pieces.len() - i,
    {
        assert(ps.take(i as int + 1).drop_last() == ps.take(i as int));
        assert(ps[i as int] == pieces@[i as int]@);
        let t = trim(pieces[i].as_str());
        let ghost before = out.deep_view();
        if !t.as_str().is_empty() {
            let lower = lowercase(t.as_str());
            proof {
                reveal_strlit("-");
            }
            let slug = replace_char(lower.as_str(), ' ', "-");
            let c = Category { id: parse_i32(t.as_str()), name: t, slug };
            out.push(c);
        }
        assert(out.deep_view() =~= categories_from(ps.take(i as int + 1)));
        i = i + 1;
    }
    assert(ps.take(pieces.len() as int) == ps);
    out
}

fn build_gallery(text: &str, name: &Option<String>) -> (r: Vec<ProductImage>)
    ensures
        r.deep_view() == gallery_from(split_on(text@, '|'), name.deep_view()),
{
    let pieces = split_char(text, '|');
    let ghost ps = pieces.deep_view();
    let mut out: Vec<ProductImage> = Vec::new();
    let mut i: usize = 0;
    while i < pieces.len()
        invariant
            i <= pieces.len(),
            ps == pieces.deep_view(),
            out.deep_view() == gallery_from(ps.take(i as int), name.deep_view()),
        decreases pieces.len() - i,
    {
        assert(ps.take(i as int + 1).drop_last() == ps.take(i as int));
        assert(ps[i as int] == pieces@[i as int]@);
        let t = trim(pieces[i].as_str());
        if !t.as_str().is_empty() {
            out.push(ProductImage { src: t, name: name.duplicate(), alt: name.duplicate() });
        }
        assert(out.deep_view() =~= gallery_from(ps.take(i as int + 1), name.deep_view()));
        i = i + 1;
    }
    assert(ps.take(pieces.len() as int) == ps);
    out
}

fn build_options(text: &str) -> (r: Vec<String>)
    ensures
        r.deep_view() == options_from(split_on(text@, ',')),
{
    let pieces = split_char(text, ',');
    let ghost ps = pieces.deep_view();
    let mut out: Vec<String> = Vec::new();
    let mut i: usize = 0;
    while i < pieces.len()
        invariant
            i <= pieces.len(),
            ps == pieces.deep_view(),
            out.deep_view() == options_from(ps.take(i as int)),
        decreases pieces.len() - i,
    {
        assert(ps.take(i as int + 1).drop_last() == ps.take(i as int));
        assert(ps[i as int] == pieces@[i as int]@);
        let t = trim(pieces[i].as_str());
        if !t.as_str().is_empty() {
            out.push(t);
        }
        assert(out.deep_view() =~= options_from(ps.take(i as int + 1)));
        i = i + 1;
    }
    assert(ps.take(pieces.len() as int) == ps);
    out
}

fn build_mapped_attributes(attrs: &StrMap<AttributeMapping>, type_: &String) -> (r: Vec<ProductAttribute>)
    ensures
        r.deep_view() == mapped_attributes(attrs@, type_@),
{
    let entries = attrs.entries();
    let ghost es = attrs@;
    let not_simple = !str_eq(type_.as_str(), "simple");
    let mut out: Vec<ProductAttribute> = Vec::new();
    let mut i: usize = 0;
    while i < entries.len()
        invariant
            i <= entries.len(),
            es == entries.deep_view(),
            not_simple == (type_@ != "simple"@),
            out.deep_view() == mapped_attributes(es.take(i as int), type_@),
        decreases entries.len() - i,
    {
        assert(es.take(i as int + 1).drop_last() == es.take(i as int));
        assert(es[i as int] == entries@[i as int].deep_view());
        let m: &AttributeMapping = &entries[i].1;
        if !m.column.as_str().is_empty() {
            let options = build_options(m.column.as_str());
            out.push(
                ProductAttribute {
                    name: entries[i].0.clone(),
                    position: None,
                    visible: Some(m.variable),
                    variation: Some(not_simple),
                    options,
                },
            );
        }
        assert(out.deep_view() =~= mapped_attributes(es.take(i as int + 1), type_@));
        i = i + 1;
    }
    assert(es.take(entries.len() as int) == es);
    out
}

fn build_variation_attributes(attrs: &StrMap<AttributeMapping>) -> (r: Vec<VariationAttribute>)
    ensures
        r.deep_view() == variation_attributes(attrs@),
{
    let entries = attrs.entries();
    let ghost es = attrs@;
    let mut out: Vec<VariationAttribute> = Vec::new();
    let mut i: usize = 0;
    while i < entries.len()
        invariant
            i <= entries.len(),
            es == entries.deep_view(),
            out.deep_view() == variation_attributes(es.take(i as int)),
        decreases entries.len() - i,
    {
        assert(es.take(i as int + 1).drop_last() == es.take(i as int));
        assert(es[i as int] == entries@[i as int].deep_view());
        let m: &AttributeMapping = &entries[i].1;
        if !m.column.as_str().is_empty() {
            out.push(VariationAttribute { name: entries[i].0.clone(), option: m.column.clone() });
        }
        assert(out.deep_view() =~= variation_attributes(es.take(i as int + 1)));
        i = i + 1;
    }
    assert(es.take(entries.len() as int) == es);
    out
}

/// The row's dimensions: see `built_dimensions`.
pub fn build_product_dimensions(product: &StrMap<String>) -> (r: Option<ProductDimension>)
    ensures
        r.deep_view() == built_dimensions(product@),
{
    let length = get_value(product, "length");
    let width = get_value(product, "width");
    let height = get_value(product, "height");
    if length.as_str().is_empty() && width.as_str().is_empty() && height.as_str().is_empty() {
        return None;
    }
    Some(ProductDimension { length, width, height })
}

fn stock_status_of(s: String) -> (r: String)
    ensures
        r@ == stock_status_or_default(s@),
{
    if is_stock_status_exec(s.as_str()) {
        s
    } else {
        "instock".to_owned()
    }
}

fn featured_meta_of(featured: &String) -> (r: Vec<KeyValue>)
    ensures
        r.deep_view() == featured_meta(featured@),
{
    let mut meta: Vec<KeyValue> = Vec::new();
    if !featured.as_str().is_empty() {
        meta.push(KeyValue { key: "fifu_list_url".to_owned(), value: featured.clone() });
    }
    assert(meta.deep_view() =~= featured_meta(featured@));
    meta
}

fn images_of(featured: &String, gallery_text: &String, name: &Option<String>) -> (r: Vec<ProductImage>)
    ensures
        r.deep_view() == lead_image(featured@, name.deep_view()) + gallery_from(
            split_on(gallery_text@, '|'),
            name.deep_view(),
        ),
{
    let mut images: Vec<ProductImage> = Vec::new();
    if !featured.as_str().is_empty() {
        images.push(ProductImage { src: featured.clone(), name: name.duplicate(), alt: name.duplicate() });
    }
    let ghost lead = images.deep_view();
    assert(lead =~= lead_image(featured@, name.deep_view()));
    let mut gallery = build_gallery(gallery_text.as_str(), name);
    let ghost g = gallery.deep_view();
    images.append(&mut gallery);
    assert(images.deep_view() =~= lead + g);
    images
}

/// The product a row describes: see `built_product`. It is always built.
pub fn woo_product_builder(product: &StrMap<String>, attribute_map: &StrMap<AttributeMapping>) -> (r: Result<WooCommerceProduct, String>)
    ensures
        r matches Ok(p) && p@ == built_product(product@, attribute_map@),
{
    let id = get_value(product, "id");
    let sku = get_value(product, "sku");
    let mut type_ = get_value(product, "type");
    let name = get_value(product, "name");
    let description = get_value(product, "description");
    let short_description = get_value(product, "short_description");
    let regular_price = get_value(product, "regular_price");
    let sale_price = get_value(product, "sale_price");
    let stock_status = get_value(product, "stock_status");
    let featured_word = lowercase(get_value(product, "featured").as_str());
    let featured = str_eq(featured_word.as_str(), "yes") || str_eq(featured_word.as_str(), "true") || str_eq(
        featured_word.as_str(),
        "1",
    );
    let dimensions = build_product_dimensions(product);
    if !is_product_type_exec(lowercase(type_.as_str()).as_str()) {
        type_ = String::new();
    }
    let categories = build_categories(get_value(product, "category_ids").as_str());
    let tags = build_categories(get_value(product, "tag_ids").as_str());
    let main_image = get_value(product, "images");
    let featured_image = get_value(product, "featured_image");
    let shown_name = non_empty(name.clone());
    let images = images_of(&featured_image, &main_image, &shown_name);
    let meta_data = featured_meta_of(&featured_image);
    let material = get_value(product, "material");
    let brand = get_value(product, "brand");
    let mut attributes: Vec<ProductAttribute> = Vec::new();
    if !material.as_str().is_empty() {
        let a = ProductAttribute {
            name: "Material".to_owned(),
            position: Some(1),
            visible: Some(true),
            variation: Some(false),
            options: build_options(material.as_str()),
        };
        assert(seq![a@] == material_attribute(material@));
        attributes.push(a);
    }
    let ghost with_material = attributes.deep_view();
    assert(with_material =~= material_attribute(material@));
    if !brand.as_str().is_empty() {
        let mut options: Vec<String> = Vec::new();
        options.push(brand.clone());
        assert(options.deep_view() =~= seq![brand@]);
        let a = ProductAttribute {
            name: "Brand".to_owned(),
            position: Some(2),
            visible: Some(true),
            variation: Some(false),
            options,
        };
        assert(seq![a@] == brand_attribute(brand@));
        attributes.push(a);
    }
    let ghost fixed = attributes.deep_view();
    assert(fixed =~= material_attribute(material@) + brand_attribute(brand@));
    let mut mapped = build_mapped_attributes(attribute_map, &type_);
    let ghost m = mapped.deep_view();
    attributes.append(&mut mapped);
    assert(attributes.deep_view() =~= fixed + m);
    let stock_quantity = parse_i32(get_value(product, "stock_quantity").as_str());
    let shipping_class = non_empty(get_value(product, "shipping_class_id"));
    let weight = non_empty(get_value(product, "weight"));
    let manage_stock = if stock_quantity.is_some() { Some(true) } else { None };
    let ghost row = product@;
    assert(featured == is_feature_word(lowered(cell(row, "featured"@))));
    assert(type_@ == (if is_product_type(lowered(cell(row, "type"@))) { cell(row, "type"@) } else { Seq::<char>::empty() }));
    let sale_price = non_empty(sale_price);
    let stock_status = Some(stock_status_of(stock_status));
    let p = WooCommerceProduct {
        id,
        name,
        sku,
        type_,
        featured,
        parent: String::new(),
        regular_price,
        sale_price,
        description,
        short_description,
        weight,
        categories,
        tags,
        images,
        variations: Vec::new(),
        attributes,
        manage_stock,
        stock_quantity,
        shipping_class,
        dimensions,
        meta_data,
        stock_status,
    };
    let ghost b = built_product(row, attribute_map@);
    assert(p@.id == b.id);
    assert(p@.name == b.name);
    assert(p@.type_ == b.type_);
    assert(p@.parent == b.parent);
    assert(p@.images == b.images);
    assert(p@.variations == b.variations);
    assert(p@.attributes == b.attributes);
    assert(p@.manage_stock == b.manage_stock);
    assert(p@.stock_status == b.stock_status);
    assert(p@.meta_data == b.meta_data);
    Ok(p)
}

/// The variation a row describes: see `built_variation`. It is always built.
pub fn woo_product_variation_builder(product: &StrMap<String>, attribute_map: &StrMap<AttributeMapping>) -> (r: Result<ProductVariation, String>)
    ensures
        r matches Ok(v) && v@ == built_variation(product@, attribute_map@),
{
    let id = get_value(product, "id");
    let sku = get_value(product, "sku");
    let description = get_value(product, "description");
    let regular_price = get_value(product, "regular_price");
    let sale_price = get_value(product, "sale_price");
    let parent = get_value(product, "parent_id");
    let main_image = get_value(product, "images");
    let featured_image = get_value(product, "featured_image");
    let images = images_of(&featured_image, &main_image, &None);
    let meta_data = featured_meta_of(&featured_image);
    let attributes = build_variation_attributes(attribute_map);
    let stock_quantity = parse_i32(get_value(product, "stock_quantity").as_str());
    let stock_status = stock_status_of(get_value(product, "stock_status"));
    let weight = non_empty(get_value(product, "weight"));
    let shipping_class = non_empty(get_value(product, "shipping_class_id"));
    let dimensions = build_product_dimensions(product);
    let image = if images.len() > 0 {
        Some(images[0].duplicate())
    } else {
        None
    };
    assert(images.deep_view().len() == images@.len());
    Ok(
        ProductVariation {
            id,
            sku,
            parent,
            description,
            regular_price,
            sale_price,
            attributes,
            stock_quantity,
            stock_status: Some(stock_status),
            weight,
            shipping_class,
            dimensions,
            image,
            meta_data,
        },
    )
}

/// What a row becomes: see `built`. It is always built.
pub fn woo_build_product(product: &StrMap<String>, attribute: &StrMap<AttributeMapping>) -> (r: Option<WooProduct>)
    ensures
        r matches Some(w) && w@ == built(product@, attribute@),
{
    let parent = get_value(product, "parent_id");
    let sku = get_value(product, "sku");
    if parent.as_str().is_empty() || str_eq(parent.as_str(), sku.as_str()) {
        match woo_product_builder(product, attribute) {
            Ok(p) => Some(WooProduct::Product(p)),
            Err(_) => None,
        }
    } else {
        match woo_product_variation_builder(product, attribute) {
            Ok(v) => Some(WooProduct::Variation(v)),
            Err(_) => None,
        }
    }
}

} // verus!
