//! The decisions taken while a file's products are sent to the shop: which
//! rows to read, where each request goes, how products are batched, when a
//! product is created, updated or left alone, and what a dry run answers.
use vstd::prelude::*;
use crate::field_mapping::{AttributeMapping, WordPressFieldMapping};
use crate::grouping::{Family, FamilyView};
use crate::helper::{calculate_hash, clean_string, cleaned};
use crate::number::{decimal, hex_of, usize_to_string};
use crate::helper::sha256_of;
use crate::str_map::{insert_all, StrMap};
use crate::text::{chars_of, concat, str_eq, string_of};
use crate::value::Duplicate;
use crate::woocommerce::{
    merged_product, merged_variation, product_changes, product_error, variation_changes, variation_error,
    ProductVariation, ProductVariationView, WooCommerceProduct, WooCommerceProductView,
};

verus! {

/// The most rows one request processes.
pub const MAX_ROWS_PER_RUN: u32 = 40000;

/// How many rows to process: `row_count` rows from `start_row` (all the rest
/// when `row_count` is 0), no more than remain (none when `start_row` is past
/// the end), and at most 40,000.
pub open spec fn rows_wanted(total_row_count: u32, start_row: u32, row_count: u32) -> int {
    let remaining = if start_row <= total_row_count { total_row_count - start_row } else { 0 };
    let wanted = if row_count == 0 || remaining < row_count { remaining } else { row_count as int };
    if wanted < 40000 { wanted } else { 40000 }
}

/// The number of rows to process: see `rows_wanted`.
pub fn rows_to_process(total_row_count: u32, start_row: u32, row_count: u32) -> (r: u32)
    ensures
        r == rows_wanted(total_row_count, start_row, row_count),
{
    let remaining = if start_row <= total_row_count { total_row_count - start_row } else { 0 };
    let wanted = if row_count == 0 {
        remaining
    } else if row_count < remaining {
        row_count
    } else {
        remaining
    };
    if wanted < MAX_ROWS_PER_RUN {
        wanted
    } else {
        MAX_ROWS_PER_RUN
    }
}

/// The position of the last `c` in `s`, or -1.
pub open spec fn last_index_of(s: Seq<char>, c: char) -> int
    decreases s.len(),
{
    if s.len() == 0 {
        -1
    } else if s.last() == c {
        s.len() - 1
    } else {
        last_index_of(s.drop_last(), c)
    }
}

proof fn lemma_last_index_of(s: Seq<char>, c: char)
    ensures
        -1 <= last_index_of(s, c) < s.len(),
        last_index_of(s, c) >= 0 ==> s[last_index_of(s, c)] == c,
        forall|j: int| last_index_of(s, c) < j < s.len() ==> s[j] != c,
    decreases s.len(),
{
    if s.len() > 0 && s.last() != c {
        lemma_last_index_of(s.drop_last(), c);
        assert forall|j: int| last_index_of(s, c) < j < s.len() implies s[j] != c by {
            if j < s.len() - 1 {
                assert(s[j] == s.drop_last()[j]);
            }
        }
    }
}

/// The file name without its extension: up to its last `.`, or the whole
/// name when it has none.
pub open spec fn without_extension(path: Seq<char>) -> Seq<char> {
    let i = last_index_of(path, '.');
    if i < 0 { path } else { path.take(i) }
}

/// The id of an uploaded file: its name without its extension.
pub fn file_id_from_path(path: &str) -> (r: String)
    ensures
        r@ == without_extension(path@),
{
    let cs = chars_of(path);
    let mut i: usize = cs.len();
    proof {
        lemma_last_index_of(cs@, '.');
    }
    assert(cs@.take(cs.len() as int) =~= cs@);
    while i > 0 && cs[i - 1] != '.'
        invariant
            i <= cs.len(),
            cs@ == path@,
            forall|j: int| i <= j < cs.len() ==> cs@[j] != '.',
            last_index_of(cs@.take(i as int), '.') == last_index_of(cs@, '.'),
        decreases i,
    {
        let ghost t = cs@.take(i as int);
        assert(t.drop_last() == cs@.take(i as int - 1));
        i = i - 1;
    }
    if i == 0 {
        assert(cs@.take(0) =~= Seq::<char>::empty());
        return string_of(&cs);
    }
    let mut out: Vec<char> = Vec::new();
    let mut k: usize = 0;
    while k < i - 1
        invariant
            k <= i - 1,
            i <= cs.len(),
            out@ == cs@.take(k as int),
        decreases i - 1 - k,
    {
        out.push(cs[k]);
        assert(out@ =~= cs@.take(k as int + 1));
        k = k + 1;
    }
    string_of(&out)
}

/// `s` without its trailing run of `c`.
pub open spec fn without_trailing(s: Seq<char>, c: char) -> Seq<char>
    decreases s.len(),
{
    if s.len() > 0 && s.last() == c {
        without_trailing(s.drop_last(), c)
    } else {
        s
    }
}

/// The shop's address without trailing slashes.
pub fn normalize_base_url(base_url: String) -> (r: String)
    ensures
        r@ == without_trailing(base_url@, '/'),
{
    let cs = chars_of(base_url.as_str());
    let mut n: usize = cs.len();
    assert(cs@.take(n as int) == cs@);
    while n > 0 && cs[n - 1] == '/'
        invariant
            n <= cs.len(),
            without_trailing(cs@.take(n as int), '/') == without_trailing(base_url@, '/'),
            cs@ == base_url@,
        decreases n,
    {
        assert(cs@.take(n as int).drop_last() == cs@.take(n as int - 1));
        n = n - 1;
    }
    let mut out: Vec<char> = Vec::new();
    let mut i: usize = 0;
    while i < n
        invariant
            i <= n <= cs.len(),
            out@ == cs@.take(i as int),
        decreases n - i,
    {
        out.push(cs[i]);
        assert(cs@.take(i as int + 1) == cs@.take(i as int).push(cs@[i as int]));
        i = i + 1;
    }
    string_of(&out)
}

/// The products endpoint.
pub fn products_url(base_url: &str) -> (r: String)
    ensures
        r@ == base_url@ + "/wp-json/wc/v3/products"@,
{
    concat(base_url, "/wp-json/wc/v3/products")
}

/// The batch endpoint.
pub fn batch_url(base_url: &str) -> (r: String)
    ensures
        r@ == base_url@ + "/wp-json/wc/v3/products/batch"@,
{
    concat(base_url, "/wp-json/wc/v3/products/batch")
}

/// The address of one product.
pub fn product_url(base_url: &str, id: &str) -> (r: String)
    ensures
        r@ == base_url@ + "/wp-json/wc/v3/products/"@ + id@,
{
    let a = concat(base_url, "/wp-json/wc/v3/products/");
    concat(a.as_str(), id)
}

/// The query for the products with a SKU.
pub fn product_by_sku_url(base_url: &str, sku: &str) -> (r: String)
    ensures
        r@ == base_url@ + "/wp-json/wc/v3/products?sku="@ + sku@,
{
    let a = concat(base_url, "/wp-json/wc/v3/products?sku=");
    concat(a.as_str(), sku)
}

/// The variations endpoint of a product.
pub fn variations_url(base_url: &str, parent_id: &str) -> (r: String)
    ensures
        r@ == base_url@ + "/wp-json/wc/v3/products/"@ + parent_id@ + "/variations"@,
{
    let a = product_url(base_url, parent_id);
    concat(a.as_str(), "/variations")
}

/// The address of one variation.
pub fn variation_url(base_url: &str, parent_id: &str, id: &str) -> (r: String)
    ensures
        r@ == base_url@ + "/wp-json/wc/v3/products/"@ + parent_id@ + "/variations/"@ + id@,
{
    let a = product_url(base_url, parent_id);
    let b = concat(a.as_str(), "/variations/");
    concat(b.as_str(), id)
}

/// The query for the variations of a product with a SKU.
pub fn variation_by_sku_url(base_url: &str, parent_id: &str, sku: &str) -> (r: String)
    ensures
        r@ == base_url@ + "/wp-json/wc/v3/products/"@ + parent_id@ + "/variations?sku="@ + sku@,
{
    let a = product_url(base_url, parent_id);
    let b = concat(a.as_str(), "/variations?sku=");
    concat(b.as_str(), sku)
}


/// `s` cut into consecutive pieces of `k`, the last one possibly shorter
/// (`slice::chunks`).
pub open spec fn chunks_of<T>(s: Seq<T>, k: int) -> Seq<Seq<T>>
    decreases s.len(),
{
    if s.len() == 0 || k <= 0 {
        Seq::empty()
    } else if s.len() <= k {
        seq![s]
    } else {
        seq![s.take(k)] + chunks_of(s.skip(k), k)
    }
}

/// Cutting into pieces loses, adds and reorders nothing: the pieces put
/// back together are `s`, and each piece holds from 1 to `k` items.
pub proof fn law_chunks_rejoin<T>(s: Seq<T>, k: int)
    requires
        k > 0,
    ensures
        chunks_of(s, k).flatten() == s,
        forall|i: int| 0 <= i < chunks_of(s, k).len() ==> 0 < #[trigger] chunks_of(s, k)[i].len() <= k,
    decreases s.len(),
{
    let c = chunks_of(s, k);
    if s.len() == 0 {
        assert(c.flatten() =~= s);
    } else if s.len() <= k {
        let e = c.drop_first();
        assert(e =~= Seq::<Seq<T>>::empty());
        assert(e.flatten() == Seq::<T>::empty());
        assert(c.first() == s);
        assert(c.flatten() == c.first() + e.flatten());
        assert(s + Seq::<T>::empty() =~= s);
    } else {
        let rest = chunks_of(s.skip(k), k);
        law_chunks_rejoin(s.skip(k), k);
        assert(c.drop_first() =~= rest);
        assert(c.first() == s.take(k));
        assert(c.flatten() == c.first() + c.drop_first().flatten());
        assert(s.take(k) + s.skip(k) =~= s);
        assert forall|i: int| 0 <= i < c.len() implies 0 < #[trigger] c[i].len() <= k by {
            if i > 0 {
                assert(c[i] == rest[i - 1]);
            }
        }
    }
}

/// The standalone products cut into batches of `batch_size`: see `chunks_of`.
pub fn chunk_products(products: &Vec<WooCommerceProduct>, batch_size: usize) -> (r: Vec<Vec<WooCommerceProduct>>)
    requires
        batch_size > 0,
    ensures
        r.deep_view() == chunks_of(products.deep_view(), batch_size as int),
{
    let ghost all = products.deep_view();
    let mut out: Vec<Vec<WooCommerceProduct>> = Vec::new();
    let mut start: usize = 0;
    assert(all.skip(0) == all);
    assert(out.deep_view() + chunks_of(all.skip(0), batch_size as int) =~= chunks_of(all, batch_size as int));
    while start < products.len()
        invariant
            start <= products.len(),
            batch_size > 0,
            all == products.deep_view(),
            out.deep_view() + chunks_of(all.skip(start as int), batch_size as int) == chunks_of(
                all,
                batch_size as int,
            ),
        decreases products.len() - start,
    {
        let end = if products.len() - start <= batch_size { products.len() } else { start + batch_size };
        let mut chunk: Vec<WooCommerceProduct> = Vec::new();
        let mut i: usize = start;
        while i < end
            invariant
                start <= i <= end <= products.len(),
                all == products.deep_view(),
                chunk.deep_view() == all.subrange(start as int, i as int),
            decreases end - i,
        {
            let ghost before = chunk.deep_view();
            assert(all[i as int] == products@[i as int]@);
            let item = products[i].duplicate();
            chunk.push(item);
            assert(chunk.deep_view() =~= before.push(all[i as int]));
            assert(chunk.deep_view() =~= all.subrange(start as int, i as int + 1));
            i = i + 1;
        }
        let ghost rest = all.skip(start as int);
        let ghost before = out.deep_view();
        let ghost c = chunk.deep_view();
        out.push(chunk);
        assert(out.deep_view() =~= before.push(c));
        if end == products.len() {
            assert(c =~= rest);
            assert(all.skip(end as int) =~= Seq::<WooCommerceProductView>::empty());
            assert(chunks_of(rest, batch_size as int) == seq![rest]);
        } else {
            assert(c =~= rest.take(batch_size as int));
            assert(rest.skip(batch_size as int) =~= all.skip(end as int));
        }
        assert(out.deep_view() + chunks_of(all.skip(end as int), batch_size as int) =~= before + chunks_of(
            rest,
            batch_size as int,
        ));
        start = end;
    }
    assert(all.skip(products.len() as int) =~= Seq::<WooCommerceProductView>::empty());
    assert(out.deep_view() + Seq::<Seq<WooCommerceProductView>>::empty() =~= out.deep_view());
    out
}

/// A batch request: the products to create when the upload is new, else the
/// products to update.
pub fn batch_request(batch: Vec<WooCommerceProduct>, new_product: bool) -> (r: (Vec<WooCommerceProduct>, Vec<WooCommerceProduct>))
    ensures
        new_product ==> r.0.deep_view() == batch.deep_view() && r.1@.len() == 0,
        !new_product ==> r.1.deep_view() == batch.deep_view() && r.0@.len() == 0,
{
    if new_product {
        (batch, Vec::new())
    } else {
        (Vec::new(), batch)
    }
}

/// Whether to pause before a batch: before every batch but the first, when
/// a pause is set.
pub fn pause_before_batch(batch_index: usize, delay_minutes: u32) -> (r: bool)
    ensures
        r == (batch_index > 0 && delay_minutes > 0),
{
    batch_index > 0 && delay_minutes > 0
}

/// The product number shown for the `i`-th product of batch `batch_index`
/// (both from 0), counting from 1 across batches.
pub fn standalone_position(batch_index: usize, batch_size: usize, i: usize) -> (r: usize)
    requires
        batch_index * batch_size + i + 1 <= usize::MAX,
    ensures
        r == batch_index * batch_size + i + 1,
{
    batch_index * batch_size + i + 1
}

/// What the shop's answer to a batch comes to: every product successful
/// when it took the batch; else every product failed, and a failure to
/// record that names the batch (numbered from 1) and the error.
pub fn batch_outcome(batch_number: usize, batch_len: usize, answer: Result<(), String>) -> (r: (usize, usize, Option<String>))
    ensures
        answer is Ok ==> r.0 == batch_len && r.1 == 0 && r.2 is None,
        answer matches Err(e) ==> r.0 == 0 && r.1 == batch_len && (r.2 matches Some(m) && m@ == "Batch "@
            + decimal(batch_number as nat) + " failed: "@ + e@),
{
    match answer {
        Ok(()) => (batch_len, 0, None),
        Err(e) => {
            let a = concat("Batch ", usize_to_string(batch_number).as_str());
            let b = concat(a.as_str(), " failed: ");
            (0, batch_len, Some(concat(b.as_str(), e.as_str())))
        },
    }
}

/// One step of the window that spaces out product families: when a family
/// would take a non-empty window past `batch_size` products, the window
/// closes (the caller pauses) and the family opens the next one. Gives
/// whether the window closed and the products in the open window after the
/// family.
pub fn batch_window_step(current: usize, family_products: usize, batch_size: usize) -> (r: (bool, usize))
    requires
        current + family_products <= usize::MAX,
    ensures
        r.0 == (current + family_products > batch_size && current > 0),
        r.1 == (if r.0 { family_products as int } else { current + family_products }),
{
    let close = current + family_products > batch_size && current > 0;
    let base = if close { 0 } else { current };
    (close, base + family_products)
}

/// The families with variations, in order.
pub open spec fn with_children(g: Seq<FamilyView>) -> Seq<FamilyView>
    decreases g.len(),
{
    if g.len() == 0 {
        Seq::empty()
    } else {
        with_children(g.drop_last()) + (if g.last().1.len() > 0 { seq![g.last()] } else { Seq::empty() })
    }
}

/// The families without variations, in order.
pub open spec fn without_children(g: Seq<FamilyView>) -> Seq<FamilyView>
    decreases g.len(),
{
    if g.len() == 0 {
        Seq::empty()
    } else {
        without_children(g.drop_last()) + (if g.last().1.len() == 0 { seq![g.last()] } else { Seq::empty() })
    }
}

/// Splitting the families loses none: every family goes to exactly one side,
/// those with variations to the first and the others to the second.
pub proof fn law_partition_keeps_families(g: Seq<FamilyView>)
    ensures
        with_children(g).len() + without_children(g).len() == g.len(),
        forall|i: int| 0 <= i < with_children(g).len() ==> #[trigger] with_children(g)[i].1.len() > 0,
        forall|i: int| 0 <= i < without_children(g).len() ==> #[trigger] without_children(g)[i].1.len() == 0,
    decreases g.len(),
{
    if g.len() > 0 {
        let h = g.drop_last();
        law_partition_keeps_families(h);
        let w = with_children(h);
        let o = without_children(h);
        if g.last().1.len() > 0 {
            assert(with_children(g) == w + seq![g.last()]);
            assert(without_children(g) =~= o + Seq::<FamilyView>::empty());
            assert forall|i: int| 0 <= i < with_children(g).len() implies #[trigger] with_children(g)[i].1.len() > 0 by {
                if i < w.len() {
                    assert(with_children(g)[i] == w[i]);
                }
            }
            assert forall|i: int| 0 <= i < without_children(g).len() implies #[trigger] without_children(g)[i].1.len() == 0 by {
                assert(without_children(g)[i] == o[i]);
            }
        } else {
            assert(without_children(g) == o + seq![g.last()]);
            assert(with_children(g) =~= w + Seq::<FamilyView>::empty());
            assert forall|i: int| 0 <= i < without_children(g).len() implies #[trigger] without_children(g)[i].1.len() == 0 by {
                if i < o.len() {
                    assert(without_children(g)[i] == o[i]);
                }
            }
            assert forall|i: int| 0 <= i < with_children(g).len() implies #[trigger] with_children(g)[i].1.len() > 0 by {
                assert(with_children(g)[i] == w[i]);
            }
        }
    }
}

/// Splits the families into those with variations and those without,
/// keeping their order.
pub fn partition_families(groups: &Vec<Family>) -> (r: (Vec<Family>, Vec<Family>))
    ensures
        r.0.deep_view() == with_children(groups.deep_view()),
        r.1.deep_view() == without_children(groups.deep_view()),
{
    let ghost g = groups.deep_view();
    let mut with: Vec<Family> = Vec::new();
    let mut without: Vec<Family> = Vec::new();
    let mut i: usize = 0;
    while i < groups.len()
        invariant
            i <= groups.len(),
            g == groups.deep_view(),
            with.deep_view() == with_children(g.take(i as int)),
            without.deep_view() == without_children(g.take(i as int)),
        decreases groups.len() - i,
    {
        assert(g.take(i as int + 1).drop_last() == g.take(i as int));
        assert(g[i as int] == groups@[i as int].deep_view());
        let f: Family = (groups[i].0.duplicate(), groups[i].1.duplicate());
        let ghost fv = f.deep_view();
        assert(fv == g[i as int]);
        assert(fv.1.len() == f.1@.len());
        let ghost w0 = with.deep_view();
        let ghost o0 = without.deep_view();
        if f.1.len() > 0 {
            with.push(f);
            assert(with.deep_view() =~= w0.push(fv));
            assert(without.deep_view() =~= o0 + Seq::<FamilyView>::empty());
        } else {
            without.push(f);
            assert(without.deep_view() =~= o0.push(fv));
            assert(with.deep_view() =~= w0 + Seq::<FamilyView>::empty());
        }
        i = i + 1;
    }
    assert(g.take(groups.len() as int) == g);
    (with, without)
}

/// What to do with a main product once the shop has been asked for it.
pub enum MainProductStep {
    /// The shop has it and it changed: send this merged product as an update.
    Update(WooCommerceProduct),
    /// The shop has it unchanged: keep the product as it is, with the shop's id.
    Unchanged(WooCommerceProduct),
    /// The shop lacks it: create this product (its id cleared).
    Create(WooCommerceProduct),
    /// The shop lacks it and it may not be created, for this reason.
    MissingFields(String),
}

/// What to do with a variation once the shop has been asked for it.
pub enum VariationStep {
    Update(ProductVariation),
    Unchanged(ProductVariation),
    Create(ProductVariation),
    MissingFields(String),
}

/// A product is handled as a main product when it has no parent or is its
/// own parent.
pub fn is_main_product_row(product: &WooCommerceProduct) -> (r: bool)
    ensures
        r == (product@.parent.len() == 0 || product@.parent == product@.sku),
{
    product.parent.as_str().is_empty() || str_eq(product.parent.as_str(), product.sku.as_str())
}

/// What to do with a main product given what the shop holds: an update
/// with the merge when the shop's copy differs, the product with the
/// shop's id when it does not,
/// and a creation (id cleared) when the shop has none, if the product may
/// be created.
pub fn plan_main_product(product: &WooCommerceProduct, found: Option<WooCommerceProduct>) -> (r: MainProductStep)
    ensures
        match found {
            Some(f) => if product_changes(f@, product@).len() > 0 {
                r matches MainProductStep::Update(u) && u@ == merged_product(f@, product@)
            } else {
                r matches MainProductStep::Unchanged(u) && u@ == (WooCommerceProductView { id: f@.id, ..product@ })
            },
            None => match product_error(product@) {
                Some(e) => r matches MainProductStep::MissingFields(m) && m@ == e,
                None => r matches MainProductStep::Create(c) && c@ == (WooCommerceProductView {
                    id: Seq::empty(),
                    ..product@
                }),
            },
        },
{
    match found {
        Some(f) => {
            if f.has_changed(product) {
                MainProductStep::Update(f.merge(product))
            } else {
                let mut same = product.duplicate();
                same.set_id(f.id.clone());
                MainProductStep::Unchanged(same)
            }
        },
        None => match product.validate() {
            Err(e) => MainProductStep::MissingFields(e),
            Ok(()) => {
                let mut c = product.duplicate();
                c.set_id(String::new());
                MainProductStep::Create(c)
            },
        },
    }
}

/// A product is handled as a variation when it has a parent.
pub fn is_variation_row(product: &ProductVariation) -> (r: bool)
    ensures
        r == (product@.parent.len() > 0),
{
    !product.parent.as_str().is_empty()
}

/// What to do with a variation given what the shop holds: see `plan_main_product`.
pub fn plan_variation(product: &ProductVariation, found: Option<ProductVariation>) -> (r: VariationStep)
    ensures
        match found {
            Some(f) => if variation_changes(f@, product@).len() > 0 {
                r matches VariationStep::Update(u) && u@ == merged_variation(f@, product@)
            } else {
                r matches VariationStep::Unchanged(u) && u@ == (ProductVariationView { id: f@.id, ..product@ })
            },
            None => match variation_error(product@) {
                Some(e) => r matches VariationStep::MissingFields(m) && m@ == e,
                None => r matches VariationStep::Create(c) && c@ == (ProductVariationView {
                    id: Seq::empty(),
                    ..product@
                }),
            },
        },
{
    match found {
        Some(f) => {
            if f.has_changed(product) {
                VariationStep::Update(f.merge(product))
            } else {
                let mut same = product.duplicate();
                same.set_id(f.id.clone());
                VariationStep::Unchanged(same)
            }
        },
        None => match product.validate() {
            Err(e) => VariationStep::MissingFields(e),
            Ok(()) => {
                let mut c = product.duplicate();
                c.set_id(String::new());
                VariationStep::Create(c)
            },
        },
    }
}

/// Where to ask the shop for its copy of a product.
#[derive(PartialEq, Eq, Structural, Clone, Copy, Debug)]
pub enum ShopLookup {
    /// Ask for the products with the row's SKU.
    BySku,
    /// Ask for the product with the row's id.
    ById,
    /// Ask nothing (a dry run makes no calls).
    Nothing,
}

/// How to find the shop's copy of a product: on a re-run, the cache first
/// (see `accept_cached_product`); then, unless this is a dry run, the shop,
/// by SKU for a new upload and by id on a re-run.
pub fn shop_lookup(new_product: bool, dry_run: bool) -> (r: (bool, ShopLookup))
    ensures
        r.0 == !new_product,
        r.1 == (if dry_run { ShopLookup::Nothing } else if new_product { ShopLookup::BySku } else { ShopLookup::ById }),
{
    let by = if dry_run {
        ShopLookup::Nothing
    } else if new_product {
        ShopLookup::BySku
    } else {
        ShopLookup::ById
    };
    (!new_product, by)
}

/// Whether a cached product stands for the shop's copy: same SKU, and it
/// has an id.
pub fn accept_cached_product(cached: &WooCommerceProduct, sku: &str) -> (r: bool)
    ensures
        r == (cached@.sku == sku@ && cached@.id.len() > 0),
{
    str_eq(cached.sku.as_str(), sku) && !cached.id.as_str().is_empty()
}

/// Whether a cached variation stands for the shop's copy: same SKU, and it
/// has an id.
pub fn accept_cached_variation(cached: &ProductVariation, sku: &str) -> (r: bool)
    ensures
        r == (cached@.sku == sku@ && cached@.id.len() > 0),
{
    str_eq(cached.sku.as_str(), sku) && !cached.id.as_str().is_empty()
}

/// The product a SKU query found: the first one, which must have that SKU.
pub fn select_product_by_sku(products: Vec<WooCommerceProduct>, sku: &str) -> (r: Result<WooCommerceProduct, String>)
    ensures
        products@.len() == 0 ==> (r matches Err(m) && m@ == "No product found with SKU: "@ + sku@),
        products@.len() > 0 && products@[0]@.sku != sku@ ==> (r matches Err(m) && m@
            == "Product SKU mismatch: expected "@ + sku@ + ", found "@ + products@[0]@.sku),
        products@.len() > 0 && products@[0]@.sku == sku@ ==> (r matches Ok(p) && p@ == products@[0]@),
{
    if products.len() == 0 {
        return Err(concat("No product found with SKU: ", sku));
    }
    let first = products[0].duplicate();
    if !str_eq(first.sku.as_str(), sku) {
        let a = concat("Product SKU mismatch: expected ", sku);
        let b = concat(a.as_str(), ", found ");
        return Err(concat(b.as_str(), first.sku.as_str()));
    }
    Ok(first)
}

/// The variation a SKU query found: the first one, which must have that SKU.
pub fn select_variation_by_sku(products: Vec<ProductVariation>, sku: &str) -> (r: Result<ProductVariation, String>)
    ensures
        products@.len() == 0 ==> (r matches Err(m) && m@ == "No product variation found with SKU: "@ + sku@),
        products@.len() > 0 && products@[0]@.sku != sku@ ==> (r matches Err(m) && m@
            == "Product SKU mismatch: expected "@ + sku@ + ", found "@ + products@[0]@.sku),
        products@.len() > 0 && products@[0]@.sku == sku@ ==> (r matches Ok(p) && p@ == products@[0]@),
{
    if products.len() == 0 {
        return Err(concat("No product variation found with SKU: ", sku));
    }
    let first = products[0].duplicate();
    if !str_eq(first.sku.as_str(), sku) {
        let a = concat("Product SKU mismatch: expected ", sku);
        let b = concat(a.as_str(), ", found ");
        return Err(concat(b.as_str(), first.sku.as_str()));
    }
    Ok(first)
}

/// The product an id query found, which must have that id.
pub fn check_product_id(product: WooCommerceProduct, id: &str) -> (r: Result<WooCommerceProduct, String>)
    ensures
        product@.id == id@ ==> (r matches Ok(p) && p@ == product@),
        product@.id != id@ ==> (r matches Err(m) && m@ == "Product SKU mismatch: expected "@ + id@ + ", found "@
            + product@.sku),
{
    if !str_eq(product.id.as_str(), id) {
        let a = concat("Product SKU mismatch: expected ", id);
        let b = concat(a.as_str(), ", found ");
        return Err(concat(b.as_str(), product.sku.as_str()));
    }
    Ok(product)
}

/// The variation an id query found, which must have that id.
pub fn check_variation_id(product: ProductVariation, id: &str) -> (r: Result<ProductVariation, String>)
    ensures
        product@.id == id@ ==> (r matches Ok(p) && p@ == product@),
        product@.id != id@ ==> (r matches Err(m) && m@ == "Product SKU mismatch: expected "@ + id@ + ", found "@
            + product@.sku),
{
    if !str_eq(product.id.as_str(), id) {
        let a = concat("Product SKU mismatch: expected ", id);
        let b = concat(a.as_str(), ", found ");
        return Err(concat(b.as_str(), product.sku.as_str()));
    }
    Ok(product)
}

/// What a dry run answers for a product it would create: the product with
/// the id `dry_run_<sku>`.
pub fn dry_run_product(product: &WooCommerceProduct) -> (r: WooCommerceProduct)
    ensures
        r@ == (WooCommerceProductView { id: "dry_run_"@ + product@.sku, ..product@ }),
{
    let mut p = product.duplicate();
    p.set_id(concat("dry_run_", product.sku.as_str()));
    p
}

/// What a dry run answers for a variation it would create: the variation
/// with the id `dry_run_var_<sku>`.
pub fn dry_run_variation(product: &ProductVariation) -> (r: ProductVariation)
    ensures
        r@ == (ProductVariationView { id: "dry_run_var_"@ + product@.sku, ..product@ }),
{
    let mut p = product.duplicate();
    p.set_id(concat("dry_run_var_", product.sku.as_str()));
    p
}

/// What a dry run answers for a batch: every product to create with a dry
/// run id, the updates as they were.
pub fn dry_run_batch(create: &Vec<WooCommerceProduct>) -> (r: Vec<WooCommerceProduct>)
    ensures
        r@.len() == create@.len(),
        forall|i: int| 0 <= i < create@.len() ==> (#[trigger] r@[i])@ == (WooCommerceProductView {
            id: "dry_run_"@ + create@[i]@.sku,
            ..create@[i]@
        }),
{
    let mut out: Vec<WooCommerceProduct> = Vec::new();
    let mut i: usize = 0;
    while i < create.len()
        invariant
            i <= create.len(),
            out@.len() == i,
            forall|j: int| 0 <= j < i ==> (#[trigger] out@[j])@ == (WooCommerceProductView {
                id: "dry_run_"@ + create@[j]@.sku,
                ..create@[j]@
            }),
        decreases create.len() - i,
    {
        out.push(dry_run_product(&create[i]));
        i = i + 1;
    }
    out
}

/// Whether a product is unchanged since it was last sent: the fingerprint of
/// its JSON text equals the one stored.
pub fn fingerprint_matches(product_json: String, stored: &str) -> (r: bool)
    ensures
        r == (hex_of(sha256_of(product_json@)) == stored@),
{
    let h = calculate_hash(product_json);
    str_eq(h.as_str(), stored)
}

/// Each entry with its key cleaned: see `cleaned`.
pub open spec fn cleaned_keys<W>(e: Seq<(Seq<char>, W)>) -> Seq<(Seq<char>, W)> {
    e.map_values(|p: (Seq<char>, W)| (cleaned(p.0), p.1))
}

/// From each cleaned column name back to its property.
pub fn cleaned_reverse_mapping(mapping: &WordPressFieldMapping) -> (r: StrMap<String>)
    ensures
        r@ == insert_all(Seq::empty(), cleaned_keys(mapping.reverse_view())),
{
    let reverse = mapping.get_reverse_mapping();
    let entries = reverse.entries();
    let ghost es = cleaned_keys(reverse@);
    let mut map: StrMap<String> = StrMap::new();
    let mut i: usize = 0;
    while i < entries.len()
        invariant
            i <= entries.len(),
            entries.deep_view() == reverse@,
            es == cleaned_keys(reverse@),
            map@ == insert_all(Seq::empty(), es.take(i as int)),
        decreases entries.len() - i,
    {
        assert(es.take(i as int + 1).drop_last() == es.take(i as int));
        assert(entries.deep_view()[i as int] == (entries@[i as int].0@, entries@[i as int].1@));
        let key = clean_string(entries[i].0.as_str());
        map.insert(key, entries[i].1.clone());
        i = i + 1;
    }
    assert(es.take(entries.len() as int) == es);
    map
}

/// From each cleaned column name back to its attribute.
pub fn cleaned_attribute_mapping(mapping: &WordPressFieldMapping) -> (r: StrMap<AttributeMapping>)
    ensures
        r@ == insert_all(Seq::empty(), cleaned_keys(mapping.inverted_view())),
{
    let inverted = mapping.get_inverted_attribute();
    let entries = inverted.entries();
    let ghost es = cleaned_keys(inverted@);
    let mut map: StrMap<AttributeMapping> = StrMap::new();
    let mut i: usize = 0;
    while i < entries.len()
        invariant
            i <= entries.len(),
            entries.deep_view() == inverted@,
            es == cleaned_keys(inverted@),
            map@ == insert_all(Seq::empty(), es.take(i as int)),
        decreases entries.len() - i,
    {
        assert(es.take(i as int + 1).drop_last() == es.take(i as int));
        assert(entries.deep_view()[i as int] == (entries@[i as int].0@, entries@[i as int].1@));
        let key = clean_string(entries[i].0.as_str());
        map.insert(key, entries[i].1.duplicate());
        i = i + 1;
    }
    assert(es.take(entries.len() as int) == es);
    map
}

} // verus!
