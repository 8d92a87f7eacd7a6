//! Splitting product families into batches of about a given number of
//! products, never splitting a family.
use vstd::prelude::*;
use crate::grouping::{products_in, Family, FamilyView};
use crate::woocommerce::{ProductVariation, WooCommerceProduct};

verus! {

/// A batch of product families and the number of products in it.
pub struct ProductBatch {
    products: Vec<Family>,
    total_product_count: usize,
}

pub struct ProductBatchView {
    pub products: Seq<FamilyView>,
    pub total_product_count: usize,
}

impl View for ProductBatch {
    type V = ProductBatchView;

    closed spec fn view(&self) -> ProductBatchView {
        ProductBatchView { products: self.products.deep_view(), total_product_count: self.total_product_count }
    }
}

/// The number of products in a family: the parent and its variations.
pub open spec fn family_size(f: FamilyView) -> int {
    f.1.len() + 1int
}

impl ProductBatch {
    /// An empty batch.
    pub fn new() -> (r: Self)
        ensures
            r@.products.len() == 0,
            r@.total_product_count == 0,
    {
        ProductBatch { products: Vec::new(), total_product_count: 0 }
    }

    /// Adds a family at the end and counts its products.
    pub fn add_product_family(&mut self, parent: WooCommerceProduct, children: Vec<ProductVariation>)
        requires
            old(self)@.total_product_count + 1 + children@.len() <= usize::MAX,
        ensures
            final(self)@.products == old(self)@.products.push((parent@, children.deep_view())),
            final(self)@.total_product_count == old(self)@.total_product_count + 1 + children@.len(),
            old(self)@.total_product_count == products_in(old(self)@.products) ==> final(self)@.total_product_count
                == products_in(final(self)@.products),
    {
        let family_size = 1 + children.len();
        self.total_product_count = self.total_product_count + family_size;
        let ghost before = self.products.deep_view();
        let ghost entry = (parent@, children.deep_view());
        self.products.push((parent, children));
        assert(self.products.deep_view() =~= before.push(entry));
        proof {
            lemma_products_in_push(before, entry);
        }
    }

    /// Whether adding a family of `family_size` products would take a
    /// non-empty batch past `batch_size` products (an empty batch takes any
    /// family).
    pub fn would_exceed_limit(&self, family_size: usize, batch_size: usize) -> (r: bool)
        ensures
            r == (self@.products.len() > 0 && self@.total_product_count + family_size > batch_size),
    {
        if self.products.len() == 0 {
            assert(self.products.deep_view().len() == 0);
            return false;
        }
        family_size > batch_size || self.total_product_count > batch_size - family_size
    }

    /// The families in the batch.
    pub fn get_products(&self) -> (r: &Vec<Family>)
        ensures
            r.deep_view() == self@.products,
    {
        &self.products
    }

    /// The number of products in the batch.
    pub fn get_total_count(&self) -> (r: usize)
        ensures
            r == self@.total_product_count,
    {
        self.total_product_count
    }
}

/// Batching after reading the families left to right: the closed batches
/// and the open one.
pub open spec fn batch_fold(fs: Seq<FamilyView>, size: int) -> (Seq<Seq<FamilyView>>, Seq<FamilyView>)
    decreases fs.len(),
{
    if fs.len() == 0 {
        (Seq::empty(), Seq::empty())
    } else {
        let (done, cur) = batch_fold(fs.drop_last(), size);
        let f = fs.last();
        if cur.len() > 0 && products_in(cur) + family_size(f) > size {
            (done.push(cur), seq![f])
        } else {
            (done, cur.push(f))
        }
    }
}

/// The batches: each family joins the open batch unless that would take a
/// non-empty batch past `size` products, in which case it opens the next.
pub open spec fn batches_of(fs: Seq<FamilyView>, size: int) -> Seq<Seq<FamilyView>> {
    let (done, cur) = batch_fold(fs, size);
    if cur.len() > 0 { done.push(cur) } else { done }
}

/// The families of the batches, in order.
pub open spec fn flatten(bs: Seq<Seq<FamilyView>>) -> Seq<FamilyView>
    decreases bs.len(),
{
    if bs.len() == 0 {
        Seq::empty()
    } else {
        flatten(bs.drop_last()) + bs.last()
    }
}

/// A batch holds within `size` products, or holds a single family.
pub open spec fn fits(b: Seq<FamilyView>, size: int) -> bool {
    b.len() == 1 || products_in(b) <= size
}

/// The views of the batches' families.
pub open spec fn batch_products(bs: Seq<ProductBatch>) -> Seq<Seq<FamilyView>> {
    bs.map_values(|b: ProductBatch| b@.products)
}

proof fn lemma_products_in_push(g: Seq<FamilyView>, f: FamilyView)
    ensures
        products_in(g.push(f)) == products_in(g) + family_size(f),
{
    assert(g.push(f).drop_last() == g);
}

proof fn lemma_products_in_nonneg(g: Seq<FamilyView>)
    ensures
        products_in(g) >= 0,
    decreases g.len(),
{
    if g.len() > 0 {
        lemma_products_in_nonneg(g.drop_last());
    }
}

/// Adding a family keeps a batch's count equal to the products it holds:
/// when the count was the number of parents and variations in the batch,
/// it is again after `add_product_family`.
pub proof fn law_add_family_keeps_count(b: ProductBatchView, f: FamilyView)
    requires
        b.total_product_count == products_in(b.products),
    ensures
        b.total_product_count + 1 + f.1.len() == products_in(b.products.push(f)),
{
    lemma_products_in_push(b.products, f);
}

proof fn lemma_batch_fold(fs: Seq<FamilyView>, size: int)
    ensures
        ({
            let (done, cur) = batch_fold(fs, size);
            &&& flatten(done) + cur == fs
            &&& fs.len() > 0 ==> cur.len() > 0
            &&& forall|i: int| 0 <= i < done.len() ==> #[trigger] done[i].len() > 0
            &&& forall|i: int| 0 <= i < done.len() ==> fits(#[trigger] done[i], size)
            &&& fits(cur, size) || cur.len() == 0
            &&& forall|i: int|
                0 <= i < done.len() ==> products_in(#[trigger] done[i]) + family_size(
                    (if i + 1 < done.len() { done[i + 1] } else { cur })[0],
                ) > size
        }),
    decreases fs.len(),
{
    if fs.len() > 0 {
        lemma_batch_fold(fs.drop_last(), size);
        let (done, cur) = batch_fold(fs.drop_last(), size);
        let f = fs.last();
        lemma_products_in_push(cur, f);
        if cur.len() > 0 && products_in(cur) + family_size(f) > size {
            let nd = done.push(cur);
            assert(nd.drop_last() == done);
            assert(flatten(nd) == flatten(done) + cur);
            assert(flatten(nd) + seq![f] =~= (flatten(done) + cur).push(f));
            assert(fs.drop_last().push(f) == fs);
            assert forall|i: int| 0 <= i < nd.len() implies #[trigger] nd[i].len() > 0 by {
                if i < done.len() {
                    assert(nd[i] == done[i]);
                }
            }
            assert forall|i: int| 0 <= i < nd.len() implies fits(#[trigger] nd[i], size) by {
                if i < done.len() {
                    assert(nd[i] == done[i]);
                }
            }
            assert forall|i: int|
                0 <= i < nd.len() implies products_in(#[trigger] nd[i]) + family_size(
                (if i + 1 < nd.len() { nd[i + 1] } else { seq![f] })[0],
            ) > size by {
                if i < done.len() {
                    assert(nd[i] == done[i]);
                    if i + 1 < done.len() {
                        assert(nd[i + 1] == done[i + 1]);
                    } else {
                        assert(nd[i + 1] == cur);
                    }
                }
            }
        } else {
            lemma_products_in_nonneg(cur);
            assert(flatten(done) + cur.push(f) =~= (flatten(done) + cur).push(f));
            assert(fs.drop_last().push(f) == fs);
            if cur.len() > 0 {
                assert(cur.push(f)[0] == cur[0]);
            }
            assert forall|i: int|
                0 <= i < done.len() implies products_in(#[trigger] done[i]) + family_size(
                (if i + 1 < done.len() { done[i + 1] } else { cur.push(f) })[0],
            ) > size by {
                if i + 1 >= done.len() {
                    assert(cur.len() > 0);
                    assert(cur.push(f)[0] == cur[0]);
                }
            }
        }
    }
}

/// Batching keeps every family, in order.
pub proof fn law_batches_keep_families(fs: Seq<FamilyView>, size: int)
    ensures
        flatten(batches_of(fs, size)) == fs,
{
    lemma_batch_fold(fs, size);
    let (done, cur) = batch_fold(fs, size);
    if cur.len() > 0 {
        assert(done.push(cur).drop_last() == done);
    } else {
        assert(flatten(done) + cur =~= flatten(done));
    }
}

/// No batch is empty, and each batch holds within `size` products or holds
/// a single family.
pub proof fn law_batches_fit(fs: Seq<FamilyView>, size: int)
    ensures
        forall|i: int| 0 <= i < batches_of(fs, size).len() ==> #[trigger] batches_of(fs, size)[i].len() > 0,
        forall|i: int| 0 <= i < batches_of(fs, size).len() ==> fits(#[trigger] batches_of(fs, size)[i], size),
{
    lemma_batch_fold(fs, size);
    let (done, cur) = batch_fold(fs, size);
    if cur.len() > 0 {
        let bs = done.push(cur);
        assert forall|i: int| 0 <= i < bs.len() implies #[trigger] bs[i].len() > 0 && fits(bs[i], size) by {
            if i < done.len() {
                assert(bs[i] == done[i]);
            }
        }
    }
}

/// A batch is closed only when the next family would take it past `size`
/// products.
pub proof fn law_batches_are_full(fs: Seq<FamilyView>, size: int)
    ensures
        forall|i: int|
            0 <= i < batches_of(fs, size).len() - 1 ==> products_in(#[trigger] batches_of(fs, size)[i])
                + family_size(batches_of(fs, size)[i + 1][0]) > size,
{
    lemma_batch_fold(fs, size);
    let (done, cur) = batch_fold(fs, size);
    if cur.len() > 0 {
        let bs = done.push(cur);
        assert forall|i: int| 0 <= i < bs.len() - 1 implies products_in(#[trigger] bs[i]) + family_size(
            bs[i + 1][0],
        ) > size by {
            assert(bs[i] == done[i]);
            if i + 1 < done.len() {
                assert(bs[i + 1] == done[i + 1]);
            } else {
                assert(bs[i + 1] == cur);
            }
        }
    } else {
        assert(fs.len() == 0);
    }
}

/// Splits the families into batches: see `batches_of`. Each batch counts
/// its products.
pub fn create_product_batches(products_with_children: Vec<Family>, batch_size: usize) -> (r: Vec<ProductBatch>)
    requires
        products_in(products_with_children.deep_view()) <= usize::MAX,
    ensures
        batch_products(r@) == batches_of(products_with_children.deep_view(), batch_size as int),
        forall|i: int| 0 <= i < r@.len() ==> #[trigger] r@[i]@.total_product_count == products_in(r@[i]@.products),
{
    let ghost fs = products_with_children.deep_view();
    let mut batches: Vec<ProductBatch> = Vec::new();
    let mut current_batch = ProductBatch::new();
    let mut families = products_with_children;
    let mut rest: Vec<Family> = Vec::new();
    // Take the families out front to back.
    while families.len() > 0
        invariant
            families.deep_view() + rest.deep_view().reverse() == fs,
        decreases families.len(),
    {
        let ghost before_f = families.deep_view();
        let ghost before_r = rest.deep_view();
        let f = families.pop().unwrap();
        let ghost fv = f.deep_view();
        assert(families.deep_view() =~= before_f.drop_last());
        rest.push(f);
        assert(rest.deep_view() =~= before_r.push(fv));
        assert(rest.deep_view().reverse() =~= seq![fv] + before_r.reverse());
        assert(families.deep_view() + rest.deep_view().reverse() =~= before_f + before_r.reverse());
    }
    assert(families.deep_view() =~= Seq::<FamilyView>::empty());
    assert(rest.deep_view().reverse() =~= fs);
    let mut k: usize = 0;
    let n = rest.len();
    assert(rest.deep_view().len() == n);
    while rest.len() > 0
        invariant
            k + rest.len() == n,
            n == fs.len(),
            rest.deep_view().reverse() == fs.skip(k as int),
            products_in(fs) <= usize::MAX,
            ({
                let (done, cur) = batch_fold(fs.take(k as int), batch_size as int);
                &&& batch_products(batches@) == done
                &&& current_batch@.products == cur
                &&& current_batch@.total_product_count == products_in(cur)
                &&& forall|i: int| 0 <= i < batches@.len() ==> #[trigger] batches@[i]@.total_product_count
                    == products_in(batches@[i]@.products)
            }),
        decreases rest.len(),
    {
        let ghost before_r = rest.deep_view();
        let (parent, children) = rest.pop().unwrap();
        let ghost fv = (parent@, children.deep_view());
        assert(rest.deep_view() =~= before_r.drop_last());
        assert(before_r.reverse()[0] == before_r.last());
        assert(fs.skip(k as int)[0] == fs[k as int]);
        assert(fv == fs[k as int]);
        assert(before_r.reverse().drop_first() =~= before_r.drop_last().reverse());
        assert(fs.skip(k as int).drop_first() =~= fs.skip(k as int + 1));
        assert(rest.deep_view().reverse() =~= fs.skip(k as int + 1));
        assert(fs.take(k as int + 1).drop_last() == fs.take(k as int));
        assert(fs.take(k as int + 1).last() == fv);
        let ghost (done, cur) = batch_fold(fs.take(k as int), batch_size as int);
        proof {
            lemma_products_in_push(cur, fv);
            lemma_prefix_products(fs, k as int + 1);
            lemma_batch_fold(fs.take(k as int + 1), batch_size as int);
            lemma_fold_products(fs.take(k as int), batch_size as int);
        }
        assert(children.deep_view().len() == children@.len());
        let family_size = 1 + children.len();
        let ghost next = batch_fold(fs.take(k as int + 1), batch_size as int);
        if current_batch.would_exceed_limit(family_size, batch_size) {
            assert(next == (done.push(cur), seq![fv]));
            let ghost before_b = batches@;
            batches.push(current_batch);
            assert(batch_products(batches@) =~= batch_products(before_b).push(cur));
            assert forall|i: int| 0 <= i < batches@.len() implies #[trigger] batches@[i]@.total_product_count
                == products_in(batches@[i]@.products) by {
                if i < before_b.len() {
                    assert(batches@[i] == before_b[i]);
                }
            }
            current_batch = ProductBatch::new();
            assert(current_batch@.products =~= Seq::<FamilyView>::empty());
            proof {
                lemma_products_in_push(Seq::<FamilyView>::empty(), fv);
                assert(Seq::<FamilyView>::empty().push(fv) =~= seq![fv]);
            }
        } else {
            assert(next == (done, cur.push(fv)));
        }
        current_batch.add_product_family(parent, children);
        assert(current_batch@.products =~= next.1);
        assert(batch_products(batches@) == next.0);
        k = k + 1;
    }
    assert(fs.take(n as int) == fs);
    if current_batch.get_products().len() > 0 {
        let ghost before_b = batch_products(batches@);
        let ghost cur = current_batch@.products;
        batches.push(current_batch);
        assert(batch_products(batches@) =~= before_b.push(cur));
    }
    batches
}

proof fn lemma_prefix_products(fs: Seq<FamilyView>, k: int)
    requires
        0 <= k <= fs.len(),
    ensures
        products_in(fs.take(k)) <= products_in(fs),
    decreases fs.len() - k,
{
    if k < fs.len() {
        lemma_prefix_products(fs, k + 1);
        assert(fs.take(k + 1).drop_last() == fs.take(k));
    } else {
        assert(fs.take(k) == fs);
    }
}

/// The products of the open batch are among those of the families read.
proof fn lemma_fold_products(fs: Seq<FamilyView>, size: int)
    ensures
        products_in(batch_fold(fs, size).1) <= products_in(fs),
    decreases fs.len(),
{
    if fs.len() > 0 {
        lemma_fold_products(fs.drop_last(), size);
        let (done, cur) = batch_fold(fs.drop_last(), size);
        let f = fs.last();
        lemma_products_in_push(cur, f);
        lemma_products_in_push(fs.drop_last(), f);
        assert(fs.drop_last().push(f) == fs);
        lemma_products_in_nonneg(cur);
        lemma_products_in_push(Seq::empty(), f);
        assert(Seq::<FamilyView>::empty().push(f) == seq![f]);
        lemma_products_in_nonneg(fs.drop_last());
    }
}

} // verus!
