//! Grouping the rows of a CSV file into product families: each parent
//! product with the variations that name it as their parent.
use vstd::prelude::*;
use crate::builder::{built, woo_build_product, WooProduct, WooProductView};
use crate::field_mapping::{AttributeMapping, AttributeMappingView};
use crate::processing_result::{FailedRow, FailedRowView};
use crate::str_map::{index_of_key, insert_all, inserted, lemma_index_of_key, lookup, removed, StrMap};
use crate::text::{concat, lowercase, lowered};
use crate::value::{Duplicate, ViewEq};
use crate::woocommerce::{
    text_or_empty, ProductAttribute, ProductAttributeView, ProductVariation, ProductVariationView,
    VariationAttribute, VariationAttributeView, WooCommerceProduct, WooCommerceProductView,
};

verus! {

/// A product family: a parent and its variations.
pub type Family = (WooCommerceProduct, Vec<ProductVariation>);

pub type FamilyView = (WooCommerceProductView, Seq<ProductVariationView>);

/// The families built from a file, and the rows that could not be read.
pub struct GroupParentResult {
    group: Vec<Family>,
    failed: Vec<FailedRow>,
}

pub struct GroupParentResultView {
    pub group: Seq<FamilyView>,
    pub failed: Seq<FailedRowView>,
}

impl View for GroupParentResult {
    type V = GroupParentResultView;

    closed spec fn view(&self) -> GroupParentResultView {
        GroupParentResultView { group: self.group.deep_view(), failed: self.failed.deep_view() }
    }
}

/// The number of products in the families: parents and variations.
pub open spec fn products_in(g: Seq<FamilyView>) -> int
    decreases g.len(),
{
    if g.len() == 0 {
        0
    } else {
        products_in(g.drop_last()) + 1 + g.last().1.len()
    }
}

proof fn lemma_products_in_nonneg(g: Seq<FamilyView>)
    ensures
        products_in(g) >= g.len(),
    decreases g.len(),
{
    if g.len() > 0 {
        lemma_products_in_nonneg(g.drop_last());
    }
}

impl GroupParentResult {
    /// No families and no failed rows.
    pub fn new() -> (r: Self)
        ensures
            r@.group.len() == 0,
            r@.failed.len() == 0,
    {
        GroupParentResult { group: Vec::new(), failed: Vec::new() }
    }

    /// The families.
    pub fn get_group(&self) -> (r: &Vec<Family>)
        ensures
            r.deep_view() == self@.group,
    {
        &self.group
    }

    /// The rows that could not be read.
    pub fn get_failed(&self) -> (r: &Vec<FailedRow>)
        ensures
            r.deep_view() == self@.failed,
    {
        &self.failed
    }

    /// The number of families and failed rows together.
    pub fn get_total(&self) -> (r: usize)
        requires
            self@.group.len() + self@.failed.len() <= usize::MAX,
        ensures
            r == self@.group.len() + self@.failed.len(),
    {
        self.group.len() + self.failed.len()
    }

    /// The number of products: every parent and every variation.
    pub fn get_total_products(&self) -> (r: usize)
        requires
            products_in(self@.group) <= usize::MAX,
        ensures
            r == products_in(self@.group),
    {
        let mut total: usize = 0;
        let mut i: usize = 0;
        let ghost g = self@.group;
        while i < self.group.len()
            invariant
                i <= self.group.len(),
                g == self.group.deep_view(),
                products_in(g) <= usize::MAX,
                total == products_in(g.take(i as int)),
            decreases self.group.len() - i,
        {
            assert(g.take(i as int + 1).drop_last() == g.take(i as int));
            assert(g[i as int].1.len() == self.group@[i as int].1@.len());
            proof {
                let rest = g.skip(i as int + 1);
                assert(g == g.take(i as int + 1) + rest);
                lemma_products_in_split(g.take(i as int + 1), rest);
                lemma_products_in_nonneg(rest);
            }
            total = total + 1 + self.group[i].1.len();
            i = i + 1;
        }
        assert(g.take(self.group.len() as int) == g);
        total
    }

    /// Adds a family at the end.
    pub fn add_group(&mut self, parent: WooCommerceProduct, children: Vec<ProductVariation>)
        ensures
            final(self)@.group == old(self)@.group.push((parent@, children.deep_view())),
            final(self)@.failed == old(self)@.failed,
    {
        let ghost before = self.group.deep_view();
        let ghost entry = (parent@, children.deep_view());
        self.group.push((parent, children));
        assert(self.group.deep_view() =~= before.push(entry));
    }

    /// Adds families at the end, in order.
    pub fn add_many_group(&mut self, groups: Vec<Family>)
        ensures
            final(self)@.group == old(self)@.group + groups.deep_view(),
            final(self)@.failed == old(self)@.failed,
    {
        let ghost before = self.group.deep_view();
        let ghost added = groups.deep_view();
        let mut groups = groups;
        self.group.append(&mut groups);
        assert(self.group.deep_view() =~= before + added);
    }

    /// Records a row that could not be read.
    pub fn add_failed_row(&mut self, row_number: usize, reason: String)
        ensures
            final(self)@.failed == old(self)@.failed.push(
                FailedRowView { row_number: row_number, reason: reason@, sku: None },
            ),
            final(self)@.group == old(self)@.group,
    {
        let ghost before = self.failed.deep_view();
        let ghost entry = FailedRowView { row_number: row_number, reason: reason@, sku: None };
        self.failed.push(FailedRow { row_number, reason, sku: None });
        assert(self.failed.deep_view() =~= before.push(entry));
    }
}

/// A CSV record as read: its cells, or the text of the error that reading it gave.
pub open spec fn record_view(r: Result<Vec<String>, String>) -> Result<Seq<Seq<char>>, Seq<char>> {
    match r {
        Ok(cells) => Ok(cells.deep_view()),
        Err(e) => Err(e@),
    }
}

pub open spec fn records_view(rs: Seq<Result<Vec<String>, String>>) -> Seq<Result<Seq<Seq<char>>, Seq<char>>> {
    rs.map_values(|r: Result<Vec<String>, String>| record_view(r))
}

/// The number of columns of a row: the header and the cells, whichever is shorter.
pub open spec fn row_width(headers: Seq<Seq<char>>, cells: Seq<Seq<char>>) -> int {
    if headers.len() < cells.len() { headers.len() as int } else { cells.len() as int }
}

/// Each cell under the property its header maps to, lowercased (the empty
/// name for an unmapped header).
pub open spec fn row_pairs(headers: Seq<Seq<char>>, cells: Seq<Seq<char>>, rev: Seq<(Seq<char>, Seq<char>)>) -> Seq<(Seq<char>, Seq<char>)> {
    Seq::new(
        row_width(headers, cells) as nat,
        |i: int| (lowered(text_or_empty(lookup(rev, headers[i]))), cells[i]),
    )
}

/// The attribute mapping of a header, or an empty one.
pub open spec fn attribute_of_header(arev: Seq<(Seq<char>, AttributeMappingView)>, h: Seq<char>) -> AttributeMappingView {
    match lookup(arev, h) {
        Some(m) => m,
        None => AttributeMappingView { column: Seq::empty(), variable: false },
    }
}

/// Each cell under the attribute its header maps to, lowercased, holding the
/// cell as its column.
pub open spec fn attribute_pairs(headers: Seq<Seq<char>>, cells: Seq<Seq<char>>, arev: Seq<(Seq<char>, AttributeMappingView)>) -> Seq<(Seq<char>, AttributeMappingView)> {
    Seq::new(
        row_width(headers, cells) as nat,
        |i: int|
            (
                lowered(attribute_of_header(arev, headers[i]).column),
                AttributeMappingView { column: cells[i], variable: attribute_of_header(arev, headers[i]).variable },
            ),
    )
}

/// What the rows read so far have given: failed rows, parent products in
/// row order, and the variations gathered under each parent SKU.
pub struct RowScan {
    pub failed: Seq<FailedRowView>,
    pub parents: Seq<WooCommerceProductView>,
    pub children: Seq<(Seq<char>, Seq<ProductVariationView>)>,
}

/// The variations stored under `key`, or none.
pub open spec fn kids_of(children: Seq<(Seq<char>, Seq<ProductVariationView>)>, key: Seq<char>) -> Seq<ProductVariationView> {
    match lookup(children, key) {
        Some(k) => k,
        None => Seq::empty(),
    }
}

/// Reading one more record, the `n`-th.
pub open spec fn scan_step(
    s: RowScan,
    rec: Result<Seq<Seq<char>>, Seq<char>>,
    n: nat,
    headers: Seq<Seq<char>>,
    rev: Seq<(Seq<char>, Seq<char>)>,
    arev: Seq<(Seq<char>, AttributeMappingView)>,
) -> RowScan {
    match rec {
        Err(e) => RowScan {
            failed: s.failed.push(
                FailedRowView { row_number: n as usize, reason: "Error processing record: "@ + e, sku: None },
            ),
            ..s
        },
        Ok(cells) => match built(
            insert_all(Seq::empty(), row_pairs(headers, cells, rev)),
            insert_all(Seq::empty(), attribute_pairs(headers, cells, arev)),
        ) {
            WooProductView::Product(p) => RowScan {
                parents: s.parents.push(p),
                children: if index_of_key(s.children, p.sku) >= 0 {
                    s.children
                } else {
                    inserted(s.children, p.sku, Seq::empty())
                },
                ..s
            },
            WooProductView::Variation(v) => RowScan {
                children: inserted(s.children, v.parent, kids_of(s.children, v.parent).push(v)),
                ..s
            },
        },
    }
}

/// Reading the records in order, numbering them from 1.
pub open spec fn scan_rows(
    records: Seq<Result<Seq<Seq<char>>, Seq<char>>>,
    headers: Seq<Seq<char>>,
    rev: Seq<(Seq<char>, Seq<char>)>,
    arev: Seq<(Seq<char>, AttributeMappingView)>,
) -> RowScan
    decreases records.len(),
{
    if records.len() == 0 {
        RowScan { failed: Seq::empty(), parents: Seq::empty(), children: Seq::empty() }
    } else {
        scan_step(
            scan_rows(records.drop_last(), headers, rev, arev),
            records.last(),
            records.len(),
            headers,
            rev,
            arev,
        )
    }
}

/// The position of the first attribute called `name`, or -1.
pub open spec fn attr_index(attrs: Seq<ProductAttributeView>, name: Seq<char>) -> int
    decreases attrs.len(),
{
    if attrs.len() == 0 {
        -1
    } else if attrs[0].name == name {
        0
    } else {
        let j = attr_index(attrs.drop_first(), name);
        if j < 0 { -1 } else { j + 1 }
    }
}

/// A parent's attributes after taking in one option of a variation: the
/// option joins the first attribute of that name unless it is there already;
/// an attribute of a new name is added, visible and used for variations.
pub open spec fn absorb_option(attrs: Seq<ProductAttributeView>, ca: VariationAttributeView) -> Seq<ProductAttributeView> {
    let i = attr_index(attrs, ca.name);
    if i < 0 {
        attrs.push(
            ProductAttributeView {
                name: ca.name,
                position: None,
                visible: Some(true),
                variation: Some(true),
                options: seq![ca.option],
            },
        )
    } else if attrs[i].options.contains(ca.option) {
        attrs
    } else {
        attrs.update(i, ProductAttributeView { options: attrs[i].options.push(ca.option), ..attrs[i] })
    }
}

/// Taking in each option in turn.
pub open spec fn absorb_options(attrs: Seq<ProductAttributeView>, cas: Seq<VariationAttributeView>) -> Seq<ProductAttributeView>
    decreases cas.len(),
{
    if cas.len() == 0 {
        attrs
    } else {
        absorb_option(absorb_options(attrs, cas.drop_last()), cas.last())
    }
}

/// Taking in the options of each variation in turn.
pub open spec fn absorb_children(attrs: Seq<ProductAttributeView>, kids: Seq<ProductVariationView>) -> Seq<ProductAttributeView>
    decreases kids.len(),
{
    if kids.len() == 0 {
        attrs
    } else {
        absorb_options(absorb_children(attrs, kids.drop_last()), kids.last().attributes)
    }
}

/// The parent with its variations' options taken into its attributes.
pub open spec fn with_children_attributes(p: WooCommerceProductView, kids: Seq<ProductVariationView>) -> WooCommerceProductView {
    WooCommerceProductView { attributes: absorb_children(p.attributes, kids), ..p }
}

/// The families: each parent in order takes the variations gathered under
/// its SKU (a later parent with the same SKU finds none left).
pub open spec fn assemble(parents: Seq<WooCommerceProductView>, children: Seq<(Seq<char>, Seq<ProductVariationView>)>) -> Seq<FamilyView>
    decreases parents.len(),
{
    if parents.len() == 0 {
        Seq::empty()
    } else {
        let p = parents[0];
        let kids = kids_of(children, p.sku);
        seq![(with_children_attributes(p, kids), kids)] + assemble(parents.drop_first(), removed(children, p.sku))
    }
}

/// What grouping the records gives.
pub open spec fn grouped(
    records: Seq<Result<Seq<Seq<char>>, Seq<char>>>,
    headers: Seq<Seq<char>>,
    rev: Seq<(Seq<char>, Seq<char>)>,
    arev: Seq<(Seq<char>, AttributeMappingView)>,
) -> GroupParentResultView {
    let s = scan_rows(records, headers, rev, arev);
    GroupParentResultView { group: assemble(s.parents, s.children), failed: s.failed }
}

/// A row read as a map from properties to cells: see `row_pairs`.
pub fn build_row_map(headers: &Vec<String>, cells: &Vec<String>, reverse_mapping: &StrMap<String>) -> (r: StrMap<String>)
    ensures
        r@ == insert_all(Seq::empty(), row_pairs(headers.deep_view(), cells.deep_view(), reverse_mapping@)),
{
    let n = if headers.len() < cells.len() { headers.len() } else { cells.len() };
    let ghost pairs = row_pairs(headers.deep_view(), cells.deep_view(), reverse_mapping@);
    let mut map: StrMap<String> = StrMap::new();
    let mut i: usize = 0;
    while i < n
        invariant
            i <= n,
            n == row_width(headers.deep_view(), cells.deep_view()),
            n <= headers.len(),
            n <= cells.len(),
            pairs == row_pairs(headers.deep_view(), cells.deep_view(), reverse_mapping@),
            map@ == insert_all(Seq::empty(), pairs.take(i as int)),
        decreases n - i,
    {
        assert(pairs.take(i as int + 1).drop_last() == pairs.take(i as int));
        let key = match reverse_mapping.get(headers[i].as_str()) {
            Some(p) => lowercase(p.as_str()),
            None => {
                proof {
                    reveal_strlit("");
                    assert(""@ =~= Seq::<char>::empty());
                }
                lowercase("")
            },
        };
        assert(headers.deep_view()[i as int] == headers@[i as int]@);
        assert(cells.deep_view()[i as int] == cells@[i as int]@);
        map.insert(key, cells[i].clone());
        i = i + 1;
    }
    assert(pairs.take(n as int) == pairs);
    map
}

/// A row read as a map from attributes to cells: see `attribute_pairs`.
pub fn build_attribute_row_map(headers: &Vec<String>, cells: &Vec<String>, attribute_reverse: &StrMap<AttributeMapping>) -> (r: StrMap<AttributeMapping>)
    ensures
        r@ == insert_all(Seq::empty(), attribute_pairs(headers.deep_view(), cells.deep_view(), attribute_reverse@)),
{
    let n = if headers.len() < cells.len() { headers.len() } else { cells.len() };
    let ghost pairs = attribute_pairs(headers.deep_view(), cells.deep_view(), attribute_reverse@);
    let mut map: StrMap<AttributeMapping> = StrMap::new();
    let mut i: usize = 0;
    while i < n
        invariant
            i <= n,
            n == row_width(headers.deep_view(), cells.deep_view()),
            n <= headers.len(),
            n <= cells.len(),
            pairs == attribute_pairs(headers.deep_view(), cells.deep_view(), attribute_reverse@),
            map@ == insert_all(Seq::empty(), pairs.take(i as int)),
        decreases n - i,
    {
        assert(pairs.take(i as int + 1).drop_last() == pairs.take(i as int));
        assert(headers.deep_view()[i as int] == headers@[i as int]@);
        assert(cells.deep_view()[i as int] == cells@[i as int]@);
        let default_mapping = AttributeMapping::default();
        let m: &AttributeMapping = match attribute_reverse.get(headers[i].as_str()) {
            Some(m) => m,
            None => &default_mapping,
        };
        let key = lowercase(m.column.as_str());
        map.insert(key, AttributeMapping { column: cells[i].clone(), variable: m.variable });
        i = i + 1;
    }
    assert(pairs.take(n as int) == pairs);
    map
}

proof fn lemma_attr_index_is(attrs: Seq<ProductAttributeView>, name: Seq<char>, i: int)
    requires
        -1 <= i < attrs.len(),
        i >= 0 ==> attrs[i].name == name,
        forall|j: int| 0 <= j < attrs.len() && (i < 0 || j < i) ==> #[trigger] attrs[j].name != name,
    ensures
        attr_index(attrs, name) == i,
    decreases attrs.len(),
{
    if attrs.len() > 0 {
        if attrs[0].name != name {
            let t = attrs.drop_first();
            assert forall|j: int| 0 <= j < t.len() && (i - 1 < 0 || j < i - 1) implies #[trigger] t[j].name != name by {
                assert(t[j] == attrs[j + 1]);
            }
            if i >= 1 {
                assert(t[i - 1] == attrs[i]);
            }
            lemma_attr_index_is(t, name, if i < 0 { -1 } else { i - 1 });
        } else {
            if i != 0 {
                assert(attrs[0].name != name);
            }
        }
    }
}

/// The first attribute called `name` offers `option`.
pub open spec fn offers(attrs: Seq<ProductAttributeView>, name: Seq<char>, option: Seq<char>) -> bool {
    let i = attr_index(attrs, name);
    0 <= i < attrs.len() && attrs[i].options.contains(option)
}

/// The attributes offer every option that the variations use.
pub open spec fn offers_all(attrs: Seq<ProductAttributeView>, kids: Seq<ProductVariationView>) -> bool {
    forall|k: int, j: int|
        0 <= k < kids.len() && 0 <= j < kids[k].attributes.len() ==> offers(
            attrs,
            #[trigger] kids[k].attributes[j].name,
            kids[k].attributes[j].option,
        )
}

proof fn lemma_attr_index(attrs: Seq<ProductAttributeView>, name: Seq<char>)
    ensures
        -1 <= attr_index(attrs, name) < attrs.len(),
        attr_index(attrs, name) >= 0 ==> attrs[attr_index(attrs, name)].name == name,
        forall|j: int|
            0 <= j < attrs.len() && (attr_index(attrs, name) < 0 || j < attr_index(attrs, name))
                ==> #[trigger] attrs[j].name != name,
    decreases attrs.len(),
{
    if attrs.len() > 0 && attrs[0].name != name {
        let t = attrs.drop_first();
        lemma_attr_index(t, name);
        assert forall|j: int|
            0 <= j < attrs.len() && (attr_index(attrs, name) < 0 || j < attr_index(attrs, name))
                implies #[trigger] attrs[j].name != name by {
            if j > 0 {
                assert(attrs[j] == t[j - 1]);
            }
        }
    }
}

/// Taking in an option makes it offered, and keeps offered what was.
proof fn lemma_absorb_option(attrs: Seq<ProductAttributeView>, ca: VariationAttributeView, n: Seq<char>, o: Seq<char>)
    ensures
        offers(absorb_option(attrs, ca), ca.name, ca.option),
        offers(attrs, n, o) ==> offers(absorb_option(attrs, ca), n, o),
{
    let r = absorb_option(attrs, ca);
    let i = attr_index(attrs, ca.name);
    lemma_attr_index(attrs, ca.name);
    lemma_attr_index(attrs, n);
    let k = attr_index(attrs, n);
    if i < 0 {
        assert forall|j: int| 0 <= j < r.len() && j < attrs.len() implies #[trigger] r[j].name != ca.name by {
            assert(r[j] == attrs[j]);
        }
        lemma_attr_index_is(r, ca.name, attrs.len() as int);
        assert(r[attrs.len() as int].options == seq![ca.option]);
        assert(r[attrs.len() as int].options[0] == ca.option);
        if offers(attrs, n, o) {
            assert forall|j: int| 0 <= j < r.len() && (k < 0 || j < k) implies #[trigger] r[j].name != n by {
                assert(r[j] == attrs[j]);
            }
            lemma_attr_index_is(r, n, k);
        }
    } else if !attrs[i].options.contains(ca.option) {
        assert forall|j: int| 0 <= j < r.len() && j < i implies #[trigger] r[j].name != ca.name by {
            assert(r[j] == attrs[j]);
        }
        lemma_attr_index_is(r, ca.name, i);
        assert(r[i].options == attrs[i].options.push(ca.option));
        assert(r[i].options[attrs[i].options.len() as int] == ca.option);
        if offers(attrs, n, o) {
            assert forall|j: int| 0 <= j < r.len() && (k < 0 || j < k) implies #[trigger] r[j].name != n by {
                assert(r[j].name == attrs[j].name);
            }
            assert(r[k].name == attrs[k].name);
            lemma_attr_index_is(r, n, k);
            let w = choose|w: int| 0 <= w < attrs[k].options.len() && attrs[k].options[w] == o;
            if k == i {
                assert(r[k].options[w] == o);
            } else {
                assert(r[k] == attrs[k]);
            }
        }
    }
}

/// Taking in options in turn makes each offered, and keeps offered what was.
proof fn lemma_absorb_options(attrs: Seq<ProductAttributeView>, cas: Seq<VariationAttributeView>, n: Seq<char>, o: Seq<char>)
    ensures
        forall|j: int| 0 <= j < cas.len() ==> offers(absorb_options(attrs, cas), #[trigger] cas[j].name, cas[j].option),
        offers(attrs, n, o) ==> offers(absorb_options(attrs, cas), n, o),
    decreases cas.len(),
{
    if cas.len() > 0 {
        let d = cas.drop_last();
        let prev = absorb_options(attrs, d);
        lemma_absorb_options(attrs, d, n, o);
        lemma_absorb_option(prev, cas.last(), n, o);
        assert forall|j: int| 0 <= j < cas.len() implies offers(absorb_options(attrs, cas), #[trigger] cas[j].name, cas[j].option) by {
            if j < d.len() {
                assert(cas[j] == d[j]);
                lemma_absorb_option(prev, cas.last(), cas[j].name, cas[j].option);
            }
        }
    }
}

/// Taking in the variations' options in turn makes each offered, and keeps
/// offered what was.
proof fn lemma_absorb_children(attrs: Seq<ProductAttributeView>, kids: Seq<ProductVariationView>, n: Seq<char>, o: Seq<char>)
    ensures
        offers_all(absorb_children(attrs, kids), kids),
        offers(attrs, n, o) ==> offers(absorb_children(attrs, kids), n, o),
    decreases kids.len(),
{
    if kids.len() > 0 {
        let d = kids.drop_last();
        let prev = absorb_children(attrs, d);
        let r = absorb_children(attrs, kids);
        let last = kids.last().attributes;
        lemma_absorb_children(attrs, d, n, o);
        lemma_absorb_options(prev, last, n, o);
        assert forall|k: int, j: int| 0 <= k < kids.len() && 0 <= j < kids[k].attributes.len() implies offers(
            r,
            #[trigger] kids[k].attributes[j].name,
            kids[k].attributes[j].option,
        ) by {
            if k < d.len() {
                assert(kids[k] == d[k]);
                assert(offers(prev, d[k].attributes[j].name, d[k].attributes[j].option));
                lemma_absorb_options(prev, last, kids[k].attributes[j].name, kids[k].attributes[j].option);
            } else {
                assert(kids[k].attributes == last);
                assert(offers(r, last[j].name, last[j].option));
            }
        }
    }
}

/// A parent offers every option its variations use, and keeps offering what
/// it offered before.
pub proof fn law_parent_offers_children_options(
    p: WooCommerceProductView,
    kids: Seq<ProductVariationView>,
    n: Seq<char>,
    o: Seq<char>,
)
    ensures
        offers_all(with_children_attributes(p, kids).attributes, kids),
        offers(p.attributes, n, o) ==> offers(with_children_attributes(p, kids).attributes, n, o),
{
    lemma_absorb_children(p.attributes, kids, n, o);
}

/// No attribute lists the same option twice.
pub open spec fn options_distinct(attrs: Seq<ProductAttributeView>) -> bool {
    forall|i: int| 0 <= i < attrs.len() ==> (#[trigger] attrs[i]).options.no_duplicates()
}

/// Taking in an option that the attribute of that name already offers
/// leaves the attributes as they were.
pub proof fn law_absorb_offered_option_changes_nothing(attrs: Seq<ProductAttributeView>, ca: VariationAttributeView)
    requires
        offers(attrs, ca.name, ca.option),
    ensures
        absorb_option(attrs, ca) == attrs,
{
    lemma_attr_index(attrs, ca.name);
}

/// Taking in an option changes at most the options of an attribute of that
/// name, and only by adding the option at their end where it is missing;
/// where no attribute has that name, a visible attribute used for
/// variations, offering just that option, is added at the end.
pub proof fn law_absorb_option_adds_only_missing(attrs: Seq<ProductAttributeView>, ca: VariationAttributeView)
    ensures
        (exists|j: int| 0 <= j < attrs.len() && #[trigger] attrs[j].name == ca.name) ==> {
            &&& absorb_option(attrs, ca).len() == attrs.len()
            &&& forall|j: int|
                0 <= j < attrs.len() ==> #[trigger] absorb_option(attrs, ca)[j] == attrs[j] || (attrs[j].name
                    == ca.name && !attrs[j].options.contains(ca.option) && absorb_option(attrs, ca)[j] == (
                ProductAttributeView { options: attrs[j].options.push(ca.option), ..attrs[j] }))
        },
        (forall|j: int| 0 <= j < attrs.len() ==> #[trigger] attrs[j].name != ca.name) ==> absorb_option(attrs, ca)
            == attrs.push(
            (ProductAttributeView {
                name: ca.name,
                position: None,
                visible: Some(true),
                variation: Some(true),
                options: seq![ca.option],
            }),
        ),
{
    lemma_attr_index(attrs, ca.name);
    let i = attr_index(attrs, ca.name);
    if exists|j: int| 0 <= j < attrs.len() && #[trigger] attrs[j].name == ca.name {
        let w = choose|j: int| 0 <= j < attrs.len() && #[trigger] attrs[j].name == ca.name;
        assert(attrs[w].name == ca.name && i >= 0);
    }
    if forall|j: int| 0 <= j < attrs.len() ==> #[trigger] attrs[j].name != ca.name {
        if i >= 0 {
            assert(attrs[i].name == ca.name);
        }
    }
}

/// Taking in an option keeps every attribute's options free of repeats.
proof fn lemma_absorb_option_distinct(attrs: Seq<ProductAttributeView>, ca: VariationAttributeView)
    requires
        options_distinct(attrs),
    ensures
        options_distinct(absorb_option(attrs, ca)),
{
    let r = absorb_option(attrs, ca);
    let i = attr_index(attrs, ca.name);
    lemma_attr_index(attrs, ca.name);
    if i < 0 {
        assert forall|j: int| 0 <= j < r.len() implies (#[trigger] r[j]).options.no_duplicates() by {
            if j < attrs.len() {
                assert(r[j] == attrs[j]);
            } else {
                assert(r[j].options == seq![ca.option]);
            }
        }
    } else if !attrs[i].options.contains(ca.option) {
        let o = attrs[i].options;
        assert(o.no_duplicates());
        assert forall|j: int| 0 <= j < r.len() implies (#[trigger] r[j]).options.no_duplicates() by {
            if j == i {
                let p = o.push(ca.option);
                assert(r[j].options == p);
                assert forall|a: int, b: int| 0 <= a < p.len() && 0 <= b < p.len() && a != b implies p[a] != p[b] by {
                    if a < o.len() && b < o.len() {
                        assert(p[a] == o[a] && p[b] == o[b]);
                    } else if a < o.len() {
                        assert(p[a] == o[a]);
                        assert(p[b] == ca.option);
                    } else {
                        assert(p[b] == o[b]);
                        assert(p[a] == ca.option);
                    }
                }
            } else {
                assert(r[j] == attrs[j]);
            }
        }
    }
}

proof fn lemma_absorb_options_distinct(attrs: Seq<ProductAttributeView>, cas: Seq<VariationAttributeView>)
    requires
        options_distinct(attrs),
    ensures
        options_distinct(absorb_options(attrs, cas)),
    decreases cas.len(),
{
    if cas.len() > 0 {
        lemma_absorb_options_distinct(attrs, cas.drop_last());
        lemma_absorb_option_distinct(absorb_options(attrs, cas.drop_last()), cas.last());
    }
}

proof fn lemma_absorb_children_distinct(attrs: Seq<ProductAttributeView>, kids: Seq<ProductVariationView>)
    requires
        options_distinct(attrs),
    ensures
        options_distinct(absorb_children(attrs, kids)),
    decreases kids.len(),
{
    if kids.len() > 0 {
        lemma_absorb_children_distinct(attrs, kids.drop_last());
        lemma_absorb_options_distinct(absorb_children(attrs, kids.drop_last()), kids.last().attributes);
    }
}

/// Taking in the variations' options never repeats an option: a parent
/// whose attributes list each option once still does afterwards, however
/// many variations share an option.
pub proof fn law_children_options_never_repeat(p: WooCommerceProductView, kids: Seq<ProductVariationView>)
    requires
        options_distinct(p.attributes),
    ensures
        options_distinct(with_children_attributes(p, kids).attributes),
{
    lemma_absorb_children_distinct(p.attributes, kids);
}

proof fn lemma_assemble(parents: Seq<WooCommerceProductView>, children: Seq<(Seq<char>, Seq<ProductVariationView>)>)
    ensures
        assemble(parents, children).len() == parents.len(),
        forall|i: int| 0 <= i < parents.len() ==> (#[trigger] assemble(parents, children)[i]).0
            == with_children_attributes(parents[i], assemble(parents, children)[i].1),
    decreases parents.len(),
{
    if parents.len() > 0 {
        let t = parents.drop_first();
        let rc = removed(children, parents[0].sku);
        lemma_assemble(t, rc);
        let a = assemble(parents, children);
        assert forall|i: int| 0 <= i < parents.len() implies (#[trigger] a[i]).0 == with_children_attributes(parents[i], a[i].1) by {
            if i > 0 {
                assert(a[i] == assemble(t, rc)[i - 1]);
                assert(parents[i] == t[i - 1]);
            }
        }
    }
}

/// Grouping gives one family per parent row, in row order, and in each
/// family the parent offers every option its variations use.
pub proof fn law_grouping_families(
    records: Seq<Result<Seq<Seq<char>>, Seq<char>>>,
    headers: Seq<Seq<char>>,
    rev: Seq<(Seq<char>, Seq<char>)>,
    arev: Seq<(Seq<char>, AttributeMappingView)>,
)
    ensures
        grouped(records, headers, rev, arev).group.len() == scan_rows(records, headers, rev, arev).parents.len(),
        forall|i: int| 0 <= i < grouped(records, headers, rev, arev).group.len() ==> (
            #[trigger] grouped(records, headers, rev, arev).group[i]).0.sku
            == scan_rows(records, headers, rev, arev).parents[i].sku,
        forall|i: int| 0 <= i < grouped(records, headers, rev, arev).group.len() ==> offers_all(
            (#[trigger] grouped(records, headers, rev, arev).group[i]).0.attributes,
            grouped(records, headers, rev, arev).group[i].1,
        ),
{
    let s = scan_rows(records, headers, rev, arev);
    let g = grouped(records, headers, rev, arev).group;
    lemma_assemble(s.parents, s.children);
    assert forall|i: int| 0 <= i < g.len() implies offers_all((#[trigger] g[i]).0.attributes, g[i].1) by {
        lemma_absorb_children(s.parents[i].attributes, g[i].1, Seq::empty(), Seq::empty());
    }
}

/// Grouping repeats no option: where every parent row's attributes list
/// each option once, so does every family's parent.
pub proof fn law_grouping_repeats_no_option(
    records: Seq<Result<Seq<Seq<char>>, Seq<char>>>,
    headers: Seq<Seq<char>>,
    rev: Seq<(Seq<char>, Seq<char>)>,
    arev: Seq<(Seq<char>, AttributeMappingView)>,
)
    requires
        forall|i: int| 0 <= i < scan_rows(records, headers, rev, arev).parents.len()
            ==> options_distinct((#[trigger] scan_rows(records, headers, rev, arev).parents[i]).attributes),
    ensures
        forall|i: int| 0 <= i < grouped(records, headers, rev, arev).group.len() ==> options_distinct(
            (#[trigger] grouped(records, headers, rev, arev).group[i]).0.attributes,
        ),
{
    let s = scan_rows(records, headers, rev, arev);
    let g = grouped(records, headers, rev, arev).group;
    lemma_assemble(s.parents, s.children);
    assert forall|i: int| 0 <= i < g.len() implies options_distinct((#[trigger] g[i]).0.attributes) by {
        assert(options_distinct(s.parents[i].attributes));
        lemma_absorb_children_distinct(s.parents[i].attributes, g[i].1);
    }
}

/// The number of variations gathered under all keys.
pub open spec fn kids_total(children: Seq<(Seq<char>, Seq<ProductVariationView>)>) -> int
    decreases children.len(),
{
    if children.len() == 0 {
        0
    } else {
        kids_total(children.drop_last()) + children.last().1.len()
    }
}

proof fn lemma_kids_total_update(e: Seq<(Seq<char>, Seq<ProductVariationView>)>, i: int, x: (Seq<char>, Seq<ProductVariationView>))
    requires
        0 <= i < e.len(),
    ensures
        kids_total(e.update(i, x)) == kids_total(e) - e[i].1.len() + x.1.len(),
    decreases e.len(),
{
    let u = e.update(i, x);
    if i == e.len() - 1 {
        assert(u.drop_last() == e.drop_last());
    } else {
        lemma_kids_total_update(e.drop_last(), i, x);
        assert(u.drop_last() == e.drop_last().update(i, x));
    }
}

/// Storing `v` under `k` changes the count by what `k` held before and
/// what it holds now.
proof fn lemma_kids_total_inserted(e: Seq<(Seq<char>, Seq<ProductVariationView>)>, k: Seq<char>, v: Seq<ProductVariationView>)
    ensures
        kids_total(inserted(e, k, v)) == kids_total(e) - kids_of(e, k).len() + v.len(),
{
    lemma_index_of_key(e, k);
    let i = index_of_key(e, k);
    if i < 0 {
        assert(e.push((k, v)).drop_last() == e);
    } else {
        lemma_kids_total_update(e, i, (k, v));
    }
}

/// Every record read is accounted for once: as a failed row, as a parent,
/// or as a variation gathered under its parent's SKU.
pub proof fn law_scan_accounts_for_every_row(
    records: Seq<Result<Seq<Seq<char>>, Seq<char>>>,
    headers: Seq<Seq<char>>,
    rev: Seq<(Seq<char>, Seq<char>)>,
    arev: Seq<(Seq<char>, AttributeMappingView)>,
)
    ensures
        scan_rows(records, headers, rev, arev).failed.len() + scan_rows(records, headers, rev, arev).parents.len()
            + kids_total(scan_rows(records, headers, rev, arev).children) == records.len(),
    decreases records.len(),
{
    if records.len() > 0 {
        let prev = scan_rows(records.drop_last(), headers, rev, arev);
        law_scan_accounts_for_every_row(records.drop_last(), headers, rev, arev);
        match records.last() {
            Err(e) => {},
            Ok(cells) => match built(
                insert_all(Seq::empty(), row_pairs(headers, cells, rev)),
                insert_all(Seq::empty(), attribute_pairs(headers, cells, arev)),
            ) {
                WooProductView::Product(p) => {
                    if index_of_key(prev.children, p.sku) < 0 {
                        lemma_kids_total_inserted(prev.children, p.sku, Seq::empty());
                        lemma_index_of_key(prev.children, p.sku);
                    }
                },
                WooProductView::Variation(v) => {
                    lemma_kids_total_inserted(prev.children, v.parent, kids_of(prev.children, v.parent).push(v));
                },
            },
        }
    }
}

/// Every variation is stored under its parent's SKU.
pub open spec fn kids_under_parent(children: Seq<(Seq<char>, Seq<ProductVariationView>)>) -> bool {
    forall|i: int, k: int|
        0 <= i < children.len() && 0 <= k < children[i].1.len() ==> (#[trigger] children[i].1[k]).parent
            == children[i].0
}

/// The variations stored under `key` name `key` as their parent.
proof fn lemma_kids_of_name_key(children: Seq<(Seq<char>, Seq<ProductVariationView>)>, key: Seq<char>)
    requires
        kids_under_parent(children),
    ensures
        forall|k: int| 0 <= k < kids_of(children, key).len() ==> (#[trigger] kids_of(children, key)[k]).parent == key,
{
    lemma_index_of_key(children, key);
    let i = index_of_key(children, key);
    if i >= 0 {
        assert forall|k: int| 0 <= k < kids_of(children, key).len() implies (#[trigger] kids_of(
            children,
            key,
        )[k]).parent == key by {
            assert(children[i].1[k].parent == children[i].0);
        }
    }
}

/// Storing under `key` variations that name `key` keeps every variation
/// under its parent.
proof fn lemma_inserted_kids(
    children: Seq<(Seq<char>, Seq<ProductVariationView>)>,
    key: Seq<char>,
    kids: Seq<ProductVariationView>,
)
    requires
        kids_under_parent(children),
        forall|k: int| 0 <= k < kids.len() ==> (#[trigger] kids[k]).parent == key,
    ensures
        kids_under_parent(inserted(children, key, kids)),
{
    lemma_index_of_key(children, key);
    let n = inserted(children, key, kids);
    assert forall|i: int, k: int| 0 <= i < n.len() && 0 <= k < n[i].1.len() implies (#[trigger] n[i].1[k]).parent
        == n[i].0 by {
        if i < children.len() && i != index_of_key(children, key) {
            assert(n[i] == children[i]);
        }
    }
}

/// Removing an entry keeps every variation under its parent.
proof fn lemma_removed_kids(children: Seq<(Seq<char>, Seq<ProductVariationView>)>, key: Seq<char>)
    requires
        kids_under_parent(children),
    ensures
        kids_under_parent(removed(children, key)),
{
    lemma_index_of_key(children, key);
    let j = index_of_key(children, key);
    if j >= 0 {
        let n = removed(children, key);
        assert forall|i: int, k: int| 0 <= i < n.len() && 0 <= k < n[i].1.len() implies (#[trigger] n[i].1[k]).parent
            == n[i].0 by {
            if i < j {
                assert(n[i] == children[i]);
            } else {
                assert(n[i] == children[i + 1]);
            }
        }
    }
}

proof fn lemma_scan_kids_under_parent(
    records: Seq<Result<Seq<Seq<char>>, Seq<char>>>,
    headers: Seq<Seq<char>>,
    rev: Seq<(Seq<char>, Seq<char>)>,
    arev: Seq<(Seq<char>, AttributeMappingView)>,
)
    ensures
        kids_under_parent(scan_rows(records, headers, rev, arev).children),
    decreases records.len(),
{
    if records.len() > 0 {
        let prev = scan_rows(records.drop_last(), headers, rev, arev);
        lemma_scan_kids_under_parent(records.drop_last(), headers, rev, arev);
        match records.last() {
            Err(e) => {},
            Ok(cells) => match built(
                insert_all(Seq::empty(), row_pairs(headers, cells, rev)),
                insert_all(Seq::empty(), attribute_pairs(headers, cells, arev)),
            ) {
                WooProductView::Product(p) => {
                    if index_of_key(prev.children, p.sku) < 0 {
                        lemma_inserted_kids(prev.children, p.sku, Seq::empty());
                    }
                },
                WooProductView::Variation(v) => {
                    let old = kids_of(prev.children, v.parent);
                    lemma_kids_of_name_key(prev.children, v.parent);
                    assert forall|k: int| 0 <= k < old.push(v).len() implies (#[trigger] old.push(v)[k]).parent
                        == v.parent by {
                        if k < old.len() {
                            assert(old.push(v)[k] == old[k]);
                        }
                    }
                    lemma_inserted_kids(prev.children, v.parent, old.push(v));
                },
            },
        }
    }
}

proof fn lemma_assemble_kids(parents: Seq<WooCommerceProductView>, children: Seq<(Seq<char>, Seq<ProductVariationView>)>)
    requires
        kids_under_parent(children),
    ensures
        forall|i: int, k: int|
            0 <= i < assemble(parents, children).len() && 0 <= k < assemble(parents, children)[i].1.len() ==> (
            #[trigger] assemble(parents, children)[i].1[k]).parent == assemble(parents, children)[i].0.sku,
    decreases parents.len(),
{
    if parents.len() > 0 {
        let p = parents[0];
        let t = parents.drop_first();
        let rc = removed(children, p.sku);
        lemma_removed_kids(children, p.sku);
        lemma_assemble_kids(t, rc);
        lemma_kids_of_name_key(children, p.sku);
        let a = assemble(parents, children);
        let rest = assemble(t, rc);
        assert forall|i: int, k: int| 0 <= i < a.len() && 0 <= k < a[i].1.len() implies (#[trigger] a[i].1[k]).parent
            == a[i].0.sku by {
            if i > 0 {
                assert(a[i] == rest[i - 1]);
            } else {
                assert(a[0].1 == kids_of(children, p.sku));
                assert(a[0].0.sku == p.sku);
            }
        }
    }
}

/// In every family that grouping gives, each variation names the family's
/// parent as its parent.
pub proof fn law_grouping_kids_name_their_parent(
    records: Seq<Result<Seq<Seq<char>>, Seq<char>>>,
    headers: Seq<Seq<char>>,
    rev: Seq<(Seq<char>, Seq<char>)>,
    arev: Seq<(Seq<char>, AttributeMappingView)>,
)
    ensures
        forall|i: int, k: int|
            0 <= i < grouped(records, headers, rev, arev).group.len() && 0 <= k < grouped(
                records,
                headers,
                rev,
                arev,
            ).group[i].1.len() ==> (#[trigger] grouped(records, headers, rev, arev).group[i].1[k]).parent
                == grouped(records, headers, rev, arev).group[i].0.sku,
{
    let s = scan_rows(records, headers, rev, arev);
    lemma_scan_kids_under_parent(records, headers, rev, arev);
    lemma_assemble_kids(s.parents, s.children);
}

fn contains_text(v: &Vec<String>, x: &String) -> (r: bool)
    ensures
        r == v.deep_view().contains(x@),
{
    let mut i: usize = 0;
    while i < v.len()
        invariant
            i <= v.len(),
            forall|j: int| 0 <= j < i ==> v.deep_view()[j] != x@,
        decreases v.len() - i,
    {
        if v[i].same_as(x) {
            assert(v.deep_view()[i as int] == x@);
            return true;
        }
        i = i + 1;
    }
    false
}

/// Takes one variation option into a parent's attributes: see `absorb_option`.
fn absorb_one(attrs: &mut Vec<ProductAttribute>, ca: &VariationAttribute)
    ensures
        final(attrs).deep_view() == absorb_option(old(attrs).deep_view(), ca@),
{
    let ghost a0 = attrs.deep_view();
    let found = find_attribute(attrs, &ca.name);
    match found {
        Some(i) => {
            assert(a0[i as int] == attrs@[i as int]@);
            if !contains_text(&attrs[i].options, &ca.option) {
                let mut a = attrs.remove(i);
                let ghost before = a.options.deep_view();
                a.options.push(ca.option.clone());
                assert(a.options.deep_view() =~= before.push(ca@.option));
                attrs.insert(i, a);
                assert(attrs.deep_view() =~= absorb_option(a0, ca@));
            } else {
                assert(attrs.deep_view() == absorb_option(a0, ca@));
            }
        },
        None => {
            let mut options: Vec<String> = Vec::new();
            options.push(ca.option.clone());
            assert(options.deep_view() =~= seq![ca@.option]);
            let added = ProductAttribute::new(ca.name.as_str(), options);
            attrs.push(added);
            assert(attrs.deep_view() =~= absorb_option(a0, ca@));
        },
    }
}

fn find_attribute(attrs: &Vec<ProductAttribute>, name: &String) -> (r: Option<usize>)
    ensures
        r matches Some(i) ==> i < attrs.len() && attr_index(attrs.deep_view(), name@) == i,
        r is None ==> attr_index(attrs.deep_view(), name@) == -1,
{
    let ghost a0 = attrs.deep_view();
    let mut i: usize = 0;
    while i < attrs.len()
        invariant
            i <= attrs.len(),
            a0 == attrs.deep_view(),
            forall|j: int| 0 <= j < i ==> #[trigger] a0[j].name != name@,
        decreases attrs.len() - i,
    {
        assert(a0[i as int] == attrs@[i as int]@);
        if attrs[i].name.same_as(name) {
            proof {
                lemma_attr_index_is(a0, name@, i as int);
            }
            return Some(i);
        }
        i = i + 1;
    }
    proof {
        lemma_attr_index_is(a0, name@, -1);
    }
    None
}

/// Takes every option of every variation into a parent's attributes: see
/// `absorb_children`.
fn absorb_all(attrs: &mut Vec<ProductAttribute>, kids: &Vec<ProductVariation>)
    ensures
        final(attrs).deep_view() == absorb_children(old(attrs).deep_view(), kids.deep_view()),
{
    let ghost a0 = attrs.deep_view();
    let ghost ks = kids.deep_view();
    let mut k: usize = 0;
    while k < kids.len()
        invariant
            k <= kids.len(),
            ks == kids.deep_view(),
            attrs.deep_view() == absorb_children(a0, ks.take(k as int)),
        decreases kids.len() - k,
    {
        assert(ks.take(k as int + 1).drop_last() == ks.take(k as int));
        assert(ks[k as int] == kids@[k as int]@);
        let options = &kids[k].attributes;
        let ghost os = options.deep_view();
        let ghost start = attrs.deep_view();
        let mut t: usize = 0;
        while t < options.len()
            invariant
                t <= options.len(),
                os == options.deep_view(),
                attrs.deep_view() == absorb_options(start, os.take(t as int)),
            decreases options.len() - t,
        {
            assert(os.take(t as int + 1).drop_last() == os.take(t as int));
            assert(os[t as int] == options@[t as int]@);
            absorb_one(attrs, &options[t]);
            t = t + 1;
        }
        assert(os.take(options.len() as int) == os);
        k = k + 1;
    }
    assert(ks.take(kids.len() as int) == ks);
}

/// Reads every record and groups the products into families: see `grouped`.
/// Records are numbered from 1; a record that could not be read is kept as a
/// failed row; a variation goes to the parent whose SKU it names, wherever
/// in the file that parent stands; the parent takes its variations' options
/// into its attributes; variations whose parent is not in the file are left out.
pub fn group_products_by_parent(
    records: Vec<Result<Vec<String>, String>>,
    headers: &Vec<String>,
    reverse_mapping: &StrMap<String>,
    attribute_reverse: &StrMap<AttributeMapping>,
) -> (r: Result<GroupParentResult, String>)
    ensures
        r matches Ok(g) && g@ == grouped(records_view(records@), headers.deep_view(), reverse_mapping@, attribute_reverse@),
{
    let ghost rs = records_view(records@);
    let ghost hs = headers.deep_view();
    let ghost rev = reverse_mapping@;
    let ghost arev = attribute_reverse@;
    let mut children: StrMap<Vec<ProductVariation>> = StrMap::new();
    let mut parents: Vec<WooCommerceProduct> = Vec::new();
    let mut result = GroupParentResult::new();
    let mut i: usize = 0;
    while i < records.len()
        invariant
            i <= records.len(),
            rs == records_view(records@),
            hs == headers.deep_view(),
            rev == reverse_mapping@,
            arev == attribute_reverse@,
            ({
                let s = scan_rows(rs.take(i as int), hs, rev, arev);
                &&& result@.failed == s.failed
                &&& result@.group.len() == 0
                &&& parents.deep_view() == s.parents
                &&& children@ == s.children
            }),
        decreases records.len() - i,
    {
        let row_number = i + 1;
        assert(rs.take(i as int + 1).drop_last() == rs.take(i as int));
        assert(rs[i as int] == record_view(records@[i as int]));
        match &records[i] {
            Err(e) => {
                result.add_failed_row(row_number, concat("Error processing record: ", e.as_str()));
            },
            Ok(cells) => {
                let row_map = build_row_map(headers, cells, reverse_mapping);
                let attribute_row_map = build_attribute_row_map(headers, cells, attribute_reverse);
                match woo_build_product(&row_map, &attribute_row_map) {
                    Some(WooProduct::Product(product)) => {
                        let ghost before = parents.deep_view();
                        if !children.contains_key(product.sku.as_str()) {
                            let empty: Vec<ProductVariation> = Vec::new();
                            assert(empty.deep_view() =~= Seq::<ProductVariationView>::empty());
                            children.insert(product.sku.clone(), empty);
                        }
                        let ghost pv = product@;
                        parents.push(product);
                        assert(parents.deep_view() =~= before.push(pv));
                    },
                    Some(WooProduct::Variation(variation)) => {
                        let mut list = match children.get(variation.parent.as_str()) {
                            Some(l) => l.duplicate(),
                            None => Vec::new(),
                        };
                        assert(list.deep_view() =~= kids_of(children@, variation@.parent));
                        let ghost before = list.deep_view();
                        let key = variation.parent.clone();
                        let ghost vv = variation@;
                        list.push(variation);
                        assert(list.deep_view() =~= before.push(vv));
                        children.insert(key, list);
                    },
                    None => {
                        result.add_failed_row(row_number, "Error building product from record".to_owned());
                    },
                }
            },
        }
        i = i + 1;
    }
    assert(rs.take(records.len() as int) == rs);
    let ghost s = scan_rows(rs, hs, rev, arev);
    let ghost total = assemble(s.parents, s.children);
    let mut groups: Vec<Family> = Vec::new();
    let mut j: usize = 0;
    assert(s.parents.skip(0) == s.parents);
    assert(groups.deep_view() + total =~= total);
    while j < parents.len()
        invariant
            j <= parents.len(),
            s.parents == parents.deep_view(),
            total == assemble(s.parents, s.children),
            groups.deep_view() + assemble(s.parents.skip(j as int), children@) == total,
        decreases parents.len() - j,
    {
        let ghost rest = s.parents.skip(j as int);
        assert(rest[0] == parents@[j as int]@);
        assert(rest.drop_first() == s.parents.skip(j as int + 1));
        let mut parent = parents[j].duplicate();
        let ghost c = children@;
        let kids = match children.remove(parent.sku.as_str()) {
            Some(k) => k,
            None => Vec::new(),
        };
        assert(kids.deep_view() =~= kids_of(c, parent@.sku));
        let ghost p0 = parent@;
        let mut attrs = parent.get_attribute();
        absorb_all(&mut attrs, &kids);
        parent.attributes = attrs;
        assert(parent@ == with_children_attributes(p0, kids.deep_view()));
        let ghost before = groups.deep_view();
        let ghost entry = (parent@, kids.deep_view());
        groups.push((parent, kids));
        assert(groups.deep_view() =~= before.push(entry));
        assert(before.push(entry) + assemble(s.parents.skip(j as int + 1), children@) =~= before + assemble(rest, c));
        j = j + 1;
    }
    assert(s.parents.skip(parents.len() as int) =~= Seq::<WooCommerceProductView>::empty());
    assert(groups.deep_view() =~= total);
    result.add_many_group(groups);
    Ok(result)
}

proof fn lemma_products_in_split(a: Seq<FamilyView>, b: Seq<FamilyView>)
    ensures
        products_in(a + b) == products_in(a) + products_in(b),
    decreases b.len(),
{
    if b.len() == 0 {
        assert(a + b == a);
    } else {
        assert((a + b).drop_last() == a + b.drop_last());
        lemma_products_in_split(a, b.drop_last());
    }
}

} // verus!
