//! What the processing of one file records: the rows and products done,
//! their timings, and the rows that failed.
use vstd::prelude::*;
use crate::str_map::{inserted, lookup, StrMap};
use crate::value::Duplicate;

verus! {

/// A row that could not be processed, and why.
pub struct FailedRow {
    pub row_number: usize,
    pub reason: String,
    pub sku: Option<String>,
}

pub struct FailedRowView {
    pub row_number: usize,
    pub reason: Seq<char>,
    pub sku: Option<Seq<char>>,
}

impl View for FailedRow {
    type V = FailedRowView;

    open spec fn view(&self) -> FailedRowView {
        FailedRowView { row_number: self.row_number, reason: self.reason@, sku: self.sku.deep_view() }
    }
}

impl DeepView for FailedRow {
    type V = FailedRowView;

    open spec fn deep_view(&self) -> FailedRowView {
        self.view()
    }
}

impl Duplicate for FailedRow {
    fn duplicate(&self) -> (r: Self) {
        FailedRow { row_number: self.row_number, reason: self.reason.clone(), sku: self.sku.duplicate() }
    }
}


/// Whether the processing of a file has gone well so far.
#[derive(PartialEq, Eq, Structural, Clone, Copy, Debug)]
pub enum ProcessingStatus {
    Success,
    Failure,
}

/// The role of a processed product.
#[derive(PartialEq, Eq, Structural, Clone, Copy, Debug)]
pub enum ProductProcessType {
    Parent,
    Child,
    Standalone,
}

/// When a row was processed and how long it took (in nanoseconds, from a
/// monotonic clock).
#[derive(Clone, Copy, Debug)]
pub struct ProcessedRowInfo {
    pub row_number: usize,
    pub processing_time: u128,
    pub processed_at: u128,
}

/// When a product was processed, from which row, and how long it took.
pub struct ProcessedProductInfo {
    pub sku: String,
    pub product_type: ProductProcessType,
    pub row_number: usize,
    pub processing_time: u128,
    pub processed_at: u128,
}

pub struct ProcessedProductInfoView {
    pub sku: Seq<char>,
    pub product_type: ProductProcessType,
    pub row_number: usize,
    pub processing_time: u128,
    pub processed_at: u128,
}

impl View for ProcessedProductInfo {
    type V = ProcessedProductInfoView;

    open spec fn view(&self) -> ProcessedProductInfoView {
        ProcessedProductInfoView {
            sku: self.sku@,
            product_type: self.product_type,
            row_number: self.row_number,
            processing_time: self.processing_time,
            processed_at: self.processed_at,
        }
    }
}

impl DeepView for ProcessedProductInfo {
    type V = ProcessedProductInfoView;

    open spec fn deep_view(&self) -> ProcessedProductInfoView {
        self.view()
    }
}

/// The row numbers of the recorded rows, in the order they were recorded.
pub open spec fn row_numbers(rows: Seq<ProcessedRowInfo>) -> Seq<usize> {
    rows.map_values(|r: ProcessedRowInfo| r.row_number)
}

/// The sum of the recorded processing times.
pub open spec fn total_time(rows: Seq<ProcessedRowInfo>) -> int
    decreases rows.len(),
{
    if rows.len() == 0 {
        0
    } else {
        total_time(rows.drop_last()) + rows.last().processing_time
    }
}

/// `rows` with `x` placed after every entry at least as slow, keeping order
/// among equals.
pub open spec fn insert_by_time(rows: Seq<(usize, u128)>, x: (usize, u128)) -> Seq<(usize, u128)>
    decreases rows.len(),
{
    if rows.len() == 0 {
        seq![x]
    } else if rows.last().1 >= x.1 {
        rows.push(x)
    } else {
        insert_by_time(rows.drop_last(), x).push(rows.last())
    }
}

/// The rows as (row number, time), slowest first; rows equally slow keep
/// the order in which they were recorded (a stable sort).
pub open spec fn slowest_first(rows: Seq<ProcessedRowInfo>) -> Seq<(usize, u128)>
    decreases rows.len(),
{
    if rows.len() == 0 {
        Seq::empty()
    } else {
        insert_by_time(slowest_first(rows.drop_last()), (rows.last().row_number, rows.last().processing_time))
    }
}

/// What processing one file has recorded so far.
pub struct ProcessingResult {
    pub file_name: String,
    pub status: ProcessingStatus,
    pub row_details: Vec<ProcessedRowInfo>,
    pub product_details: StrMap<ProcessedProductInfo>,
    pub total_row: usize,
    pub failed_row: Vec<FailedRow>,
    pub processing_time: u128,
    pub total_products: usize,
    pub parent_products: usize,
    pub child_products: usize,
    pub file_id: String,
}

impl ProcessingResult {
    /// The recorded rows, each once, in the order they were first recorded.
    pub open spec fn rows(&self) -> Seq<ProcessedRowInfo> {
        self.row_details@
    }

    /// The recorded products, by SKU.
    pub open spec fn products(&self) -> Seq<(Seq<char>, ProcessedProductInfoView)> {
        self.product_details@
    }

    /// No row is recorded twice.
    pub open spec fn wf(&self) -> bool {
        row_numbers(self.rows()).no_duplicates()
    }

    /// Nothing processed yet, and the status is `Success`.
    pub fn new(file_name: String, file_id: String, total_rows: usize) -> (r: Self)
        ensures
            r.wf(),
            r.file_name@ == file_name@,
            r.file_id@ == file_id@,
            r.status == ProcessingStatus::Success,
            r.total_row == total_rows,
            r.rows().len() == 0,
            r.products().len() == 0,
            r.failed_row@.len() == 0,
            r.processing_time == 0,
            r.total_products == 0,
            r.parent_products == 0,
            r.child_products == 0,
    {
        let r = ProcessingResult {
            file_name,
            status: ProcessingStatus::Success,
            row_details: Vec::new(),
            product_details: StrMap::new(),
            total_row: total_rows,
            failed_row: Vec::new(),
            processing_time: 0,
            total_products: 0,
            parent_products: 0,
            child_products: 0,
            file_id,
        };
        assert(row_numbers(r.rows()) =~= Seq::<usize>::empty());
        r
    }

    /// Records the number of products found in the file.
    pub fn set_total_products(&mut self, total_products: usize)
        ensures
            final(self).total_products == total_products,
            final(self).status == old(self).status,
            final(self).processing_time == old(self).processing_time,
            final(self).rows() == old(self).rows(),
            final(self).products() == old(self).products(),
            final(self).failed_row@ == old(self).failed_row@,
            final(self).parent_products == old(self).parent_products,
            final(self).child_products == old(self).child_products,
            final(self).total_row == old(self).total_row,
            final(self).file_name@ == old(self).file_name@,
            final(self).file_id@ == old(self).file_id@,
    {
        self.total_products = total_products;
    }

    /// Records the time the whole file took.
    pub fn complete(&mut self, processing_time: u128)
        ensures
            final(self).processing_time == processing_time,
            final(self).status == old(self).status,
            final(self).total_products == old(self).total_products,
            final(self).rows() == old(self).rows(),
            final(self).products() == old(self).products(),
            final(self).failed_row@ == old(self).failed_row@,
            final(self).parent_products == old(self).parent_products,
            final(self).child_products == old(self).child_products,
            final(self).total_row == old(self).total_row,
            final(self).file_name@ == old(self).file_name@,
            final(self).file_id@ == old(self).file_id@,
    {
        self.processing_time = processing_time;
    }

    /// Marks the file as failed and records the time it took.
    pub fn fail_with_error(&mut self, processing_time: u128)
        ensures
            final(self).status == ProcessingStatus::Failure,
            final(self).processing_time == processing_time,
            final(self).total_products == old(self).total_products,
            final(self).rows() == old(self).rows(),
            final(self).products() == old(self).products(),
            final(self).failed_row@ == old(self).failed_row@,
            final(self).parent_products == old(self).parent_products,
            final(self).child_products == old(self).child_products,
            final(self).total_row == old(self).total_row,
            final(self).file_name@ == old(self).file_name@,
            final(self).file_id@ == old(self).file_id@,
    {
        self.status = ProcessingStatus::Failure;
        self.processing_time = processing_time;
    }

    /// Whether a row has been recorded.
    pub fn is_row_processed(&self, row_number: usize) -> (r: bool)
        ensures
            r == row_numbers(self.rows()).contains(row_number),
    {
        match self.row_index(row_number) {
            Some(_) => true,
            None => false,
        }
    }

    fn row_index(&self, row_number: usize) -> (r: Option<usize>)
        ensures
            r matches Some(i) ==> i < self.rows().len() && self.rows()[i as int].row_number == row_number,
            r is Some ==> row_numbers(self.rows()).contains(row_number),
            r is None ==> !row_numbers(self.rows()).contains(row_number),
    {
        let mut i: usize = 0;
        while i < self.row_details.len()
            invariant
                i <= self.row_details.len(),
                forall|j: int| 0 <= j < i ==> #[trigger] self.row_details@[j].row_number != row_number,
            decreases self.row_details.len() - i,
        {
            if self.row_details[i].row_number == row_number {
                assert(row_numbers(self.rows())[i as int] == row_number);
                return Some(i);
            }
            i = i + 1;
        }
        assert forall|j: int| 0 <= j < row_numbers(self.rows()).len() implies row_numbers(self.rows())[j] != row_number by {
            assert(row_numbers(self.rows())[j] == self.row_details@[j].row_number);
        }
        None
    }

    /// Records a row as processed, once: a row already recorded is left as it
    /// was. Says whether the row was new.
    pub fn mark_row_processed(&mut self, row_number: usize, processing_time: u128, processed_at: u128) -> (r: bool)
        requires
            old(self).wf(),
        ensures
            final(self).wf(),
            r == !row_numbers(old(self).rows()).contains(row_number),
            r ==> final(self).rows() == old(self).rows().push(
                ProcessedRowInfo { row_number, processing_time, processed_at },
            ),
            !r ==> final(self).rows() == old(self).rows(),
            final(self).products() == old(self).products(),
            final(self).status == old(self).status,
            final(self).failed_row@ == old(self).failed_row@,
            final(self).parent_products == old(self).parent_products,
            final(self).child_products == old(self).child_products,
            final(self).total_products == old(self).total_products,
            final(self).total_row == old(self).total_row,
            final(self).processing_time == old(self).processing_time,
            final(self).file_name@ == old(self).file_name@,
            final(self).file_id@ == old(self).file_id@,
    {
        match self.row_index(row_number) {
            Some(_) => false,
            None => {
                let ghost before = self.row_details@;
                let info = ProcessedRowInfo { row_number, processing_time, processed_at };
                self.row_details.push(info);
                assert(row_numbers(self.row_details@) =~= row_numbers(before).push(row_number));
                true
            },
        }
    }

    /// Records a processed product: counts it as a parent (a standalone
    /// product counts as a parent) or a child, keeps its details under its SKU
    /// (replacing earlier details of that SKU), and records its row. Says
    /// whether the row was new.
    pub fn mark_product_processed(
        &mut self,
        sku: String,
        product_type: ProductProcessType,
        row_number: usize,
        processing_time: u128,
        processed_at: u128,
    ) -> (r: bool)
        requires
            old(self).wf(),
            old(self).parent_products < usize::MAX,
            old(self).child_products < usize::MAX,
        ensures
            final(self).wf(),
            final(self).parent_products == old(self).parent_products + (if product_type
                == ProductProcessType::Child { 0int } else { 1int }),
            final(self).child_products == old(self).child_products + (if product_type
                == ProductProcessType::Child { 1int } else { 0int }),
            final(self).products() == inserted(
                old(self).products(),
                sku@,
                ProcessedProductInfoView { sku: sku@, product_type, row_number, processing_time, processed_at },
            ),
            r == !row_numbers(old(self).rows()).contains(row_number),
            r ==> final(self).rows() == old(self).rows().push(
                ProcessedRowInfo { row_number, processing_time, processed_at },
            ),
            !r ==> final(self).rows() == old(self).rows(),
            final(self).status == old(self).status,
            final(self).failed_row@ == old(self).failed_row@,
            final(self).processing_time == old(self).processing_time,
            final(self).total_products == old(self).total_products,
            final(self).total_row == old(self).total_row,
            final(self).file_name@ == old(self).file_name@,
            final(self).file_id@ == old(self).file_id@,
    {
        match product_type {
            ProductProcessType::Parent => self.parent_products = self.parent_products + 1,
            ProductProcessType::Child => self.child_products = self.child_products + 1,
            ProductProcessType::Standalone => self.parent_products = self.parent_products + 1,
        }
        let info = ProcessedProductInfo {
            sku: sku.clone(),
            product_type,
            row_number,
            processing_time,
            processed_at,
        };
        self.product_details.insert(sku, info);
        self.mark_row_processed(row_number, processing_time, processed_at)
    }

    /// Records a failed row and marks the file as failed.
    pub fn mark_failure(&mut self, row_number: usize, reason: String, sku: Option<String>)
        ensures
            final(self).status == ProcessingStatus::Failure,
            final(self).failed_row.deep_view() == old(self).failed_row.deep_view().push(
                FailedRowView { row_number, reason: reason@, sku: sku.deep_view() },
            ),
            final(self).rows() == old(self).rows(),
            final(self).products() == old(self).products(),
            final(self).file_name@ == old(self).file_name@,
            final(self).file_id@ == old(self).file_id@,
            final(self).total_row == old(self).total_row,
            final(self).processing_time == old(self).processing_time,
            final(self).total_products == old(self).total_products,
            final(self).parent_products == old(self).parent_products,
            final(self).child_products == old(self).child_products,
            final(self).wf() == old(self).wf(),
    {
        self.status = ProcessingStatus::Failure;
        let ghost before = self.failed_row.deep_view();
        let ghost entry = FailedRowView { row_number, reason: reason@, sku: sku.deep_view() };
        self.failed_row.push(FailedRow { row_number, reason, sku });
        assert(self.failed_row.deep_view() =~= before.push(entry));
    }

    /// The number of rows recorded.
    pub fn get_processed_row_count(&self) -> (r: usize)
        ensures
            r == self.rows().len(),
    {
        self.row_details.len()
    }

    /// The number of products recorded (one per SKU).
    pub fn get_processed_product_count(&self) -> (r: usize)
        ensures
            r == self.products().len(),
    {
        self.product_details.len()
    }

    /// How long a recorded row took.
    pub fn get_row_processing_time(&self, row_number: usize) -> (r: Option<u128>)
        requires
            self.wf(),
        ensures
            r is Some <==> row_numbers(self.rows()).contains(row_number),
            r matches Some(t) ==> exists|i: int|
                0 <= i < self.rows().len() && self.rows()[i].row_number == row_number
                    && self.rows()[i].processing_time == t,
    {
        match self.row_index(row_number) {
            Some(i) => {
                assert(row_numbers(self.rows())[i as int] == row_number);
                Some(self.row_details[i].processing_time)
            },
            None => None,
        }
    }

    /// How long a recorded product took.
    pub fn get_product_processing_time(&self, sku: &str) -> (r: Option<u128>)
        ensures
            r == (match lookup(self.products(), sku@) {
                Some(info) => Some(info.processing_time),
                None => None,
            }),
    {
        match self.product_details.get(sku) {
            Some(info) => Some(info.processing_time),
            None => None,
        }
    }

    /// The mean time of the recorded rows, rounded down (zero when none).
    pub fn get_average_row_processing_time(&self) -> (r: u128)
        requires
            total_time(self.rows()) <= u128::MAX,
        ensures
            self.rows().len() == 0 ==> r == 0,
            self.rows().len() > 0 ==> r == total_time(self.rows()) / (self.rows().len() as int),
    {
        if self.row_details.len() == 0 {
            return 0;
        }
        let mut total: u128 = 0;
        let mut i: usize = 0;
        while i < self.row_details.len()
            invariant
                i <= self.row_details.len(),
                total_time(self.rows()) <= u128::MAX,
                total == total_time(self.rows().take(i as int)),
            decreases self.row_details.len() - i,
        {
            assert(self.rows().take(i as int + 1).drop_last() == self.rows().take(i as int));
            proof {
                lemma_total_time_prefix(self.rows(), i as int + 1);
            }
            total = total + self.row_details[i].processing_time;
            i = i + 1;
        }
        assert(self.rows().take(self.row_details.len() as int) == self.rows());
        let n = self.row_details.len() as u128;
        total / n
    }

    /// The slowest recorded rows, at most `limit` of them: see `slowest_first`.
    pub fn get_slowest_processed_rows(&self, limit: usize) -> (r: Vec<(usize, u128)>)
        ensures
            r@ == slowest_first(self.rows()).take(
                if limit < self.rows().len() { limit as int } else { self.rows().len() as int },
            ),
    {
        let mut sorted: Vec<(usize, u128)> = Vec::new();
        let mut i: usize = 0;
        while i < self.row_details.len()
            invariant
                i <= self.row_details.len(),
                sorted@ == slowest_first(self.rows().take(i as int)),
            decreases self.row_details.len() - i,
        {
            assert(self.rows().take(i as int + 1).drop_last() == self.rows().take(i as int));
            let x = (self.row_details[i].row_number, self.row_details[i].processing_time);
            insert_slow(&mut sorted, x);
            i = i + 1;
        }
        assert(self.rows().take(self.row_details.len() as int) == self.rows());
        proof {
            lemma_slowest_len(self.rows());
        }
        if limit < sorted.len() {
            sorted.truncate(limit);
        }
        assert(sorted@ =~= slowest_first(self.rows()).take(
            if limit < self.rows().len() { limit as int } else { self.rows().len() as int },
        ));
        sorted
    }
}

proof fn lemma_total_time_prefix(rows: Seq<ProcessedRowInfo>, k: int)
    requires
        0 <= k <= rows.len(),
    ensures
        total_time(rows.take(k)) <= total_time(rows),
    decreases rows.len() - k,
{
    if k < rows.len() {
        lemma_total_time_prefix(rows, k + 1);
        assert(rows.take(k + 1).drop_last() == rows.take(k));
    } else {
        assert(rows.take(k) == rows);
    }
}

proof fn lemma_insert_len(rows: Seq<(usize, u128)>, x: (usize, u128))
    ensures
        insert_by_time(rows, x).len() == rows.len() + 1,
    decreases rows.len(),
{
    if rows.len() > 0 && rows.last().1 < x.1 {
        lemma_insert_len(rows.drop_last(), x);
    }
}

proof fn lemma_slowest_len(rows: Seq<ProcessedRowInfo>)
    ensures
        slowest_first(rows).len() == rows.len(),
    decreases rows.len(),
{
    if rows.len() > 0 {
        lemma_slowest_len(rows.drop_last());
        lemma_insert_len(
            slowest_first(rows.drop_last()),
            (rows.last().row_number, rows.last().processing_time),
        );
    }
}

/// Slowest first: no entry is faster than one after it.
pub open spec fn slowest_ordered(s: Seq<(usize, u128)>) -> bool {
    forall|i: int, j: int| 0 <= i < j < s.len() ==> #[trigger] s[i].1 >= #[trigger] s[j].1
}

/// The (row, time) pair of each recorded row, in recording order.
pub open spec fn row_times(rows: Seq<ProcessedRowInfo>) -> Seq<(usize, u128)> {
    rows.map_values(|r: ProcessedRowInfo| (r.row_number, r.processing_time))
}

proof fn lemma_insert_by_time(rows: Seq<(usize, u128)>, x: (usize, u128))
    requires
        slowest_ordered(rows),
    ensures
        slowest_ordered(insert_by_time(rows, x)),
        insert_by_time(rows, x).to_multiset() == rows.to_multiset().insert(x),
    decreases rows.len(),
{
    broadcast use vstd::seq_lib::group_to_multiset_ensures;
    if rows.len() == 0 {
        assert(seq![x] =~= Seq::<(usize, u128)>::empty().push(x));
    } else if rows.last().1 >= x.1 {
        let r = rows.push(x);
        assert forall|i: int, j: int| 0 <= i < j < r.len() implies #[trigger] r[i].1 >= #[trigger] r[j].1 by {
            if j == rows.len() {
                assert(rows[i].1 >= rows[rows.len() - 1].1);
            }
        }
    } else {
        let d = rows.drop_last();
        let l = rows.last();
        assert(slowest_ordered(d));
        lemma_insert_by_time(d, x);
        let inner = insert_by_time(d, x);
        let r = inner.push(l);
        assert(rows == d.push(l));
        assert forall|i: int| 0 <= i < inner.len() implies #[trigger] inner[i].1 >= l.1 by {
            assert(inner.to_multiset().count(inner[i]) > 0);
            if inner[i] != x {
                assert(d.to_multiset().count(inner[i]) > 0);
                assert(d.contains(inner[i]));
                let k = choose|k: int| 0 <= k < d.len() && d[k] == inner[i];
                assert(rows[k].1 >= rows[rows.len() - 1].1);
            }
        }
        assert forall|i: int, j: int| 0 <= i < j < r.len() implies #[trigger] r[i].1 >= #[trigger] r[j].1 by {
            if j == inner.len() {
                assert(r[i] == inner[i]);
            } else {
                assert(r[i] == inner[i] && r[j] == inner[j]);
            }
        }
        assert(r.to_multiset() =~= rows.to_multiset().insert(x));
    }
}

/// The slowest-first list holds each recorded row once, with its time, and
/// no row after a faster one.
pub proof fn law_slowest_first_sorts(rows: Seq<ProcessedRowInfo>)
    ensures
        slowest_ordered(slowest_first(rows)),
        slowest_first(rows).to_multiset() == row_times(rows).to_multiset(),
    decreases rows.len(),
{
    broadcast use vstd::seq_lib::group_to_multiset_ensures;
    if rows.len() == 0 {
        assert(row_times(rows) =~= Seq::<(usize, u128)>::empty());
    } else {
        let d = rows.drop_last();
        law_slowest_first_sorts(d);
        let x = (rows.last().row_number, rows.last().processing_time);
        lemma_insert_by_time(slowest_first(d), x);
        assert(row_times(rows) =~= row_times(d).push(x));
    }
}

/// A recorded row counts as processed, so recording it again adds nothing.
pub proof fn law_recorded_row_is_processed(rows: Seq<ProcessedRowInfo>, info: ProcessedRowInfo)
    ensures
        row_numbers(rows.push(info)).contains(info.row_number),
{
    assert(row_numbers(rows.push(info))[rows.len() as int] == info.row_number);
}

/// Places `x` after every entry at least as slow: see `insert_by_time`.
#[verifier::rlimit(30)]
fn insert_slow(sorted: &mut Vec<(usize, u128)>, x: (usize, u128))
    ensures
        final(sorted)@ == insert_by_time(old(sorted)@, x),
{
    let ghost s0 = sorted@;
    let mut k: usize = sorted.len();
    assert(s0.take(k as int) == s0);
    assert(s0 + s0.skip(k as int) =~= s0);
    while k > 0 && sorted[k - 1].1 < x.1
        invariant
            k <= sorted.len(),
            sorted@ == s0,
            insert_by_time(s0, x) == insert_by_time(s0.take(k as int), x) + s0.skip(k as int),
        decreases k,
    {
        let ghost t = s0.take(k as int);
        assert(t.drop_last() == s0.take(k as int - 1));
        assert(t.last() == s0[k as int - 1]);
        assert(insert_by_time(t, x) == insert_by_time(t.drop_last(), x).push(t.last()));
        assert(s0.skip(k as int - 1) =~= seq![s0[k as int - 1]] + s0.skip(k as int));
        assert(insert_by_time(t.drop_last(), x).push(t.last()) + s0.skip(k as int) =~= insert_by_time(
            t.drop_last(),
            x,
        ) + s0.skip(k as int - 1));
        k = k - 1;
    }
    let ghost t = s0.take(k as int);
    assert(insert_by_time(t, x) == t.push(x));
    sorted.insert(k, x);
    assert(sorted@ =~= t.push(x) + s0.skip(k as int));
}

} // verus!
