//! The steps of sending one product family to the shop: the parent first,
//! then each variation under the parent's id. The caller carries out each
//! step and reports what came of it; the step function says what to record
//! and what to work on next.
use vstd::prelude::*;
use crate::grouping::Family;
use crate::processing_result::ProductProcessType;
use crate::text::concat;

verus! {

/// How far the work on a family has come: the row number of the product
/// being worked on, the index of the variation being worked on (once the
/// parent is done), and the parent's id in the shop (once known).
pub struct FamilyState {
    pub row: usize,
    pub child: usize,
    pub parent_id: String,
}

/// What came of the step the caller took.
pub enum FamilyEvent {
    /// The parent is unchanged since it was last sent; the cache holds this id.
    ParentUnchanged(String),
    /// The parent was sent; the shop answered with this id.
    ParentSent(String),
    /// Sending the parent failed, for this reason.
    ParentFailed(String),
    /// The cache could not be reached, for this reason: the parent is
    /// recorded as failed and its variations come next, to be recorded as
    /// failed too.
    ParentUnreachable(String),
    /// The variation is unchanged since it was last sent.
    ChildUnchanged,
    /// The variation was sent.
    ChildSent,
    /// Sending the variation failed, for this reason.
    ChildFailed(String),
}

/// What to record of the step.
pub enum FamilyRecord {
    Nothing,
    /// The product with this SKU was processed, from this row.
    Processed { sku: String, product_type: ProductProcessType, row: usize },
    /// Processing failed at this row, for this reason, for the product with this SKU.
    Failed { row: usize, reason: String, sku: String },
}

pub enum FamilyRecordView {
    Nothing,
    Processed { sku: Seq<char>, product_type: ProductProcessType, row: usize },
    Failed { row: usize, reason: Seq<char>, sku: Seq<char> },
}

impl View for FamilyRecord {
    type V = FamilyRecordView;

    open spec fn view(&self) -> FamilyRecordView {
        match self {
            FamilyRecord::Nothing => FamilyRecordView::Nothing,
            FamilyRecord::Processed { sku, product_type, row } => FamilyRecordView::Processed {
                sku: sku@,
                product_type: *product_type,
                row: *row,
            },
            FamilyRecord::Failed { row, reason, sku } => FamilyRecordView::Failed {
                row: *row,
                reason: reason@,
                sku: sku@,
            },
        }
    }
}

/// What to work on next.
#[derive(PartialEq, Eq, Structural, Clone, Copy, Debug)]
pub enum FamilyNext {
    /// The variation at this index.
    Child(usize),
    /// Nothing: the family is finished.
    Done,
}

/// The variation at `index` when there is one, else the end.
pub open spec fn next_child(children: nat, index: int) -> FamilyNext {
    if index < children { FamilyNext::Child(index as usize) } else { FamilyNext::Done }
}

/// The step for a family that has not been started: its parent, at `row`.
pub fn family_start(row: usize) -> (r: FamilyState)
    ensures
        r.row == row,
        r.child == 0,
        r.parent_id@.len() == 0,
{
    FamilyState { row, child: 0, parent_id: String::new() }
}

/// Takes in what came of the step on the parent (the `Parent` events) or
/// on the variation `state.child` (the `Child` events). A parent that is
/// unchanged or sent gives its id to its variations, which come next from
/// the following row; a sent parent is recorded as processed at its row; a
/// parent that failed is recorded as failed at its row, and ends the
/// family. When the cache cannot be reached the parent is recorded as
/// failed and its variations still come next, so that each is recorded as
/// failed as well. A variation that was sent is recorded as processed at its row,
/// one that failed is recorded as failed at row 0; either way the next
/// variation comes next, from the following row.
pub fn family_step(family: &Family, state: FamilyState, event: FamilyEvent) -> (r: (FamilyState, FamilyRecord, FamilyNext))
    requires
        state.row < usize::MAX,
        state.child < usize::MAX,
    ensures
        ({
            let (s, rec, next) = r;
            let n = family.1@.len();
            match event {
                FamilyEvent::ParentUnchanged(id) => s.row == state.row + 1 && s.child == 0 && s.parent_id@ == id@
                    && rec@ == FamilyRecordView::Nothing && next == next_child(n, 0),
                FamilyEvent::ParentSent(id) => s.row == state.row + 1 && s.child == 0 && s.parent_id@ == id@
                    && rec@ == (FamilyRecordView::Processed {
                        sku: family.0@.sku,
                        product_type: ProductProcessType::Parent,
                        row: state.row,
                    }) && next == next_child(n, 0),
                FamilyEvent::ParentFailed(e) => s.row == state.row && s.child == state.child
                    && s.parent_id@ == state.parent_id@ && rec@ == (FamilyRecordView::Failed {
                        row: state.row,
                        reason: "Parent processing failed: "@ + e@,
                        sku: family.0@.sku,
                    }) && next == FamilyNext::Done,
                FamilyEvent::ParentUnreachable(e) => s.row == state.row + 1 && s.child == 0
                    && s.parent_id@ == state.parent_id@ && rec@ == (FamilyRecordView::Failed {
                        row: state.row,
                        reason: "Parent processing failed: "@ + e@,
                        sku: family.0@.sku,
                    }) && next == next_child(n, 0),
                FamilyEvent::ChildUnchanged => s.row == state.row + 1 && s.child == state.child + 1
                    && s.parent_id@ == state.parent_id@ && rec@ == FamilyRecordView::Nothing
                    && next == next_child(n, state.child + 1),
                FamilyEvent::ChildSent => s.row == state.row + 1 && s.child == state.child + 1
                    && s.parent_id@ == state.parent_id@ && rec@ == (FamilyRecordView::Processed {
                        sku: child_sku(family.1.deep_view(), state.child as int),
                        product_type: ProductProcessType::Child,
                        row: state.row,
                    }) && next == next_child(n, state.child + 1),
                FamilyEvent::ChildFailed(e) => s.row == state.row + 1 && s.child == state.child + 1
                    && s.parent_id@ == state.parent_id@ && rec@ == (FamilyRecordView::Failed {
                        row: 0,
                        reason: "Variation processing failed: "@ + e@,
                        sku: child_sku(family.1.deep_view(), state.child as int),
                    }) && next == next_child(n, state.child + 1),
            }
        }),
{
    let n = family.1.len();
    match event {
        FamilyEvent::ParentUnchanged(id) => {
            let next = if 0 < n { FamilyNext::Child(0) } else { FamilyNext::Done };
            (FamilyState { row: state.row + 1, child: 0, parent_id: id }, FamilyRecord::Nothing, next)
        },
        FamilyEvent::ParentSent(id) => {
            let next = if 0 < n { FamilyNext::Child(0) } else { FamilyNext::Done };
            let rec = FamilyRecord::Processed {
                sku: family.0.sku.clone(),
                product_type: ProductProcessType::Parent,
                row: state.row,
            };
            (FamilyState { row: state.row + 1, child: 0, parent_id: id }, rec, next)
        },
        FamilyEvent::ParentFailed(e) => {
            let rec = FamilyRecord::Failed {
                row: state.row,
                reason: concat("Parent processing failed: ", e.as_str()),
                sku: family.0.sku.clone(),
            };
            (state, rec, FamilyNext::Done)
        },
        FamilyEvent::ParentUnreachable(e) => {
            let next = if 0 < n { FamilyNext::Child(0) } else { FamilyNext::Done };
            let rec = FamilyRecord::Failed {
                row: state.row,
                reason: concat("Parent processing failed: ", e.as_str()),
                sku: family.0.sku.clone(),
            };
            (FamilyState { row: state.row + 1, child: 0, parent_id: state.parent_id }, rec, next)
        },
        FamilyEvent::ChildUnchanged => {
            let k = state.child + 1;
            let next = if k < n { FamilyNext::Child(k) } else { FamilyNext::Done };
            (FamilyState { row: state.row + 1, child: k, parent_id: state.parent_id }, FamilyRecord::Nothing, next)
        },
        FamilyEvent::ChildSent => {
            let k = state.child + 1;
            let next = if k < n { FamilyNext::Child(k) } else { FamilyNext::Done };
            let sku = sku_at(&family.1, state.child);
            let rec = FamilyRecord::Processed { sku, product_type: ProductProcessType::Child, row: state.row };
            (FamilyState { row: state.row + 1, child: k, parent_id: state.parent_id }, rec, next)
        },
        FamilyEvent::ChildFailed(e) => {
            let k = state.child + 1;
            let next = if k < n { FamilyNext::Child(k) } else { FamilyNext::Done };
            let sku = sku_at(&family.1, state.child);
            let rec = FamilyRecord::Failed {
                row: 0,
                reason: concat("Variation processing failed: ", e.as_str()),
                sku,
            };
            (FamilyState { row: state.row + 1, child: k, parent_id: state.parent_id }, rec, next)
        },
    }
}

/// The SKU of the variation at `i`, or the empty text past the end.
pub open spec fn child_sku(kids: Seq<crate::woocommerce::ProductVariationView>, i: int) -> Seq<char> {
    if 0 <= i < kids.len() { kids[i].sku } else { Seq::empty() }
}

fn sku_at(kids: &Vec<crate::woocommerce::ProductVariation>, i: usize) -> (r: String)
    ensures
        r@ == child_sku(kids.deep_view(), i as int),
{
    if i < kids.len() {
        assert(kids.deep_view()[i as int] == kids@[i as int]@);
        kids[i].sku.clone()
    } else {
        String::new()
    }
}

} // verus!
