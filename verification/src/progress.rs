//! The stages a file goes through while it is processed, the message shown
//! for each, and the counts kept of its rows.
use vstd::prelude::*;
use crate::number::{decimal, usize_to_string};

verus! {

/// A row that failed, and why.
pub struct FailedRowDetail {
    pub row_number: usize,
    pub reason: String,
}

/// A product that failed, and why.
pub struct FailedProductDetail {
    pub sku: String,
    pub reason: String,
}

/// Where the processing of a file stands.
pub enum ProcessingStage {
    Starting,
    ParsingCsv,
    GroupingProducts,
    GroupingProductsCompleted { total_parents: usize, total_products: usize },
    ProcessingProducts { sku: String, current: usize, total: usize },
    ProcessingVariations { sku: String, parent_sku: String, current: usize, total: usize },
    Finalizing,
    Completed,
    Failed(String),
    BatchStarted { batch_number: usize, total_batches: usize, products_in_batch: usize },
    BatchPaused { batch_number: usize, total_batches: usize, delay_minutes: u32 },
    BatchCompleted {
        batch_number: usize,
        total_batches: usize,
        successful_products: usize,
        failed_products: usize,
    },
}

pub enum ProcessingStageView {
    Starting,
    ParsingCsv,
    GroupingProducts,
    GroupingProductsCompleted { total_parents: usize, total_products: usize },
    ProcessingProducts { sku: Seq<char>, current: usize, total: usize },
    ProcessingVariations { sku: Seq<char>, parent_sku: Seq<char>, current: usize, total: usize },
    Finalizing,
    Completed,
    Failed(Seq<char>),
    BatchStarted { batch_number: usize, total_batches: usize, products_in_batch: usize },
    BatchPaused { batch_number: usize, total_batches: usize, delay_minutes: u32 },
    BatchCompleted {
        batch_number: usize,
        total_batches: usize,
        successful_products: usize,
        failed_products: usize,
    },
}

impl View for ProcessingStage {
    type V = ProcessingStageView;

    open spec fn view(&self) -> ProcessingStageView {
        match self {
            ProcessingStage::Starting => ProcessingStageView::Starting,
            ProcessingStage::ParsingCsv => ProcessingStageView::ParsingCsv,
            ProcessingStage::GroupingProducts => ProcessingStageView::GroupingProducts,
            ProcessingStage::GroupingProductsCompleted { total_parents, total_products } =>
                ProcessingStageView::GroupingProductsCompleted {
                    total_parents: *total_parents,
                    total_products: *total_products,
                },
            ProcessingStage::ProcessingProducts { sku, current, total } =>
                ProcessingStageView::ProcessingProducts { sku: sku@, current: *current, total: *total },
            ProcessingStage::ProcessingVariations { sku, parent_sku, current, total } =>
                ProcessingStageView::ProcessingVariations {
                    sku: sku@,
                    parent_sku: parent_sku@,
                    current: *current,
                    total: *total,
                },
            ProcessingStage::Finalizing => ProcessingStageView::Finalizing,
            ProcessingStage::Completed => ProcessingStageView::Completed,
            ProcessingStage::Failed(e) => ProcessingStageView::Failed(e@),
            ProcessingStage::BatchStarted { batch_number, total_batches, products_in_batch } =>
                ProcessingStageView::BatchStarted {
                    batch_number: *batch_number,
                    total_batches: *total_batches,
                    products_in_batch: *products_in_batch,
                },
            ProcessingStage::BatchPaused { batch_number, total_batches, delay_minutes } =>
                ProcessingStageView::BatchPaused {
                    batch_number: *batch_number,
                    total_batches: *total_batches,
                    delay_minutes: *delay_minutes,
                },
            ProcessingStage::BatchCompleted {
                batch_number,
                total_batches,
                successful_products,
                failed_products,
            } => ProcessingStageView::BatchCompleted {
                batch_number: *batch_number,
                total_batches: *total_batches,
                successful_products: *successful_products,
                failed_products: *failed_products,
            },
        }
    }
}

/// `n` written in decimal.
pub open spec fn num(n: usize) -> Seq<char> {
    decimal(n as nat)
}

/// The message shown for a stage.
pub open spec fn stage_message(s: ProcessingStageView) -> Seq<char> {
    match s {
        ProcessingStageView::Starting => "Initializing file processing..."@,
        ProcessingStageView::ParsingCsv => "Parsing CSV to extract product data..."@,
        ProcessingStageView::GroupingProducts => "Organizing products and variations..."@,
        ProcessingStageView::GroupingProductsCompleted { total_parents, total_products } => "Found "@ + num(
            total_parents,
        ) + " parent products with "@ + num(total_products) + " total items"@,
        ProcessingStageView::ProcessingProducts { sku, current, total } => "Processing product "@ + sku
            + " ("@ + num(current) + "/"@ + num(total) + ")"@,
        ProcessingStageView::ProcessingVariations { sku, parent_sku, current, total } =>
            "Processing variation "@ + sku + " ("@ + num(current) + "/"@ + num(total) + ")"@,
        ProcessingStageView::Finalizing => "Finalizing and cleaning up..."@,
        ProcessingStageView::Completed => "Processing completed successfully"@,
        ProcessingStageView::Failed(e) => "Processing failed: "@ + e,
        ProcessingStageView::BatchStarted { batch_number, total_batches, products_in_batch } =>
            "Starting batch "@ + num(batch_number) + "/"@ + num(total_batches) + " with "@ + num(
                products_in_batch,
            ) + " products"@,
        ProcessingStageView::BatchPaused { batch_number, total_batches, delay_minutes } => "Batch "@
            + num(batch_number) + "/"@ + num(total_batches) + " done, waiting "@ + num(
            delay_minutes as usize,
        ) + " minutes"@,
        ProcessingStageView::BatchCompleted {
            batch_number,
            total_batches,
            successful_products,
            failed_products,
        } => "Batch "@ + num(batch_number) + "/"@ + num(total_batches) + " completed: "@ + num(
            successful_products,
        ) + " successful, "@ + num(failed_products) + " failed"@,
    }
}

impl ProcessingStage {
    /// The message shown for this stage: see `stage_message`.
    pub fn to_message(&self) -> (r: String)
        ensures
            r@ == stage_message(self@),
    {
        match self {
            ProcessingStage::Starting => "Initializing file processing...".to_owned(),
            ProcessingStage::ParsingCsv => "Parsing CSV to extract product data...".to_owned(),
            ProcessingStage::GroupingProducts => "Organizing products and variations...".to_owned(),
            ProcessingStage::GroupingProductsCompleted { total_parents, total_products } => {
                let mut m = "Found ".to_owned();
                m.append(usize_to_string(*total_parents).as_str());
                m.append(" parent products with ");
                m.append(usize_to_string(*total_products).as_str());
                m.append(" total items");
                m
            },
            ProcessingStage::ProcessingProducts { sku, current, total } => {
                let mut m = "Processing product ".to_owned();
                m.append(sku.as_str());
                m.append(" (");
                m.append(usize_to_string(*current).as_str());
                m.append("/");
                m.append(usize_to_string(*total).as_str());
                m.append(")");
                m
            },
            ProcessingStage::ProcessingVariations { sku, parent_sku, current, total } => {
                let mut m = "Processing variation ".to_owned();
                m.append(sku.as_str());
                m.append(" (");
                m.append(usize_to_string(*current).as_str());
                m.append("/");
                m.append(usize_to_string(*total).as_str());
                m.append(")");
                m
            },
            ProcessingStage::Finalizing => "Finalizing and cleaning up...".to_owned(),
            ProcessingStage::Completed => "Processing completed successfully".to_owned(),
            ProcessingStage::Failed(e) => {
                let mut m = "Processing failed: ".to_owned();
                m.append(e.as_str());
                m
            },
            ProcessingStage::BatchStarted { batch_number, total_batches, products_in_batch } => {
                let mut m = "Starting batch ".to_owned();
                m.append(usize_to_string(*batch_number).as_str());
                m.append("/");
                m.append(usize_to_string(*total_batches).as_str());
                m.append(" with ");
                m.append(usize_to_string(*products_in_batch).as_str());
                m.append(" products");
                m
            },
            ProcessingStage::BatchPaused { batch_number, total_batches, delay_minutes } => {
                let mut m = "Batch ".to_owned();
                m.append(usize_to_string(*batch_number).as_str());
                m.append("/");
                m.append(usize_to_string(*total_batches).as_str());
                m.append(" done, waiting ");
                m.append(usize_to_string(*delay_minutes as usize).as_str());
                m.append(" minutes");
                m
            },
            ProcessingStage::BatchCompleted {
                batch_number,
                total_batches,
                successful_products,
                failed_products,
            } => {
                let mut m = "Batch ".to_owned();
                m.append(usize_to_string(*batch_number).as_str());
                m.append("/");
                m.append(usize_to_string(*total_batches).as_str());
                m.append(" completed: ");
                m.append(usize_to_string(*successful_products).as_str());
                m.append(" successful, ");
                m.append(usize_to_string(*failed_products).as_str());
                m.append(" failed");
                m
            },
        }
    }

    /// Whether work is still going on: every stage but `Completed` and `Failed`.
    pub fn is_processing(&self) -> (r: bool)
        ensures
            r == !(self@ is Completed || self@ is Failed),
    {
        match self {
            ProcessingStage::Completed => false,
            ProcessingStage::Failed(_) => false,
            _ => true,
        }
    }
}

/// The stage and counts kept for a file.
pub struct ProcessingProgress {
    pub file_id: String,
    pub stage: ProcessingStage,
    pub stage_message: String,
    pub total_rows: usize,
    pub processed_rows: usize,
    pub successful_rows: usize,
    pub failed_rows: usize,
    pub failed_row_details: Vec<FailedRowDetail>,
    pub failed_product_details: Vec<FailedProductDetail>,
}

impl ProcessingProgress {
    /// A file just started: stage `Starting`, nothing counted.
    pub fn new(file_id: String, total_rows: usize) -> (r: Self)
        ensures
            r.file_id@ == file_id@,
            r.stage@ == ProcessingStageView::Starting,
            r.stage_message@ == stage_message(ProcessingStageView::Starting),
            r.total_rows == total_rows,
            r.processed_rows == 0,
            r.successful_rows == 0,
            r.failed_rows == 0,
            r.failed_row_details@.len() == 0,
            r.failed_product_details@.len() == 0,
    {
        let stage = ProcessingStage::Starting;
        let stage_message = stage.to_message();
        ProcessingProgress {
            file_id,
            stage,
            stage_message,
            total_rows,
            processed_rows: 0,
            successful_rows: 0,
            failed_rows: 0,
            failed_row_details: Vec::new(),
            failed_product_details: Vec::new(),
        }
    }

    /// Moves to a stage and shows its message.
    pub fn update_stage(&mut self, stage: ProcessingStage)
        ensures
            final(self).stage@ == stage@,
            final(self).stage_message@ == stage_message(stage@),
            final(self).file_id == old(self).file_id,
            final(self).total_rows == old(self).total_rows,
            final(self).processed_rows == old(self).processed_rows,
            final(self).successful_rows == old(self).successful_rows,
            final(self).failed_rows == old(self).failed_rows,
            final(self).failed_row_details@ == old(self).failed_row_details@,
            final(self).failed_product_details@ == old(self).failed_product_details@,
    {
        self.stage_message = stage.to_message();
        self.stage = stage;
    }

    /// Counts one more processed row, as a success or a failure.
    pub fn increment_processed(&mut self, success: bool)
        requires
            old(self).processed_rows < usize::MAX,
            success ==> old(self).successful_rows < usize::MAX,
            !success ==> old(self).failed_rows < usize::MAX,
        ensures
            final(self).processed_rows == old(self).processed_rows + 1,
            final(self).successful_rows == old(self).successful_rows + (if success { 1int } else { 0int }),
            final(self).failed_rows == old(self).failed_rows + (if success { 0int } else { 1int }),
            final(self).stage == old(self).stage,
            final(self).stage_message == old(self).stage_message,
            final(self).total_rows == old(self).total_rows,
            final(self).failed_row_details@ == old(self).failed_row_details@,
            final(self).failed_product_details@ == old(self).failed_product_details@,
    {
        self.processed_rows = self.processed_rows + 1;
        if success {
            self.successful_rows = self.successful_rows + 1;
        } else {
            self.failed_rows = self.failed_rows + 1;
        }
    }

    /// Counts a failed row and keeps why it failed.
    pub fn add_failed_row(&mut self, row_number: usize, reason: String)
        requires
            old(self).failed_rows < usize::MAX,
        ensures
            final(self).failed_rows == old(self).failed_rows + 1,
            final(self).failed_row_details@.len() == old(self).failed_row_details@.len() + 1,
            final(self).failed_row_details@.drop_last() == old(self).failed_row_details@,
            final(self).failed_row_details@.last().row_number == row_number,
            final(self).failed_row_details@.last().reason@ == reason@,
            final(self).processed_rows == old(self).processed_rows,
            final(self).successful_rows == old(self).successful_rows,
            final(self).failed_product_details@ == old(self).failed_product_details@,
    {
        self.failed_rows = self.failed_rows + 1;
        let ghost before = self.failed_row_details@;
        self.failed_row_details.push(FailedRowDetail { row_number, reason });
        assert(self.failed_row_details@.drop_last() =~= before);
    }

    /// Keeps why a product failed.
    pub fn add_failed_product(&mut self, sku: String, reason: String)
        ensures
            final(self).failed_product_details@.len() == old(self).failed_product_details@.len() + 1,
            final(self).failed_product_details@.drop_last() == old(self).failed_product_details@,
            final(self).failed_product_details@.last().sku@ == sku@,
            final(self).failed_product_details@.last().reason@ == reason@,
            final(self).failed_rows == old(self).failed_rows,
            final(self).processed_rows == old(self).processed_rows,
            final(self).failed_row_details@ == old(self).failed_row_details@,
    {
        let ghost before = self.failed_product_details@;
        self.failed_product_details.push(FailedProductDetail { sku, reason });
        assert(self.failed_product_details@.drop_last() =~= before);
    }
}

} // verus!
