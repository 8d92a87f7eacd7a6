use updater::batcher::{create_product_batches, ProductBatch};
use updater::csv_table::{csv_rows_to_process, rows_of_file};
use updater::family::{family_start, family_step, FamilyEvent, FamilyNext, FamilyRecord};
use updater::field_mapping::{default_wordpress_field_mapping, AttributeMapping};
use updater::grouping::{group_products_by_parent, GroupParentResult};
use updater::processing_result::{ProcessingResult, ProcessingStatus, ProductProcessType};
use updater::processor::{
    accept_cached_product, accept_cached_variation, batch_outcome, batch_request, shop_lookup, ShopLookup, batch_url, batch_window_step,
    check_product_id, check_variation_id, chunk_products, cleaned_attribute_mapping,
    cleaned_reverse_mapping, dry_run_batch, dry_run_product, dry_run_variation, file_id_from_path,
    fingerprint_matches, is_main_product_row, is_variation_row, normalize_base_url,
    partition_families, pause_before_batch, plan_main_product, plan_variation, product_by_sku_url,
    product_url, products_url, rows_to_process, select_product_by_sku, select_variation_by_sku,
    standalone_position, variation_by_sku_url, variation_url, variations_url, MainProductStep,
    VariationStep, MAX_ROWS_PER_RUN,
};
use updater::helper::calculate_hash;
use updater::progress::{ProcessingProgress, ProcessingStage};
use updater::status::{
    file_status_of, model_status_of, progress_prefix_known, FileProcessingManager, ModelDownloadManager,
    ModelStatus, RedisProgressManager, Status,
};
use updater::str_map::StrMap;
use updater::woocommerce::{ProductVariation, VariationAttribute, WooCommerceProduct};
use updater::worker::{default_batch_delay_minutes, default_batch_size, default_dry_run, SiteDetails};

fn product(sku: &str, name: &str) -> WooCommerceProduct {
    WooCommerceProduct {
        id: String::new(),
        name: name.to_string(),
        sku: sku.to_string(),
        type_: "simple".to_string(),
        parent: String::new(),
        featured: false,
        regular_price: "10".to_string(),
        sale_price: None,
        description: String::new(),
        short_description: String::new(),
        weight: None,
        categories: Vec::new(),
        tags: Vec::new(),
        images: Vec::new(),
        variations: Vec::new(),
        attributes: Vec::new(),
        manage_stock: None,
        stock_quantity: None,
        stock_status: Some("instock".to_string()),
        shipping_class: None,
        dimensions: None,
        meta_data: Vec::new(),
    }
}

fn variation(sku: &str, parent: &str) -> ProductVariation {
    ProductVariation {
        id: String::new(),
        sku: sku.to_string(),
        parent: parent.to_string(),
        description: String::new(),
        regular_price: "5".to_string(),
        sale_price: String::new(),
        attributes: Vec::new(),
        stock_quantity: None,
        image: None,
        stock_status: None,
        weight: None,
        shipping_class: None,
        dimensions: None,
        meta_data: Vec::new(),
    }
}

fn family(sku: &str, kids: usize) -> (WooCommerceProduct, Vec<ProductVariation>) {
    let children = (0..kids).map(|i| variation(&format!("{}-{}", sku, i), sku)).collect();
    (product(sku, "P"), children)
}

#[test]
fn result_records_rows_once() {
    let mut r = ProcessingResult::new("f.csv".to_string(), "f".to_string(), 10);
    assert_eq!(r.status, ProcessingStatus::Success);
    assert!(r.mark_row_processed(1, 30, 100));
    assert!(r.mark_row_processed(2, 10, 101));
    assert!(!r.mark_row_processed(1, 99, 102));
    assert!(r.is_row_processed(1));
    assert!(!r.is_row_processed(3));
    assert_eq!(r.get_processed_row_count(), 2);
    assert_eq!(r.get_row_processing_time(1), Some(30));
    assert_eq!(r.get_row_processing_time(3), None);
    assert_eq!(r.get_average_row_processing_time(), 20);
}

#[test]
fn result_average_of_nothing_is_zero() {
    let r = ProcessingResult::new("f.csv".to_string(), "f".to_string(), 0);
    assert_eq!(r.get_average_row_processing_time(), 0);
    assert!(r.get_slowest_processed_rows(3).is_empty());
}

#[test]
fn result_products_and_failures() {
    let mut r = ProcessingResult::new("f.csv".to_string(), "f".to_string(), 10);
    assert!(r.mark_product_processed("A".to_string(), ProductProcessType::Parent, 1, 5, 0));
    assert!(r.mark_product_processed("A-1".to_string(), ProductProcessType::Child, 2, 7, 0));
    assert!(r.mark_product_processed("B".to_string(), ProductProcessType::Standalone, 3, 9, 0));
    assert!(!r.mark_product_processed("A".to_string(), ProductProcessType::Parent, 1, 6, 0));
    assert_eq!(r.parent_products, 3);
    assert_eq!(r.child_products, 1);
    assert_eq!(r.get_processed_product_count(), 3);
    assert_eq!(r.get_product_processing_time("A"), Some(6));
    assert_eq!(r.get_product_processing_time("Z"), None);
    r.mark_failure(4, "bad row".to_string(), Some("C".to_string()));
    assert_eq!(r.status, ProcessingStatus::Failure);
    assert_eq!(r.failed_row.len(), 1);
    assert_eq!(r.failed_row[0].reason, "bad row");
}

#[test]
fn result_slowest_rows_first() {
    let mut r = ProcessingResult::new("f.csv".to_string(), "f".to_string(), 10);
    r.mark_row_processed(1, 5, 0);
    r.mark_row_processed(2, 9, 0);
    r.mark_row_processed(3, 5, 0);
    r.mark_row_processed(4, 7, 0);
    assert_eq!(r.get_slowest_processed_rows(10), vec![(2, 9), (4, 7), (1, 5), (3, 5)]);
    assert_eq!(r.get_slowest_processed_rows(2), vec![(2, 9), (4, 7)]);
    assert!(r.get_slowest_processed_rows(0).is_empty());
}

#[test]
fn result_completion() {
    let mut r = ProcessingResult::new("f.csv".to_string(), "f".to_string(), 10);
    r.set_total_products(7);
    r.complete(1234);
    assert_eq!(r.total_products, 7);
    assert_eq!(r.processing_time, 1234);
    assert_eq!(r.status, ProcessingStatus::Success);
    r.fail_with_error(2000);
    assert_eq!(r.status, ProcessingStatus::Failure);
    assert_eq!(r.processing_time, 2000);
}

#[test]
fn batches_keep_families_whole() {
    let families = vec![family("A", 2), family("B", 0), family("C", 4), family("D", 1)];
    let batches = create_product_batches(families, 4);
    let counts: Vec<usize> = batches.iter().map(|b| b.get_total_count()).collect();
    assert_eq!(counts, vec![4, 5, 2]);
    let skus: Vec<Vec<String>> = batches
        .iter()
        .map(|b| b.get_products().iter().map(|f| f.0.sku.clone()).collect())
        .collect();
    assert_eq!(skus, vec![vec!["A", "B"], vec!["C"], vec!["D"]]);
}

#[test]
fn batch_limits() {
    let mut b = ProductBatch::new();
    assert!(!b.would_exceed_limit(100, 5));
    let (p, c) = family("A", 2);
    b.add_product_family(p, c);
    assert_eq!(b.get_total_count(), 3);
    assert!(b.would_exceed_limit(3, 5));
    assert!(!b.would_exceed_limit(2, 5));
    assert!(create_product_batches(Vec::new(), 3).is_empty());
}

#[test]
fn rows_to_process_limits() {
    assert_eq!(rows_to_process(100, 10, 0), 90);
    assert_eq!(rows_to_process(100, 10, 20), 20);
    assert_eq!(rows_to_process(100, 10, 500), 90);
    assert_eq!(rows_to_process(100_000, 0, 0), 40000);
    assert_eq!(MAX_ROWS_PER_RUN, 40000);
    assert_eq!(rows_to_process(5, 5, 3), 0);
    assert_eq!(rows_to_process(5, 9, 0), 0);
    assert_eq!(rows_to_process(5, 9, 3), 0);
}

#[test]
fn urls() {
    assert_eq!(normalize_base_url("https://shop.test//".to_string()), "https://shop.test");
    assert_eq!(normalize_base_url("https://shop.test".to_string()), "https://shop.test");
    let b = "https://shop.test";
    assert_eq!(products_url(b), "https://shop.test/wp-json/wc/v3/products");
    assert_eq!(batch_url(b), "https://shop.test/wp-json/wc/v3/products/batch");
    assert_eq!(product_url(b, "5"), "https://shop.test/wp-json/wc/v3/products/5");
    assert_eq!(product_by_sku_url(b, "A1"), "https://shop.test/wp-json/wc/v3/products?sku=A1");
    assert_eq!(variations_url(b, "5"), "https://shop.test/wp-json/wc/v3/products/5/variations");
    assert_eq!(variation_url(b, "5", "9"), "https://shop.test/wp-json/wc/v3/products/5/variations/9");
    assert_eq!(
        variation_by_sku_url(b, "5", "V1"),
        "https://shop.test/wp-json/wc/v3/products/5/variations?sku=V1"
    );
    assert_eq!(file_id_from_path("abc123.csv"), "abc123");
    assert_eq!(file_id_from_path("noext"), "noext");
    assert_eq!(file_id_from_path("feed.v2.csv"), "feed.v2");
    assert_eq!(file_id_from_path(".csv"), "");
}

#[test]
fn chunks_and_batches() {
    let products: Vec<WooCommerceProduct> = (0..5).map(|i| product(&format!("S{}", i), "P")).collect();
    let chunks = chunk_products(&products, 2);
    let sizes: Vec<usize> = chunks.iter().map(|c| c.len()).collect();
    assert_eq!(sizes, vec![2, 2, 1]);
    assert_eq!(chunks[2][0].sku, "S4");
    let (create, update) = batch_request(products, true);
    assert_eq!((create.len(), update.len()), (5, 0));
    let (create, update) = batch_request(create, false);
    assert_eq!((create.len(), update.len()), (0, 5));
    assert!(!pause_before_batch(0, 5));
    assert!(pause_before_batch(1, 5));
    assert!(!pause_before_batch(1, 0));
    assert_eq!(standalone_position(2, 50, 3), 104);
    assert_eq!(batch_window_step(0, 10, 5), (false, 10));
    assert_eq!(batch_window_step(3, 3, 5), (true, 3));
    assert_eq!(batch_window_step(2, 3, 5), (false, 5));
}

#[test]
fn families_split_by_variations() {
    let families = vec![family("A", 2), family("B", 0), family("C", 1), family("D", 0)];
    let (with, without) = partition_families(&families);
    let w: Vec<&str> = with.iter().map(|f| f.0.sku.as_str()).collect();
    let o: Vec<&str> = without.iter().map(|f| f.0.sku.as_str()).collect();
    assert_eq!(w, vec!["A", "C"]);
    assert_eq!(o, vec!["B", "D"]);
}

#[test]
fn planning_main_products() {
    let p = product("A1", "Shirt");
    assert!(is_main_product_row(&p));
    match plan_main_product(&p, None) {
        MainProductStep::Create(c) => assert_eq!(c.id, ""),
        _ => panic!("expected a creation"),
    }
    let mut found = product("A1", "Old shirt");
    found.id = "77".to_string();
    match plan_main_product(&p, Some(found)) {
        MainProductStep::Update(u) => {
            assert_eq!(u.id, "77");
            assert_eq!(u.name, "Shirt");
        },
        _ => panic!("expected an update"),
    }
    let mut same = product("A1", "Shirt");
    same.id = "78".to_string();
    match plan_main_product(&p, Some(same)) {
        MainProductStep::Unchanged(u) => {
            assert_eq!(u.sku, "A1");
            assert_eq!(u.id, "78");
        },
        _ => panic!("expected no change"),
    }
    let nameless = product("A2", "");
    match plan_main_product(&nameless, None) {
        MainProductStep::MissingFields(m) => assert_eq!(m, "Product name is required"),
        _ => panic!("expected a refusal"),
    }
    let mut own = product("A3", "X");
    own.parent = "A3".to_string();
    assert!(is_main_product_row(&own));
    own.parent = "Z".to_string();
    assert!(!is_main_product_row(&own));
}

#[test]
fn planning_variations() {
    let red = || {
        let mut v = variation("V1", "A1");
        v.attributes = vec![VariationAttribute { name: "Colour".to_string(), option: "Red".to_string() }];
        v
    };
    let v = red();
    assert!(is_variation_row(&v));
    assert!(!is_variation_row(&variation("V2", "")));
    match plan_variation(&v, None) {
        VariationStep::Create(c) => assert_eq!(c.sku, "V1"),
        _ => panic!("expected a creation"),
    }
    let mut found = variation("V1", "A1");
    found.id = "3".to_string();
    match plan_variation(&v, Some(found)) {
        VariationStep::Update(u) => {
            assert_eq!(u.id, "3");
            assert_eq!(u.attributes.len(), 1);
        },
        _ => panic!("expected an update"),
    }
    let mut same = red();
    same.id = "31".to_string();
    match plan_variation(&v, Some(same)) {
        VariationStep::Unchanged(u) => assert_eq!(u.id, "31"),
        _ => panic!("expected no change"),
    }
    match plan_variation(&variation("", "A1"), None) {
        VariationStep::MissingFields(m) => assert_eq!(m, "Product SKU is required"),
        _ => panic!("expected a refusal"),
    }
}

#[test]
fn lookups_by_sku_and_id() {
    let mut cached = product("A1", "Shirt");
    assert!(!accept_cached_product(&cached, "A1"));
    cached.id = "4".to_string();
    assert!(accept_cached_product(&cached, "A1"));
    assert!(!accept_cached_product(&cached, "A2"));
    let mut cv = variation("V1", "A1");
    cv.id = "8".to_string();
    assert!(accept_cached_variation(&cv, "V1"));
    assert_eq!(
        select_product_by_sku(Vec::new(), "A1").err(),
        Some("No product found with SKU: A1".to_string())
    );
    assert_eq!(
        select_product_by_sku(vec![product("B", "x")], "A1").err(),
        Some("Product SKU mismatch: expected A1, found B".to_string())
    );
    assert_eq!(select_product_by_sku(vec![product("A1", "x")], "A1").map(|p| p.sku), Ok("A1".to_string()));
    assert_eq!(
        select_variation_by_sku(Vec::new(), "V1").err(),
        Some("No product variation found with SKU: V1".to_string())
    );
    assert_eq!(select_variation_by_sku(vec![variation("V1", "A")], "V1").map(|p| p.sku), Ok("V1".to_string()));
    assert_eq!(
        check_product_id(product("A1", "x"), "9").err(),
        Some("Product SKU mismatch: expected 9, found A1".to_string())
    );
    assert_eq!(check_product_id(cached, "4").map(|p| p.id), Ok("4".to_string()));
    assert_eq!(check_variation_id(cv, "8").map(|p| p.id), Ok("8".to_string()));
    assert!(check_variation_id(variation("V9", "A"), "8").is_err());
}

#[test]
fn dry_runs() {
    assert_eq!(dry_run_product(&product("A1", "x")).id, "dry_run_A1");
    assert_eq!(dry_run_variation(&variation("V1", "A1")).id, "dry_run_var_V1");
    let out = dry_run_batch(&vec![product("A", "x"), product("B", "y")]);
    let ids: Vec<&str> = out.iter().map(|p| p.id.as_str()).collect();
    assert_eq!(ids, vec!["dry_run_A", "dry_run_B"]);
}

#[test]
fn fingerprints() {
    let json = "{\"sku\":\"A1\"}".to_string();
    let stored = calculate_hash(json.clone());
    assert!(fingerprint_matches(json.clone(), &stored));
    assert!(!fingerprint_matches(json, "0000"));
}

#[test]
fn cleaned_mappings() {
    let mut m = default_wordpress_field_mapping();
    m.sku = Some("\u{feff}SKU ".to_string());
    m.add_attribute("colour".to_string(), AttributeMapping { column: " Colour\u{200b}".to_string(), variable: true });
    let r = cleaned_reverse_mapping(&m);
    assert_eq!(r.get("SKU").map(|s| s.as_str()), Some("sku"));
    let a = cleaned_attribute_mapping(&m);
    assert_eq!(a.get("Colour").map(|x| x.column.as_str()), Some("colour"));
}

#[test]
fn grouping_rows_into_families() {
    let headers: Vec<String> = vec!["SKU", "Title", "Parent", "Colour"].into_iter().map(String::from).collect();
    let mut rev = StrMap::new();
    rev.insert("SKU".to_string(), "sku".to_string());
    rev.insert("Title".to_string(), "Name".to_string());
    rev.insert("Parent".to_string(), "parent_id".to_string());
    let mut arev = StrMap::new();
    arev.insert("Colour".to_string(), AttributeMapping { column: "Colour".to_string(), variable: true });
    let rec = |cells: &[&str]| -> Result<Vec<String>, String> { Ok(cells.iter().map(|c| c.to_string()).collect()) };
    let records = vec![
        rec(&["A1", "Shirt", "", ""]),
        rec(&["A1-R", "", "A1", "Red"]),
        Err("bad quoting".to_string()),
        rec(&["A1-B", "", "A1", "Blue"]),
        rec(&["B1", "Mug", "", ""]),
        rec(&["X-1", "", "MISSING", "Green"]),
    ];
    let g: GroupParentResult = group_products_by_parent(records, &headers, &rev, &arev).unwrap();
    let group = g.get_group();
    assert_eq!(group.len(), 2);
    assert_eq!(group[0].0.sku, "A1");
    assert_eq!(group[0].0.name, "Shirt");
    let kids: Vec<&str> = group[0].1.iter().map(|v| v.sku.as_str()).collect();
    assert_eq!(kids, vec!["A1-R", "A1-B"]);
    assert!(group[0].1.iter().all(|v| v.parent == group[0].0.sku));
    let colour = group[0].0.attributes.iter().find(|a| a.name == "colour").unwrap();
    assert_eq!(colour.options, vec!["Red", "Blue"]);
    assert_eq!(group[1].0.sku, "B1");
    assert!(group[1].1.is_empty());
    let failed = g.get_failed();
    assert_eq!(failed.len(), 1);
    assert_eq!(failed[0].row_number, 3);
    assert_eq!(failed[0].reason, "Error processing record: bad quoting");
    assert_eq!(g.get_total(), 3);
    assert_eq!(g.get_total_products(), 4);
}

#[test]
fn group_result_building() {
    let mut g = GroupParentResult::new();
    let (p, c) = family("A", 2);
    g.add_group(p, c);
    g.add_many_group(vec![family("B", 0), family("C", 1)]);
    g.add_failed_row(9, "oops".to_string());
    assert_eq!(g.get_group().len(), 3);
    assert_eq!(g.get_total(), 4);
    assert_eq!(g.get_total_products(), 6);
}

#[test]
fn progress_messages() {
    let cases = vec![
        (ProcessingStage::Starting, "Initializing file processing..."),
        (ProcessingStage::ParsingCsv, "Parsing CSV to extract product data..."),
        (ProcessingStage::GroupingProducts, "Organizing products and variations..."),
        (
            ProcessingStage::GroupingProductsCompleted { total_parents: 3, total_products: 12 },
            "Found 3 parent products with 12 total items",
        ),
        (
            ProcessingStage::ProcessingProducts { sku: "A1".to_string(), current: 2, total: 9 },
            "Processing product A1 (2/9)",
        ),
        (
            ProcessingStage::ProcessingVariations {
                sku: "V1".to_string(),
                parent_sku: "A1".to_string(),
                current: 1,
                total: 4,
            },
            "Processing variation V1 (1/4)",
        ),
        (ProcessingStage::Finalizing, "Finalizing and cleaning up..."),
        (ProcessingStage::Completed, "Processing completed successfully"),
        (ProcessingStage::Failed("disk full".to_string()), "Processing failed: disk full"),
        (
            ProcessingStage::BatchStarted { batch_number: 2, total_batches: 5, products_in_batch: 50 },
            "Starting batch 2/5 with 50 products",
        ),
        (
            ProcessingStage::BatchPaused { batch_number: 2, total_batches: 5, delay_minutes: 3 },
            "Batch 2/5 done, waiting 3 minutes",
        ),
        (
            ProcessingStage::BatchCompleted {
                batch_number: 2,
                total_batches: 5,
                successful_products: 48,
                failed_products: 2,
            },
            "Batch 2/5 completed: 48 successful, 2 failed",
        ),
    ];
    for (stage, message) in cases {
        assert_eq!(stage.to_message(), message);
    }
    assert!(ProcessingStage::ParsingCsv.is_processing());
    assert!(!ProcessingStage::Completed.is_processing());
    assert!(!ProcessingStage::Failed(String::new()).is_processing());
}

#[test]
fn progress_counts() {
    let mut p = ProcessingProgress::new("f1".to_string(), 10);
    assert_eq!(p.stage_message, "Initializing file processing...");
    p.update_stage(ProcessingStage::Finalizing);
    assert_eq!(p.stage_message, "Finalizing and cleaning up...");
    p.increment_processed(true);
    p.increment_processed(false);
    assert_eq!((p.processed_rows, p.successful_rows, p.failed_rows), (2, 1, 1));
    p.add_failed_row(4, "bad".to_string());
    assert_eq!(p.failed_rows, 2);
    assert_eq!(p.failed_row_details[0].row_number, 4);
    p.add_failed_product("A1".to_string(), "rejected".to_string());
    assert_eq!(p.failed_product_details[0].sku, "A1");
}

#[test]
fn statuses_round_trip() {
    for s in [Status::Pending, Status::Done, Status::Failed] {
        assert_eq!(Status::from_string(&s.to_string()), s);
    }
    for s in [ModelStatus::Queued, ModelStatus::Downloading, ModelStatus::Completed, ModelStatus::Failed] {
        assert_eq!(ModelStatus::from_string(&s.to_string()), s);
    }
    assert_eq!(Status::from_string("whatever"), Status::Pending);
    assert_eq!(ModelStatus::from_string("whatever"), ModelStatus::Queued);
    assert_eq!(file_status_of(None), Status::Pending);
    assert_eq!(file_status_of(Some("done".to_string())), Status::Done);
    assert_eq!(model_status_of(None), ModelStatus::Queued);
    assert_eq!(model_status_of(Some("completed".to_string())), ModelStatus::Completed);
}

#[test]
fn status_keys() {
    let m = RedisProgressManager::new("processing");
    assert_eq!(m.status_key("f1"), "processing:status:f1");
    assert_eq!(m.progress_key("f1"), "processing:progress:f1");
    let f = FileProcessingManager::new();
    assert_eq!(f.redis.prefix, "processing");
    assert!(FileProcessingManager::is_file_in_process(Status::Pending));
    assert!(!FileProcessingManager::is_file_in_process(Status::Done));
    assert!(FileProcessingManager::is_process_done(Status::Done));
    let md = ModelDownloadManager::new();
    let key = md.redis.status_key("llama");
    assert_eq!(key, "model:status:llama");
    assert_eq!(ModelDownloadManager::model_name_from_key(&key), "llama");
    assert!(ModelDownloadManager::is_model_downloading(ModelStatus::Downloading));
    assert!(ModelDownloadManager::is_model_download_complete(ModelStatus::Completed));
    assert!(progress_prefix_known("model"));
    assert!(!progress_prefix_known("other"));
}

#[test]
fn worker_defaults() {
    assert_eq!(default_batch_delay_minutes(), 5);
    assert_eq!(default_batch_size(), 50);
    assert!(!default_dry_run());
    let s = SiteDetails::default();
    assert_eq!(s.url, "");
}

#[test]
fn family_steps_through_parent_and_variations() {
    let fam = family("A", 2);
    let s = family_start(7);
    assert_eq!((s.row, s.child), (7, 0));
    let (s, rec, next) = family_step(&fam, s, FamilyEvent::ParentSent("99".to_string()));
    match rec {
        FamilyRecord::Processed { sku, product_type, row } => {
            assert_eq!(sku, "A");
            assert_eq!(product_type, ProductProcessType::Parent);
            assert_eq!(row, 7);
        },
        _ => panic!("expected the parent to be recorded"),
    }
    assert_eq!(next, FamilyNext::Child(0));
    assert_eq!((s.row, s.child, s.parent_id.as_str()), (8, 0, "99"));
    let (s, rec, next) = family_step(&fam, s, FamilyEvent::ChildFailed("timeout".to_string()));
    match rec {
        FamilyRecord::Failed { row, reason, sku } => {
            assert_eq!(row, 0);
            assert_eq!(reason, "Variation processing failed: timeout");
            assert_eq!(sku, "A-0");
        },
        _ => panic!("expected a failure"),
    }
    assert_eq!(next, FamilyNext::Child(1));
    let (s, rec, next) = family_step(&fam, s, FamilyEvent::ChildSent);
    match rec {
        FamilyRecord::Processed { sku, product_type, row } => {
            assert_eq!((sku.as_str(), product_type, row), ("A-1", ProductProcessType::Child, 9));
        },
        _ => panic!("expected the variation to be recorded"),
    }
    assert_eq!(next, FamilyNext::Done);
    assert_eq!(s.row, 10);
}

#[test]
fn family_stops_when_parent_fails() {
    let fam = family("B", 3);
    let (s, rec, next) = family_step(&fam, family_start(2), FamilyEvent::ParentFailed("boom".to_string()));
    match rec {
        FamilyRecord::Failed { row, reason, sku } => {
            assert_eq!((row, reason.as_str(), sku.as_str()), (2, "Parent processing failed: boom", "B"));
        },
        _ => panic!("expected a failure"),
    }
    assert_eq!(next, FamilyNext::Done);
    assert_eq!(s.row, 2);
    let lone = family("C", 0);
    let (s, rec, next) = family_step(&lone, family_start(4), FamilyEvent::ParentUnchanged("5".to_string()));
    assert!(matches!(rec, FamilyRecord::Nothing));
    assert_eq!(next, FamilyNext::Done);
    assert_eq!(s.parent_id, "5");
    let (_, rec, next) = family_step(&fam, family_start(1), FamilyEvent::ChildUnchanged);
    assert!(matches!(rec, FamilyRecord::Nothing));
    assert_eq!(next, FamilyNext::Child(1));
}

#[test]
fn batch_outcomes() {
    assert_eq!(batch_outcome(3, 20, Ok(())), (20, 0, None));
    assert_eq!(
        batch_outcome(3, 20, Err("503".to_string())),
        (0, 20, Some("Batch 3 failed: 503".to_string()))
    );
}

#[test]
fn shop_lookup_choices() {
    assert_eq!(shop_lookup(true, false), (false, ShopLookup::BySku));
    assert_eq!(shop_lookup(false, false), (true, ShopLookup::ById));
    assert_eq!(shop_lookup(false, true), (true, ShopLookup::Nothing));
    assert_eq!(shop_lookup(true, true), (false, ShopLookup::Nothing));
}

#[test]
fn reading_a_csv_file() {
    let data = b"SKU,Title,Parent\nA1,Shirt,\nA1-R,,A1\nB1,Mug,\nC1,Cup,\n";
    assert_eq!(csv_rows_to_process(data, 0, 0), Ok(4));
    assert_eq!(csv_rows_to_process(data, 1, 2), Ok(2));
    assert_eq!(csv_rows_to_process(data, 9, 0), Ok(0));
    let mut m = default_wordpress_field_mapping();
    m.name = Some("Title".to_string());
    m.parent_id = Some("Parent".to_string());
    let g = rows_of_file(data, 0, 0, &m).unwrap();
    let skus: Vec<&str> = g.get_group().iter().map(|f| f.0.sku.as_str()).collect();
    assert_eq!(skus, vec!["A1", "B1", "C1"]);
    assert_eq!(g.get_group()[0].1.len(), 1);
    assert_eq!(g.get_group()[0].0.name, "Shirt");
    let window = rows_of_file(data, 2, 1, &m).unwrap();
    let skus: Vec<&str> = window.get_group().iter().map(|f| f.0.sku.as_str()).collect();
    assert_eq!(skus, vec!["B1"]);
    assert!(rows_of_file(data, 7, 0, &m).unwrap().get_group().is_empty());
}

#[test]
fn reading_a_csv_file_with_a_bad_record() {
    let data = b"SKU,Title\nA1,Shirt\nB1,Mug,extra\n";
    let g = rows_of_file(data, 0, 0, &default_wordpress_field_mapping()).unwrap();
    assert_eq!(g.get_group().len(), 1);
    assert_eq!(g.get_failed().len(), 1);
    assert_eq!(g.get_failed()[0].row_number, 2);
    assert!(g.get_failed()[0].reason.starts_with("Error processing record: "));
}

#[test]
fn family_with_unreachable_cache_fails_each_product() {
    let fam = family("D", 2);
    let (s, rec, next) = family_step(&fam, family_start(3), FamilyEvent::ParentUnreachable("down".to_string()));
    match rec {
        FamilyRecord::Failed { row, reason, sku } => {
            assert_eq!((row, reason.as_str(), sku.as_str()), (3, "Parent processing failed: down", "D"));
        },
        _ => panic!("expected a failure"),
    }
    assert_eq!(next, FamilyNext::Child(0));
    let (s, rec, next) = family_step(&fam, s, FamilyEvent::ChildFailed("down".to_string()));
    assert!(matches!(rec, FamilyRecord::Failed { .. }));
    assert_eq!(next, FamilyNext::Child(1));
    let (_, _, next) = family_step(&fam, s, FamilyEvent::ChildFailed("down".to_string()));
    assert_eq!(next, FamilyNext::Done);
}
