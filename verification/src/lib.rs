pub mod text;
pub mod number;
pub mod helper;
pub mod value;
pub mod str_map;
pub mod field_mapping;
pub mod woocommerce;
pub mod builder;
pub mod processing_result;
pub mod grouping;
pub mod batcher;
pub mod progress;
pub mod status;
pub mod worker;
pub mod processor;
pub mod family;
pub mod csv_table;
