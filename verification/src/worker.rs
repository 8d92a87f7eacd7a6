//! The message that asks for a file to be processed, and its defaults.
use vstd::prelude::*;
use crate::field_mapping::WordPressFieldMapping;

verus! {

/// The shop a file's products go to.
pub struct SiteDetails {
    pub key: String,
    pub secret: String,
    pub url: String,
    pub name: String,
}

impl Default for SiteDetails {
    fn default() -> (r: Self)
        ensures
            r.key@.len() == 0,
            r.secret@.len() == 0,
            r.url@.len() == 0,
            r.name@.len() == 0,
    {
        SiteDetails { key: String::new(), secret: String::new(), url: String::new(), name: String::new() }
    }
}

/// A request to process rows of an uploaded CSV file.
pub struct NewFileProcessQueue {
    pub file: String,
    pub start_row: u32,
    pub row_count: u32,
    pub priority: u8,
    pub wordpress_field_mapping: WordPressFieldMapping,
    pub is_new_upload: bool,
    pub site_details: SiteDetails,
    /// Products per batch before a pause.
    pub batch_size: u32,
    /// Minutes to pause between batches.
    pub batch_delay_minutes: u32,
    /// Whether to skip every call that would change the shop.
    pub dry_run: bool,
}

/// The default pause between batches, in minutes.
pub fn default_batch_delay_minutes() -> (r: u32)
    ensures
        r == 5,
{
    5
}

/// The default number of products per batch.
pub fn default_batch_size() -> (r: u32)
    ensures
        r == 50,
{
    50
}

/// Dry runs are off unless asked for.
pub fn default_dry_run() -> (r: bool)
    ensures
        r == false,
{
    false
}

} // verus!
