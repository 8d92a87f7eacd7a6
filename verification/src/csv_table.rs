//! Reading an uploaded CSV file's bytes into its header and records, and
//! grouping the rows that a request asks for.
use vstd::prelude::*;
use crate::field_mapping::WordPressFieldMapping;
use crate::grouping::{group_products_by_parent, grouped, records_view, GroupParentResult};
use crate::processor::{cleaned_attribute_mapping, cleaned_keys, cleaned_reverse_mapping, rows_to_process, rows_wanted};
use crate::str_map::insert_all;

verus! {

/// What csv's `Reader` (with a header row) gives for a file's bytes: the
/// header cells, or the text of the error that reading them gave; then each
/// record's cells, or the text of the error that reading it gave.
pub uninterp spec fn csv_table_of(data: Seq<u8>) -> Result<(Seq<Seq<char>>, Seq<Result<Seq<Seq<char>>, Seq<char>>>), Seq<char>>;

/// csv's `Reader::from_reader` over the bytes, then `headers` and `records`.
/// Trusted: the header cells and the records (each record's cells, or its
/// error's debug text), or the header error's text, are the named
/// `csv_table_of` of the bytes.
#[verifier::external_body]
fn read_csv_table(data: &[u8]) -> (r: Result<(Vec<String>, Vec<Result<Vec<String>, String>>), String>)
    ensures
        match r {
            Ok((h, recs)) => csv_table_of(data@) == Ok::<_, Seq<char>>((h.deep_view(), records_view(recs@))),
            Err(e) => csv_table_of(data@) == Err::<(Seq<Seq<char>>, Seq<Result<Seq<Seq<char>>, Seq<char>>>), _>(e@),
        },
{
    let mut rdr = csv::Reader::from_reader(data);
    let headers: Vec<String> = match rdr.headers() {
        Ok(h) => h.iter().map(|c| c.to_string()).collect(),
        Err(e) => return Err(e.to_string()),
    };
    let records = rdr.records().map(|rec| match rec {
        Ok(cells) => Ok(cells.iter().map(|c| c.to_string()).collect()),
        Err(e) => Err(format!("{:?}", e)),
    }).collect();
    Ok((headers, records))
}

/// Why a file with more records than a `u32` counts is refused.
pub open spec fn too_many_rows() -> Seq<char> {
    "The file has more rows than can be counted"@
}

/// The records from `start` on, `n` of them (none when `start` is past the end).
pub open spec fn rows_window<T>(recs: Seq<T>, start: int, n: int) -> Seq<T> {
    if start <= recs.len() { recs.subrange(start, start + n) } else { Seq::empty() }
}

/// The number of rows a request processes in a file: see `rows_wanted`,
/// with the file's record count. A file whose header cannot be read gives
/// that error; one with more records than a `u32` counts is refused.
pub fn csv_rows_to_process(data: &[u8], start_row: u32, row_count: u32) -> (r: Result<u32, String>)
    ensures
        match csv_table_of(data@) {
            Err(e) => r matches Err(m) && m@ == e,
            Ok((h, recs)) => if recs.len() > u32::MAX {
                r matches Err(m) && m@ == too_many_rows()
            } else {
                r matches Ok(n) && n == rows_wanted(recs.len() as u32, start_row, row_count)
            },
        },
{
    match read_csv_table(data) {
        Err(e) => Err(e),
        Ok((_headers, records)) => {
            if records.len() > 4294967295usize {
                proof {
                    reveal_strlit("The file has more rows than can be counted");
                }
                return Err("The file has more rows than can be counted".to_owned());
            }
            Ok(rows_to_process(records.len() as u32, start_row, row_count))
        },
    }
}

/// The families of the rows a request asks for: the file's records from
/// `start_row` on, as many as `rows_wanted` allows, grouped with the
/// mapping's cleaned columns (see `grouped`). A file whose header cannot be
/// read gives that error; one with more records than a `u32` counts is
/// refused.
pub fn rows_of_file(data: &[u8], start_row: u32, row_count: u32, mapping: &WordPressFieldMapping) -> (r: Result<
    GroupParentResult,
    String,
>)
    ensures
        match csv_table_of(data@) {
            Err(e) => r matches Err(m) && m@ == e,
            Ok((h, recs)) => if recs.len() > u32::MAX {
                r matches Err(m) && m@ == too_many_rows()
            } else {
                r matches Ok(g) && g@ == grouped(
                    rows_window(recs, start_row as int, rows_wanted(recs.len() as u32, start_row, row_count)),
                    h,
                    insert_all(Seq::empty(), cleaned_keys(mapping.reverse_view())),
                    insert_all(Seq::empty(), cleaned_keys(mapping.inverted_view())),
                )
            },
        },
{
    match read_csv_table(data) {
        Err(e) => Err(e),
        Ok((headers, records)) => {
            if records.len() > 4294967295usize {
                proof {
                    reveal_strlit("The file has more rows than can be counted");
                }
                return Err("The file has more rows than can be counted".to_owned());
            }
            let ghost all = records_view(records@);
            let n = rows_to_process(records.len() as u32, start_row, row_count);
            let start = start_row as usize;
            let mut rest = records;
            let mut window = if start <= rest.len() {
                rest.split_off(start)
            } else {
                Vec::new()
            };
            window.truncate(n as usize);
            assert(records_view(window@) =~= rows_window(all, start_row as int, n as int));
            let rev = cleaned_reverse_mapping(mapping);
            let arev = cleaned_attribute_mapping(mapping);
            group_products_by_parent(window, &headers, &rev, &arev)
        },
    }
}

} // verus!
