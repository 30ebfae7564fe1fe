//! The price file's records: the csv crate splits the file's bytes into records
//! of text fields, and every record must hold a date and six prices.
use vstd::prelude::*;

verus! {

/// The records that the csv crate's reader (default settings, header handling as
/// given) reads from `bytes`, each a sequence of fields, or `None` where it
/// reports an error on some record.
pub uninterp spec fn csv_parsed_records(bytes: Seq<u8>, has_headers: bool) -> Option<
    Seq<Seq<Seq<char>>>,
>;

/// The text of every field of every record.
pub open spec fn records_view(r: Seq<Vec<String>>) -> Seq<Seq<Seq<char>>> {
    r.map_values(|rec: Vec<String>| rec@.map_values(|s: String| s@))
}

/// The number of fields a record of the price file needs: the date and the six
/// prices.
pub const PRICE_FIELDS: usize = 7;

/// Reads all records of `bytes` with `csv::ReaderBuilder::new()
/// .has_headers(has_headers).from_reader(bytes)` and `records()`, copying each
/// field into a `String`; `None` as soon as the reader reports an error. Claimed:
/// the outcome is the named `csv_parsed_records(bytes, has_headers)`, which
/// depends on these two arguments alone (the reader reads a byte slice, so no I/O
/// error can occur). How the csv crate splits, unquotes and checks records is
/// left unsaid.
#[verifier::external_body]
fn csv_records(bytes: &[u8], has_headers: bool) -> (r: Option<Vec<Vec<String>>>)
    ensures
        match r {
            Some(v) => csv_parsed_records(bytes@, has_headers) == Some(records_view(v@)),
            None => csv_parsed_records(bytes@, has_headers) is None,
        },
{
    let mut reader = csv::ReaderBuilder::new().has_headers(has_headers).from_reader(bytes);
    let mut out: Vec<Vec<String>> = Vec::new();
    for record in reader.records() {
        match record {
            Ok(fields) => out.push(fields.iter().map(|f| f.to_string()).collect()),
            Err(_) => return None,
        }
    }
    Some(out)
}

/// The records of a price file's bytes, the header record left out where
/// `has_headers` is set; `None` where the csv reader rejects the file.
pub fn price_file_records(bytes: &[u8], has_headers: bool) -> (r: Option<Vec<Vec<String>>>)
    ensures
        match r {
            Some(v) => csv_parsed_records(bytes@, has_headers) == Some(records_view(v@)),
            None => csv_parsed_records(bytes@, has_headers) is None,
        },
{
    csv_records(bytes, has_headers)
}

/// The first record with fewer than `PRICE_FIELDS` fields, or `None` where every
/// record has them all.
pub fn first_short_record(records: &Vec<Vec<String>>) -> (r: Option<usize>)
    ensures
        match r {
            Some(i) => {
                &&& i < records@.len()
                &&& records@[i as int]@.len() < PRICE_FIELDS
                &&& forall|j: int| 0 <= j < i ==> records@[j]@.len() >= PRICE_FIELDS
            },
            None => forall|j: int| 0 <= j < records@.len() ==> records@[j]@.len() >= PRICE_FIELDS,
        },
{
    let n = records.len();
    let mut i: usize = 0;
    while i < n
        invariant
            n == records@.len(),
            i <= n,
            forall|j: int| 0 <= j < i ==> records@[j]@.len() >= PRICE_FIELDS,
        decreases n - i,
    {
        if records[i].len() < PRICE_FIELDS {
            return Some(i);
        }
        i = i + 1;
    }
    None
}

} // verus!
