//! The summary table of a catalog, and its encoding as CSV.

use vstd::prelude::*;
use crate::catalog::{BazaarResponse, Product};
use crate::error::FeedError;
use crate::text::{decimal_digits, decimal_string};

verus! {

/// A writer of the `csv` crate, with the default settings, over a buffer in
/// memory.
#[verifier::external_body]
pub struct CsvBuffer {
    writer: csv::Writer<Vec<u8>>,
}

/// The records that a writer has taken so far, oldest first, each as the
/// texts of its fields.
pub uninterp spec fn written_records(w: CsvBuffer) -> Seq<Seq<Seq<char>>>;

/// What a writer with the default settings hands back at the end, once it
/// has taken exactly these records: the bytes of its buffer, or nothing
/// where the last flush fails.
pub uninterp spec fn csv_bytes(records: Seq<Seq<Seq<char>>>) -> Option<Seq<u8>>;

/// `csv::Writer::from_writer` over an empty in-memory buffer: a writer with
/// the default settings that has taken no record yet.
#[verifier::external_body]
fn new_writer() -> (w: CsvBuffer)
    ensures
        written_records(w) == Seq::<Seq<Seq<char>>>::empty(),
{
    CsvBuffer { writer: csv::Writer::from_writer(Vec::new()) }
}

/// `csv::Writer::write_record`: the writer takes the record when it is the
/// first one, or has as many fields as the first one had, and refuses it
/// otherwise.  Its buffer is in memory and takes every write, so nothing
/// else makes it fail.  A writer that refused a record is given up.
#[verifier::external_body]
fn write_record(w: CsvBuffer, record: &Vec<String>) -> (r: Option<CsvBuffer>)
    ensures
        r is Some <==> (written_records(w).len() == 0 || written_records(w)[0].len()
            == record@.len()),
        r matches Some(after) ==> written_records(after) == written_records(w).push(
            record_view(*record),
        ),
{
    let mut w = w;
    match w.writer.write_record(record) {
        Ok(()) => Some(w),
        Err(_) => None,
    }
}

/// `csv::Writer::into_inner`: flushes the writer and hands back the buffer.
/// What comes back depends on the records taken and on nothing else.
#[verifier::external_body]
fn finish(w: CsvBuffer) -> (r: Option<Vec<u8>>)
    ensures
        r is Some <==> csv_bytes(written_records(w)) is Some,
        r matches Some(bytes) ==> csv_bytes(written_records(w)) == Some(bytes@),
{
    w.writer.into_inner().ok()
}

/// A record as the texts of its fields.
pub open spec fn record_view(record: Vec<String>) -> Seq<Seq<char>> {
    record@.map_values(|s: String| s@)
}

/// A table as the records it holds.
pub open spec fn table_view(table: Vec<Vec<String>>) -> Seq<Seq<Seq<char>>> {
    table@.map_values(|r: Vec<String>| record_view(r))
}

/// The first row: the feed's timestamp, padded to seven columns.
pub open spec fn metadata_row(last_updated: u64) -> Seq<Seq<char>> {
    seq![
        "last_updated"@,
        decimal_digits(last_updated as nat),
        ""@,
        ""@,
        ""@,
        ""@,
        ""@,
    ]
}

/// The second row: the names of the seven columns.
pub open spec fn header_row() -> Seq<Seq<char>> {
    seq![
        "product_id"@,
        "sell_price"@,
        "sell_volume"@,
        "buy_price"@,
        "buy_volume"@,
        "sell_orders"@,
        "buy_orders"@,
    ]
}

/// The row of one product, drawn from its aggregate figures.
pub open spec fn product_row(p: Product) -> Seq<Seq<char>> {
    seq![
        p.product_id@,
        p.quick_status.sell_price@,
        decimal_digits(p.quick_status.sell_volume as nat),
        p.quick_status.buy_price@,
        decimal_digits(p.quick_status.buy_volume as nat),
        decimal_digits(p.quick_status.sell_orders as nat),
        decimal_digits(p.quick_status.buy_orders as nat),
    ]
}

/// The whole table: the timestamp row, the column names, then one row for
/// each product, in the order in which the catalog holds them.
pub open spec fn summary_table(response: BazaarResponse) -> Seq<Seq<Seq<char>>> {
    seq![metadata_row(response.last_updated), header_row()] + Seq::new(
        response.products@.len(),
        |i: int| product_row(response.products@[i].1),
    )
}

fn build_metadata_row(last_updated: u64) -> (row: Vec<String>)
    ensures
        record_view(row) == metadata_row(last_updated),
{
    let mut row: Vec<String> = Vec::new();
    row.push("last_updated".to_owned());
    row.push(decimal_string(last_updated));
    row.push("".to_owned());
    row.push("".to_owned());
    row.push("".to_owned());
    row.push("".to_owned());
    row.push("".to_owned());
    assert(record_view(row) =~= metadata_row(last_updated));
    row
}

fn build_header_row() -> (row: Vec<String>)
    ensures
        record_view(row) == header_row(),
{
    let mut row: Vec<String> = Vec::new();
    row.push("product_id".to_owned());
    row.push("sell_price".to_owned());
    row.push("sell_volume".to_owned());
    row.push("buy_price".to_owned());
    row.push("buy_volume".to_owned());
    row.push("sell_orders".to_owned());
    row.push("buy_orders".to_owned());
    assert(record_view(row) =~= header_row());
    row
}

fn build_product_row(p: &Product) -> (row: Vec<String>)
    ensures
        record_view(row) == product_row(*p),
{
    let mut row: Vec<String> = Vec::new();
    row.push(p.product_id.clone());
    row.push(p.quick_status.sell_price.clone());
    row.push(decimal_string(p.quick_status.sell_volume));
    row.push(p.quick_status.buy_price.clone());
    row.push(decimal_string(p.quick_status.buy_volume));
    row.push(decimal_string(p.quick_status.sell_orders as u64));
    row.push(decimal_string(p.quick_status.buy_orders as u64));
    assert(record_view(row) =~= product_row(*p));
    row
}

/// Flattens a catalog into its summary table.
pub fn summary_rows(response: &BazaarResponse) -> (rows: Vec<Vec<String>>)
    ensures
        table_view(rows) == summary_table(*response),
        rows@.len() == response.products@.len() + 2,
        forall|i: int| 0 <= i < rows@.len() ==> (#[trigger] rows@[i])@.len() == 7,
{
    let mut rows: Vec<Vec<String>> = Vec::new();
    rows.push(build_metadata_row(response.last_updated));
    rows.push(build_header_row());
    let mut i: usize = 0;
    while i < response.products.len()
        invariant
            i <= response.products@.len(),
            rows@.len() == i + 2,
            record_view(rows@[0]) == metadata_row(response.last_updated),
            record_view(rows@[1]) == header_row(),
            forall|k: int|
                0 <= k < i ==> record_view(#[trigger] rows@[k + 2]) == product_row(
                    response.products@[k].1,
                ),
        decreases response.products@.len() - i,
    {
        let row: Vec<String> = build_product_row(&response.products[i].1);
        rows.push(row);
        i = i + 1;
    }
    proof {
        let table = summary_table(*response);
        assert(table_view(rows).len() == table.len());
        assert forall|k: int| 0 <= k < rows@.len() implies table_view(rows)[k] == table[k] by {
            if k >= 2 {
                assert(record_view(rows@[(k - 2) + 2]) == product_row(
                    response.products@[k - 2].1,
                ));
            }
        }
        assert(table_view(rows) =~= table);
        assert forall|k: int| 0 <= k < rows@.len() implies (#[trigger] rows@[k])@.len() == 7 by {
            assert(table_view(rows)[k] == table[k]);
            assert(record_view(rows@[k]).len() == rows@[k]@.len());
        }
    }
    rows
}

/// Every row of the table has as many fields as the first.
pub open spec fn uniform_width(table: Seq<Seq<Seq<char>>>) -> bool {
    forall|i: int| 0 <= i < table.len() ==> (#[trigger] table[i]).len() == table[0].len()
}

/// Encodes a table as CSV, row by row.  A table whose rows differ in width
/// is refused; for any other the result is what the writer hands back.
pub fn encode_table(rows: &Vec<Vec<String>>) -> (r: Result<Vec<u8>, FeedError>)
    ensures
        r is Ok <==> uniform_width(table_view(*rows)) && csv_bytes(table_view(*rows)) is Some,
        r matches Ok(bytes) ==> csv_bytes(table_view(*rows)) == Some(bytes@),
        r is Err ==> r == Err::<Vec<u8>, FeedError>(FeedError::IoError),
{
    let ghost table = table_view(*rows);
    let mut w: CsvBuffer = new_writer();
    let mut i: usize = 0;
    while i < rows.len()
        invariant
            i <= rows@.len(),
            table == table_view(*rows),
            written_records(w) == table.take(i as int),
            forall|k: int| 0 <= k < i ==> (#[trigger] table[k]).len() == table[0].len(),
        decreases rows@.len() - i,
    {
        match write_record(w, &rows[i]) {
            Some(after) => {
                proof {
                    assert(table.take(i as int).push(record_view(rows@[i as int]))
                        =~= table.take(i + 1));
                    assert(table[i as int].len() == rows@[i as int]@.len());
                    if i > 0 {
                        assert(table.take(i as int)[0] == table[0]);
                    }
                }
                w = after;
            },
            None => {
                proof {
                    assert(table[i as int].len() == rows@[i as int]@.len());
                    assert(table.take(i as int)[0] == table[0]);
                }
                return Err(FeedError::IoError);
            },
        }
        i = i + 1;
    }
    assert(table.take(i as int) =~= table);
    match finish(w) {
        Some(bytes) => Ok(bytes),
        None => Err(FeedError::IoError),
    }
}

/// The CSV summary of a catalog: the encoding of its summary table.
pub fn export_csv(response: &BazaarResponse) -> (r: Result<Vec<u8>, FeedError>)
    ensures
        r is Ok <==> csv_bytes(summary_table(*response)) is Some,
        r matches Ok(bytes) ==> csv_bytes(summary_table(*response)) == Some(bytes@),
        r is Err ==> r == Err::<Vec<u8>, FeedError>(FeedError::IoError),
{
    let rows: Vec<Vec<String>> = summary_rows(response);
    proof {
        assert forall|i: int| 0 <= i < table_view(rows).len() implies (#[trigger] table_view(
            rows,
        )[i]).len() == table_view(rows)[0].len() by {
            assert(rows@[i]@.len() == 7);
            assert(rows@[0]@.len() == 7);
        }
    }
    encode_table(&rows)
}

} // verus!
