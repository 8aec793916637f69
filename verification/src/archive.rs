//! Writing tables into the exported archive: the text of each stored cell, the CSV bytes
//! of a table, and which tables go into which files.
use vstd::prelude::*;
use vstd::string::*;
use crate::numtext::{decimal_string, spec_decimal};

verus! {

/// A stored cell that is not a floating-point number.
#[derive(Clone, Debug, PartialEq, Eq)]
pub enum SqlCell {
    Null,
    Integer(i64),
    Text(Vec<u8>),
    Blob(Vec<u8>),
}

/// The lowercase hexadecimal digit of a value below 16.
pub open spec fn spec_hex_digit(d: int) -> char {
    if d < 10 {
        ('0' as int + d) as char
    } else {
        ('a' as int + d - 10) as char
    }
}

/// Two lowercase hexadecimal digits per byte, high half first.
pub open spec fn spec_hex(bytes: Seq<u8>) -> Seq<char>
    decreases bytes.len(),
{
    if bytes.len() == 0 {
        Seq::empty()
    } else {
        spec_hex(bytes.drop_last()).push(spec_hex_digit(bytes.last() as int / 16)).push(
            spec_hex_digit(bytes.last() as int % 16),
        )
    }
}

/// What `String::from_utf8_lossy` makes of bytes (invalid sequences become U+FFFD).
pub uninterp spec fn utf8_lossy(bytes: Seq<u8>) -> Seq<char>;

/// `hex::encode`: two lowercase hexadecimal digits for each byte, in order.
#[verifier::external_body]
fn hex_encode(bytes: &[u8]) -> (r: String)
    ensures
        r@ == spec_hex(bytes@),
{
    hex::encode(bytes)
}

/// `String::from_utf8_lossy`: a function of the bytes alone (named `utf8_lossy`).
#[verifier::external_body]
fn text_from_bytes(bytes: &[u8]) -> (r: String)
    ensures
        r@ == utf8_lossy(bytes@),
{
    String::from_utf8_lossy(bytes).to_string()
}

/// The text a cell is exported as: nothing for null, the decimal number, the text, or
/// `0x` and the hexadecimal bytes of a blob.
pub open spec fn spec_cell_text(c: SqlCell) -> Seq<char> {
    match c {
        SqlCell::Null => Seq::empty(),
        SqlCell::Integer(v) => spec_decimal(v as int),
        SqlCell::Text(b) => utf8_lossy(b@),
        SqlCell::Blob(b) => "0x"@ + spec_hex(b@),
    }
}

/// The text a cell is exported as.
pub fn cell_text(c: &SqlCell) -> (r: String)
    ensures
        r@ == spec_cell_text(*c),
{
    match c {
        SqlCell::Null => String::new(),
        SqlCell::Integer(v) => decimal_string(*v),
        SqlCell::Text(b) => text_from_bytes(b.as_slice()),
        SqlCell::Blob(b) => {
            let mut s = "0x".to_owned();
            let h = hex_encode(b.as_slice());
            s.append(h.as_str());
            s
        },
    }
}

/// An exported integer cell reads back as the same number.
pub proof fn law_integer_cell_roundtrip(v: i64)
    ensures
        crate::numtext::spec_parse_i64(spec_cell_text(SqlCell::Integer(v))) == Ok::<int, crate::numtext::IntParseFailure>(
            v as int,
        ),
{
    crate::numtext::law_decimal_parse_roundtrip(v);
}

/// A CSV writer of the `csv` crate over a byte vector, seen from here only through the
/// records it has taken (Verus refuses a declaration of the writer's type, whose parameter
/// is bound by `std::io::Write`).
#[verifier::external_body]
pub struct CsvSink {
    writer: csv::Writer<Vec<u8>>,
}

/// The records a CSV writer over a byte vector has taken, in the order it took them.
pub uninterp spec fn csv_records_written(w: CsvSink) -> Seq<Seq<Seq<char>>>;

/// Why the CSV writer refuses a record after the given ones (the text of its error), if
/// it does.
pub uninterp spec fn csv_record_refusal(written: Seq<Seq<Seq<char>>>, record: Seq<Seq<char>>) -> Option<Seq<char>>;

/// What finishing a CSV writer that took the given records hands back: its bytes, or the
/// text of the error.
pub uninterp spec fn csv_finish(written: Seq<Seq<Seq<char>>>) -> Result<Seq<u8>, Seq<char>>;

/// `csv::Writer::from_writer` over an empty byte vector: a writer that has taken nothing.
#[verifier::external_body]
fn new_csv_writer() -> (w: CsvSink)
    ensures
        csv_records_written(w) == Seq::<Seq<Seq<char>>>::empty(),
{
    CsvSink { writer: csv::Writer::from_writer(Vec::new()) }
}

/// `csv::Writer::write_record`: whether it takes the record depends on the records before
/// it and on the record alone (named `csv_record_refusal`); a record it takes is added
/// after the others. What the writer holds after a refusal is left unsaid.
#[verifier::external_body]
fn write_csv_record(w: &mut CsvSink, record: &Vec<String>) -> (r: Result<(), String>)
    ensures
        match csv_record_refusal(csv_records_written(*old(w)), record.deep_view()) {
            None => r is Ok && csv_records_written(*final(w)) == csv_records_written(*old(w)).push(
                record.deep_view(),
            ),
            Some(m) => r is Err && r->Err_0@ == m,
        },
{
    w.writer.write_record(record).map_err(|e| e.to_string())
}

/// `csv::Writer::into_inner`: the bytes of the records taken, or the error text; both
/// depend on those records alone (named `csv_finish`).
#[verifier::external_body]
fn finish_csv(w: CsvSink) -> (r: Result<Vec<u8>, String>)
    ensures
        match csv_finish(csv_records_written(w)) {
            Ok(b) => r is Ok && r->Ok_0@ == b,
            Err(m) => r is Err && r->Err_0@ == m,
        },
{
    w.writer.into_inner().map_err(|e| e.to_string())
}

/// Writing the records from the `i`-th on, the ones before it taken already: the bytes,
/// or the position of the record that was refused (the number of records when finishing
/// failed) and why.
pub open spec fn spec_csv_from(records: Seq<Seq<Seq<char>>>, i: int) -> Result<Seq<u8>, (int, Seq<char>)>
    decreases records.len() - i,
{
    if i >= records.len() {
        match csv_finish(records) {
            Ok(b) => Ok(b),
            Err(m) => Err((records.len() as int, m)),
        }
    } else {
        match csv_record_refusal(records.take(i), records[i]) {
            Some(m) => Err((i, m)),
            None => spec_csv_from(records, i + 1),
        }
    }
}

/// Writes the records, in order, with one CSV writer, stopping at the first refusal.
pub fn write_csv_records(records: &Vec<Vec<String>>) -> (r: Result<Vec<u8>, (usize, String)>)
    ensures
        match spec_csv_from(records.deep_view(), 0) {
            Ok(b) => r is Ok && r->Ok_0@ == b,
            Err(e) => r is Err && r->Err_0.0 == e.0 && r->Err_0.1@ == e.1,
        },
{
    let ghost rv = records.deep_view();
    let mut w = new_csv_writer();
    let mut i: usize = 0;
    while i < records.len()
        invariant
            i <= records.len(),
            rv == records.deep_view(),
            csv_records_written(w) == rv.take(i as int),
            spec_csv_from(rv, 0) == spec_csv_from(rv, i as int),
        decreases records.len() - i,
    {
        match write_csv_record(&mut w, &records[i]) {
            Ok(()) => {},
            Err(m) => {
                return Err((i, m));
            },
        }
        assert(rv.take(i as int).push(rv[i as int]) =~= rv.take(i as int + 1));
        i = i + 1;
    }
    assert(rv.take(i as int) =~= rv);
    match finish_csv(w) {
        Ok(b) => Ok(b),
        Err(m) => Err((records.len(), m)),
    }
}

/// The CSV bytes of a table: its column names, then each row; the errors name the table.
pub fn table_csv(table: &str, records: &Vec<Vec<String>>) -> (r: Result<Vec<u8>, String>)
    requires
        records.len() >= 1,
    ensures
        match spec_csv_from(records.deep_view(), 0) {
            Ok(b) => r is Ok && r->Ok_0@ == b,
            Err(e) => r is Err && r->Err_0@ == (if e.0 == 0 {
                "failed to write csv header for "@
            } else if e.0 < records.len() {
                "failed to write row for "@
            } else {
                "failed to finalize csv for "@
            }) + table@ + ": "@ + e.1,
        },
{
    match write_csv_records(records) {
        Ok(b) => Ok(b),
        Err(e) => {
            let mut m = if e.0 == 0 {
                "failed to write csv header for ".to_owned()
            } else if e.0 < records.len() {
                "failed to write row for ".to_owned()
            } else {
                "failed to finalize csv for ".to_owned()
            };
            m.append(table);
            m.append(": ");
            m.append(e.1.as_str());
            Err(m)
        },
    }
}

/// The archive files and the tables they hold, in the order they are written (the
/// distribution and the readme follow; snapshots come last when asked for).
pub open spec fn spec_export_files(include_snapshots: bool) -> Seq<(Seq<char>, Seq<char>)> {
    let base = seq![
        ("events.csv"@, "ordered_events"@),
        ("event_edit_logs.csv"@, "event_edit_logs"@),
        ("echoes.csv"@, "echoes"@),
        ("echo_current_substats.csv"@, "echo_current_substats"@),
        ("echo_expectations.csv"@, "echo_expectations"@),
        ("expectation_presets.csv"@, "expectation_presets"@),
        ("expectation_preset_items.csv"@, "expectation_preset_items"@),
        ("app_settings.csv"@, "app_settings"@),
    ];
    if include_snapshots {
        base.push(("probability_snapshots.csv"@, "probability_snapshots"@))
    } else {
        base
    }
}

/// The table files of an export.
pub fn export_files(include_snapshots: bool) -> (r: Vec<(&'static str, &'static str)>)
    ensures
        r@.map_values(|p: (&'static str, &'static str)| (p.0@, p.1@)) == spec_export_files(include_snapshots),
{
    let mut r = vec![
        ("events.csv", "ordered_events"),
        ("event_edit_logs.csv", "event_edit_logs"),
        ("echoes.csv", "echoes"),
        ("echo_current_substats.csv", "echo_current_substats"),
        ("echo_expectations.csv", "echo_expectations"),
        ("expectation_presets.csv", "expectation_presets"),
        ("expectation_preset_items.csv", "expectation_preset_items"),
        ("app_settings.csv", "app_settings"),
    ];
    if include_snapshots {
        r.push(("probability_snapshots.csv", "probability_snapshots"));
    }
    assert(r@.map_values(|p: (&'static str, &'static str)| (p.0@, p.1@)) =~= spec_export_files(include_snapshots));
    r
}

/// What an export writes, an import reads back: every table file of an export is a file
/// that the import reads, into the same table.
pub proof fn law_exported_files_are_imported(include_snapshots: bool)
    ensures
        forall|i: int| 0 <= i < spec_export_files(include_snapshots).len() ==> exists|j: int|
            0 <= j < crate::import::spec_import_tables().len() && (#[trigger] crate::import::spec_import_tables()[j]).0
                == spec_export_files(include_snapshots)[i].0 && crate::import::spec_import_tables()[j].1
                == (#[trigger] spec_export_files(include_snapshots)[i]).1,
{
    let ex = spec_export_files(include_snapshots);
    let im = crate::import::spec_import_tables();
    assert forall|i: int| 0 <= i < ex.len() implies exists|j: int|
        0 <= j < im.len() && (#[trigger] im[j]).0 == ex[i].0 && im[j].1 == (#[trigger] ex[i]).1 by {
        let j: int = if i == 0 { 3 } else if i == 1 { 4 } else if i == 2 { 0 } else if i == 3 { 2 } else if i == 4 {
            1
        } else if i == 5 { 6 } else if i == 6 { 7 } else if i == 7 { 8 } else { 5 };
        assert(im[j].0 == ex[i].0 && im[j].1 == ex[i].1);
    }
}

} // verus!
