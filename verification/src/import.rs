//! Reading an exported archive back: the CSV text of each table into rows keyed by the
//! header, and each row into the values of an insert, with the errors that the import
//! reports.
use vstd::prelude::*;
use vstd::string::*;
use crate::numtext::{parse_i64_text, spec_failure_message, spec_parse_i64};
use crate::sqlfilter::{spec_param_view, SqlParam};

verus! {

/// The records of a CSV text, header record first, as the `csv` reader gives them
/// (flexible record lengths); or where it stopped, `(false, message)` in the header and
/// `(true, message)` in a later record.
pub uninterp spec fn csv_reading(bytes: Seq<u8>) -> Result<Seq<Seq<Seq<char>>>, (bool, Seq<char>)>;

/// The plain view of what the CSV reader hands back.
pub open spec fn spec_csv_view(r: Result<Vec<Vec<String>>, (bool, String)>) -> Result<Seq<Seq<Seq<char>>>, (bool, Seq<char>)> {
    match r {
        Ok(v) => Ok(v.deep_view()),
        Err(e) => Err((e.0, e.1@)),
    }
}

/// `csv::ReaderBuilder::new().flexible(true)` on the bytes: the header record, then every
/// further record, each as its fields; the outcome is a function of the bytes alone (named
/// `csv_reading`), and a successful one starts with the header record.
#[verifier::external_body]
fn read_csv_records(bytes: &[u8]) -> (r: Result<Vec<Vec<String>>, (bool, String)>)
    ensures
        spec_csv_view(r) == csv_reading(bytes@),
        r is Ok ==> r->Ok_0.len() >= 1,
{
    let mut reader = csv::ReaderBuilder::new().flexible(true).from_reader(bytes);
    let headers = reader.headers().map_err(|e| (false, e.to_string()))?.clone();
    let rest: Vec<csv::StringRecord> = reader.records().collect::<Result<_, _>>().map_err(|e| (true, e.to_string()))?;
    Ok(std::iter::once(&headers).chain(rest.iter()).map(|r| r.iter().map(String::from).collect()).collect())
}

/// A row: each header paired with the field under it, in column order; fields beyond the
/// header and headers beyond the fields are left out.
pub open spec fn spec_pairs(headers: Seq<Seq<char>>, rec: Seq<Seq<char>>) -> Seq<(Seq<char>, Seq<char>)> {
    let n = if headers.len() < rec.len() { headers.len() } else { rec.len() };
    Seq::new(n, |i: int| (headers[i], rec[i]))
}

/// The plain view of a row.
pub open spec fn spec_row_view(row: Seq<(String, String)>) -> Seq<(Seq<char>, Seq<char>)> {
    row.map_values(|p: (String, String)| (p.0@, p.1@))
}

/// The plain view of rows.
pub open spec fn spec_rows_view(rows: Seq<Vec<(String, String)>>) -> Seq<Seq<(Seq<char>, Seq<char>)>> {
    rows.map_values(|r: Vec<(String, String)>| spec_row_view(r@))
}

/// Pairs each record after the header with the header, field by field.
pub fn rows_from_records(records: &Vec<Vec<String>>) -> (r: Vec<Vec<(String, String)>>)
    requires
        records.len() >= 1,
    ensures
        r.len() == records.len() - 1,
        forall|i: int| 0 <= i < r.len() ==> spec_row_view(#[trigger] r@[i]@) == spec_pairs(
            records.deep_view()[0],
            records.deep_view()[i + 1],
        ),
{
    let headers = &records[0];
    let mut out: Vec<Vec<(String, String)>> = Vec::new();
    let mut k: usize = 1;
    while k < records.len()
        invariant
            1 <= k <= records.len(),
            headers@ == records@[0]@,
            out.len() == k - 1,
            forall|i: int| 0 <= i < out.len() ==> spec_row_view(#[trigger] out@[i]@) == spec_pairs(
                records.deep_view()[0],
                records.deep_view()[i + 1],
            ),
        decreases records.len() - k,
    {
        let rec = &records[k];
        let n: usize = if headers.len() < rec.len() { headers.len() } else { rec.len() };
        let mut row: Vec<(String, String)> = Vec::new();
        let mut j: usize = 0;
        while j < n
            invariant
                j <= n,
                n <= headers.len(),
                n <= rec.len(),
                row.len() == j,
                forall|x: int| 0 <= x < j ==> #[trigger] row@[x].0@ == headers@[x]@ && row@[x].1@ == rec@[x]@,
            decreases n - j,
        {
            row.push((headers[j].clone(), rec[j].clone()));
            j = j + 1;
        }
        assert(spec_row_view(row@) =~= spec_pairs(records.deep_view()[0], records.deep_view()[k as int]));
        out.push(row);
        k = k + 1;
    }
    out
}

/// The rows of a CSV text as the import reads them, or why it could not.
pub open spec fn spec_parse_csv_rows(bytes: Seq<u8>) -> Result<Seq<Seq<(Seq<char>, Seq<char>)>>, Seq<char>> {
    match csv_reading(bytes) {
        Err(e) => Err(if e.0 { "failed to read csv row: "@ + e.1 } else { "failed to read csv headers: "@ + e.1 }),
        Ok(recs) => Ok(Seq::new((recs.len() - 1) as nat, |i: int| spec_pairs(recs[0], recs[i + 1]))),
    }
}

/// Reads the rows of a table's CSV text, each row pairing the header with its fields.
pub fn parse_csv_rows(bytes: &[u8]) -> (r: Result<Vec<Vec<(String, String)>>, String>)
    ensures
        match spec_parse_csv_rows(bytes@) {
            Ok(rows) => r.is_ok() && spec_rows_view(r->Ok_0@) == rows,
            Err(m) => r.is_err() && r->Err_0@ == m,
        },
{
    match read_csv_records(bytes) {
        Err(e) => {
            let mut m = if e.0 {
                "failed to read csv row: ".to_owned()
            } else {
                "failed to read csv headers: ".to_owned()
            };
            m.append(e.1.as_str());
            Err(m)
        },
        Ok(recs) => {
            let rows = rows_from_records(&recs);
            assert(spec_rows_view(rows@) =~= Seq::new(
                (recs.deep_view().len() - 1) as nat,
                |i: int| spec_pairs(recs.deep_view()[0], recs.deep_view()[i + 1]),
            ));
            Ok(rows)
        },
    }
}

/// The field of a row under `key`; where the header repeats, the last one counts.
pub open spec fn spec_row_get(row: Seq<(Seq<char>, Seq<char>)>, key: Seq<char>) -> Option<Seq<char>>
    decreases row.len(),
{
    if row.len() == 0 {
        None
    } else if row.last().0 == key {
        Some(row.last().1)
    } else {
        spec_row_get(row.drop_last(), key)
    }
}

/// A row's field under a header is the one paired with the last occurrence of that
/// header; a header that does not occur has no field.
pub proof fn law_row_get_last_header(row: Seq<(Seq<char>, Seq<char>)>, key: Seq<char>)
    ensures
        spec_row_get(row, key) is None <==> forall|i: int| 0 <= i < row.len() ==> (#[trigger] row[i]).0 != key,
        spec_row_get(row, key) is Some ==> exists|j: int|
            0 <= j < row.len() && (#[trigger] row[j]).0 == key && row[j].1 == spec_row_get(row, key)->Some_0
                && forall|q: int| j < q < row.len() ==> (#[trigger] row[q]).0 != key,
    decreases row.len(),
{
    if row.len() > 0 {
        let pre = row.drop_last();
        law_row_get_last_header(pre, key);
        if row.last().0 == key {
            assert(row[row.len() - 1].0 == key);
        } else {
            assert forall|i: int| 0 <= i < pre.len() implies #[trigger] row[i] == pre[i] by {}
            if spec_row_get(pre, key) is Some {
                let j = choose|j: int|
                    0 <= j < pre.len() && (#[trigger] pre[j]).0 == key && pre[j].1 == spec_row_get(pre, key)->Some_0
                        && forall|q: int| j < q < pre.len() ==> (#[trigger] pre[q]).0 != key;
                assert(row[j] == pre[j]);
                assert forall|q: int| j < q < row.len() implies (#[trigger] row[q]).0 != key by {
                    if q < pre.len() {
                        assert(row[q] == pre[q]);
                    }
                }
            } else {
                assert forall|i: int| 0 <= i < row.len() implies (#[trigger] row[i]).0 != key by {
                    if i < pre.len() {
                        assert(row[i] == pre[i]);
                    }
                }
            }
        }
    }
}

fn row_get(row: &Vec<(String, String)>, key: &str) -> (r: Option<String>)
    ensures
        match spec_row_get(spec_row_view(row@), key@) {
            Some(v) => r.is_some() && r->Some_0@ == v,
            None => r.is_none(),
        },
{
    let ghost rv = spec_row_view(row@);
    let mut i: usize = row.len();
    assert(rv.subrange(0, row.len() as int) =~= rv);
    while i > 0
        invariant
            i <= row.len(),
            rv == spec_row_view(row@),
            spec_row_get(rv, key@) == spec_row_get(rv.subrange(0, i as int), key@),
        decreases i,
    {
        let ghost pre = rv.subrange(0, i as int);
        assert(pre.drop_last() =~= rv.subrange(0, i - 1));
        if crate::text::same_text(row[i - 1].0.as_str(), key) {
            return Some(row[i - 1].1.clone());
        }
        i = i - 1;
    }
    None
}

/// A required field: its text, or `missing required field <key> in <table>`.
pub fn get_required(row: &Vec<(String, String)>, key: &str, table: &str) -> (r: Result<String, String>)
    ensures
        match spec_row_get(spec_row_view(row@), key@) {
            Some(v) => r.is_ok() && r->Ok_0@ == v,
            None => r.is_err() && r->Err_0@ == "missing required field "@ + key@ + " in "@ + table@,
        },
{
    match row_get(row, key) {
        Some(v) => Ok(v),
        None => {
            let mut m = "missing required field ".to_owned();
            m.append(key);
            m.append(" in ");
            m.append(table);
            Err(m)
        },
    }
}

/// A field read as an `i64`, or `invalid i64 for <key> in <table>: <reason>`.
pub fn parse_i64(value: &str, key: &str, table: &str) -> (r: Result<i64, String>)
    ensures
        match spec_parse_i64(value@) {
            Ok(v) => r == Ok::<i64, String>(v as i64),
            Err(f) => r.is_err() && r->Err_0@ == "invalid i64 for "@ + key@ + " in "@ + table@ + ": "@
                + spec_failure_message(f),
        },
{
    match parse_i64_text(value) {
        Ok(v) => Ok(v),
        Err(f) => {
            let mut m = "invalid i64 for ".to_owned();
            m.append(key);
            m.append(" in ");
            m.append(table);
            m.append(": ");
            m.append(f.message());
            Err(m)
        },
    }
}

/// How a column of an imported table is read.
#[derive(Clone, Copy, Debug, PartialEq, Eq)]
pub enum ColumnKind {
    /// A required field, kept as text.
    Text,
    /// A required field, read as an `i64`.
    Integer,
    /// An optional field: an empty or missing one is stored as null.
    OptionalText,
}

/// A column of an imported table.
#[derive(Clone, Copy, Debug, PartialEq, Eq)]
pub struct ImportColumn {
    pub name: &'static str,
    pub kind: ColumnKind,
}

/// The value of one column of a row, as plain values (see `spec_param_view`), or the error.
pub open spec fn spec_decode_column(row: Seq<(Seq<char>, Seq<char>)>, table: Seq<char>, col: ImportColumn) -> Result<(int, Seq<char>, int), Seq<char>> {
    match col.kind {
        ColumnKind::OptionalText => match spec_row_get(row, col.name@) {
            Some(v) => if v.len() == 0 { Ok((0, Seq::empty(), 0)) } else { Ok((1, v, 0)) },
            None => Ok((0, Seq::empty(), 0)),
        },
        ColumnKind::Text => match spec_row_get(row, col.name@) {
            Some(v) => Ok((1, v, 0)),
            None => Err("missing required field "@ + col.name@ + " in "@ + table),
        },
        ColumnKind::Integer => match spec_row_get(row, col.name@) {
            Some(v) => match spec_parse_i64(v) {
                Ok(n) => Ok((2, Seq::empty(), n)),
                Err(f) => Err("invalid i64 for "@ + col.name@ + " in "@ + table + ": "@ + spec_failure_message(f)),
            },
            None => Err("missing required field "@ + col.name@ + " in "@ + table),
        },
    }
}

/// The values of the first `n` columns of a row, read left to right; the first column that
/// fails gives the error.
pub open spec fn spec_decode_row(row: Seq<(Seq<char>, Seq<char>)>, table: Seq<char>, cols: Seq<ImportColumn>, n: int) -> Result<Seq<(int, Seq<char>, int)>, Seq<char>>
    decreases n,
{
    if n <= 0 {
        Ok(Seq::empty())
    } else {
        match spec_decode_row(row, table, cols, n - 1) {
            Err(e) => Err(e),
            Ok(vals) => match spec_decode_column(row, table, cols[n - 1]) {
                Err(e) => Err(e),
                Ok(v) => Ok(vals.push(v)),
            },
        }
    }
}

proof fn lemma_decode_sticky(row: Seq<(Seq<char>, Seq<char>)>, table: Seq<char>, cols: Seq<ImportColumn>, k: int, n: int)
    requires
        k <= n,
        spec_decode_row(row, table, cols, k).is_err(),
    ensures
        spec_decode_row(row, table, cols, n) == spec_decode_row(row, table, cols, k),
    decreases n - k,
{
    if k < n {
        lemma_decode_sticky(row, table, cols, k, n - 1);
    }
}

/// Whether a row can be read for a column: a text or integer column needs its field, and an
/// integer column a field that reads as an `i64`; an optional-text column always can.
pub open spec fn spec_column_readable(row: Seq<(Seq<char>, Seq<char>)>, col: ImportColumn) -> bool {
    match col.kind {
        ColumnKind::OptionalText => true,
        ColumnKind::Text => spec_row_get(row, col.name@) is Some,
        ColumnKind::Integer => spec_row_get(row, col.name@) is Some && spec_parse_i64(
            spec_row_get(row, col.name@)->Some_0,
        ) is Ok,
    }
}

/// What a row decodes to (values seen through `spec_param_view`: `(0, "", 0)` is null,
/// `(1, t, 0)` the text `t`, `(2, "", v)` the integer `v`): it decodes exactly when every
/// column can be read, and then the values come one per column, in column order. An
/// optional-text column gives the text of its field when the field is there and not empty,
/// and null only when it is empty or missing; a text column gives its field; an integer
/// column the number its field reads as.
pub proof fn law_decoded_columns(row: Seq<(Seq<char>, Seq<char>)>, table: Seq<char>, cols: Seq<ImportColumn>, n: int)
    requires
        0 <= n <= cols.len(),
    ensures
        spec_decode_row(row, table, cols, n) is Ok <==> forall|i: int| 0 <= i < n ==> spec_column_readable(row, #[trigger] cols[i]),
        spec_decode_row(row, table, cols, n) is Ok ==> ({
            let vals = spec_decode_row(row, table, cols, n)->Ok_0;
            &&& vals.len() == n
            &&& forall|i: int| 0 <= i < n ==> {
                let f = spec_row_get(row, (#[trigger] cols[i]).name@);
                &&& cols[i].kind == ColumnKind::OptionalText && f is Some && f->Some_0.len() > 0 ==> vals[i] == (
                    1int,
                    f->Some_0,
                    0int,
                )
                &&& cols[i].kind == ColumnKind::OptionalText && (f is None || f->Some_0.len() == 0) ==> vals[i] == (
                    0int,
                    Seq::<char>::empty(),
                    0int,
                )
                &&& cols[i].kind == ColumnKind::Text ==> vals[i] == (1int, f->Some_0, 0int)
                &&& cols[i].kind == ColumnKind::Integer ==> vals[i] == (
                    2int,
                    Seq::<char>::empty(),
                    spec_parse_i64(f->Some_0)->Ok_0,
                )
            }
        }),
    decreases n,
{
    if n > 0 {
        law_decoded_columns(row, table, cols, n - 1);
    }
}

/// The values to insert for one row of a table's CSV text, in column order.
pub fn decode_row(row: &Vec<(String, String)>, table: &str, columns: &Vec<ImportColumn>) -> (r: Result<Vec<SqlParam>, String>)
    ensures
        match spec_decode_row(spec_row_view(row@), table@, columns@, columns.len() as int) {
            Ok(vals) => r.is_ok() && r->Ok_0@.map_values(|p: SqlParam| spec_param_view(p)) == vals,
            Err(m) => r.is_err() && r->Err_0@ == m,
        },
{
    let ghost rv = spec_row_view(row@);
    let mut out: Vec<SqlParam> = Vec::new();
    let mut i: usize = 0;
    assert(out@.map_values(|p: SqlParam| spec_param_view(p)) =~= Seq::<(int, Seq<char>, int)>::empty());
    while i < columns.len()
        invariant
            i <= columns.len(),
            rv == spec_row_view(row@),
            spec_decode_row(rv, table@, columns@, i as int) == Ok::<Seq<(int, Seq<char>, int)>, Seq<char>>(
                out@.map_values(|p: SqlParam| spec_param_view(p)),
            ),
        decreases columns.len() - i,
    {
        let col = columns[i];
        let ghost before = out@.map_values(|p: SqlParam| spec_param_view(p));
        let v: SqlParam = match col.kind {
            ColumnKind::OptionalText => match row_get(row, col.name) {
                Some(s) => if s.unicode_len() == 0 {
                    SqlParam::Null
                } else {
                    SqlParam::Text(s)
                },
                None => SqlParam::Null,
            },
            ColumnKind::Text => match get_required(row, col.name, table) {
                Ok(s) => SqlParam::Text(s),
                Err(e) => {
                    proof {
                        lemma_decode_sticky(rv, table@, columns@, i as int + 1, columns.len() as int);
                    }
                    return Err(e);
                },
            },
            ColumnKind::Integer => {
                let s = match get_required(row, col.name, table) {
                    Ok(s) => s,
                    Err(e) => {
                        proof {
                            lemma_decode_sticky(rv, table@, columns@, i as int + 1, columns.len() as int);
                        }
                        return Err(e);
                    },
                };
                match parse_i64(s.as_str(), col.name, table) {
                    Ok(n) => SqlParam::Integer(n),
                    Err(e) => {
                        proof {
                            lemma_decode_sticky(rv, table@, columns@, i as int + 1, columns.len() as int);
                        }
                        return Err(e);
                    },
                }
            },
        };
        out.push(v);
        assert(out@.map_values(|p: SqlParam| spec_param_view(p)) =~= before.push(spec_param_view(v)));
        i = i + 1;
    }
    Ok(out)
}

/// A table of the archive: its file, the table it fills, and its columns in insert order.
#[derive(Clone, Debug, PartialEq, Eq)]
pub struct ImportTable {
    pub file_name: &'static str,
    pub table: &'static str,
    pub columns: Vec<ImportColumn>,
}

/// The plain view of a table of the archive.
pub open spec fn spec_table_view(t: ImportTable) -> (Seq<char>, Seq<char>, Seq<(Seq<char>, ColumnKind)>) {
    (t.file_name@, t.table@, t.columns@.map_values(|c: ImportColumn| (c.name@, c.kind)))
}

/// The tables of an archive in the order they are imported, with their columns.
pub open spec fn spec_import_tables() -> Seq<(Seq<char>, Seq<char>, Seq<(Seq<char>, ColumnKind)>)> {
    seq![
        ("echoes.csv"@, "echoes"@, seq![("echo_id"@, ColumnKind::Text), ("nickname"@, ColumnKind::OptionalText), ("main_stat_key"@, ColumnKind::Text), ("cost_class"@, ColumnKind::Integer), ("status"@, ColumnKind::Text), ("opened_slots_count"@, ColumnKind::Integer), ("created_at"@, ColumnKind::Text), ("updated_at"@, ColumnKind::Text)]),
        ("echo_expectations.csv"@, "echo_expectations"@, seq![("echo_id"@, ColumnKind::Text), ("stat_key"@, ColumnKind::Text), ("rank"@, ColumnKind::Integer)]),
        ("echo_current_substats.csv"@, "echo_current_substats"@, seq![("echo_id"@, ColumnKind::Text), ("slot_no"@, ColumnKind::Integer), ("stat_key"@, ColumnKind::Text), ("tier_index"@, ColumnKind::Integer), ("value_scaled"@, ColumnKind::Integer), ("source"@, ColumnKind::Text), ("event_id"@, ColumnKind::OptionalText)]),
        ("events.csv"@, "ordered_events"@, seq![("event_id"@, ColumnKind::Text), ("echo_id"@, ColumnKind::Text), ("slot_no"@, ColumnKind::Integer), ("stat_key"@, ColumnKind::Text), ("tier_index"@, ColumnKind::Integer), ("value_scaled"@, ColumnKind::Integer), ("event_time"@, ColumnKind::Text), ("created_seq"@, ColumnKind::Integer), ("analysis_seq"@, ColumnKind::Integer), ("game_day"@, ColumnKind::Text), ("created_at"@, ColumnKind::Text)]),
        ("event_edit_logs.csv"@, "event_edit_logs"@, seq![("log_id"@, ColumnKind::Text), ("event_id"@, ColumnKind::Text), ("before_json"@, ColumnKind::Text), ("after_json"@, ColumnKind::Text), ("reorder_mode"@, ColumnKind::Text), ("edited_at"@, ColumnKind::Text)]),
        ("probability_snapshots.csv"@, "probability_snapshots"@, seq![("snapshot_id"@, ColumnKind::Text), ("created_at"@, ColumnKind::Text), ("scope_json"@, ColumnKind::Text), ("distribution_json"@, ColumnKind::Text), ("echo_probs_json"@, ColumnKind::Text)]),
        ("expectation_presets.csv"@, "expectation_presets"@, seq![("preset_id"@, ColumnKind::Text), ("name"@, ColumnKind::Text), ("created_at"@, ColumnKind::Text), ("updated_at"@, ColumnKind::Text)]),
        ("expectation_preset_items.csv"@, "expectation_preset_items"@, seq![("preset_id"@, ColumnKind::Text), ("stat_key"@, ColumnKind::Text), ("rank"@, ColumnKind::Integer)]),
        ("app_settings.csv"@, "app_settings"@, seq![("key"@, ColumnKind::Text), ("value"@, ColumnKind::Text)]),
    ]
}

/// The tables of an archive in the order they are imported, with their columns.
pub fn import_tables() -> (r: Vec<ImportTable>)
    ensures
        r@.map_values(|t: ImportTable| spec_table_view(t)) == spec_import_tables(),
{
    let r = vec![
        ImportTable {
            file_name: "echoes.csv",
            table: "echoes",
            columns: vec![ImportColumn { name: "echo_id", kind: ColumnKind::Text }, ImportColumn { name: "nickname", kind: ColumnKind::OptionalText }, ImportColumn { name: "main_stat_key", kind: ColumnKind::Text }, ImportColumn { name: "cost_class", kind: ColumnKind::Integer }, ImportColumn { name: "status", kind: ColumnKind::Text }, ImportColumn { name: "opened_slots_count", kind: ColumnKind::Integer }, ImportColumn { name: "created_at", kind: ColumnKind::Text }, ImportColumn { name: "updated_at", kind: ColumnKind::Text }],
        },
        ImportTable {
            file_name: "echo_expectations.csv",
            table: "echo_expectations",
            columns: vec![ImportColumn { name: "echo_id", kind: ColumnKind::Text }, ImportColumn { name: "stat_key", kind: ColumnKind::Text }, ImportColumn { name: "rank", kind: ColumnKind::Integer }],
        },
        ImportTable {
            file_name: "echo_current_substats.csv",
            table: "echo_current_substats",
            columns: vec![ImportColumn { name: "echo_id", kind: ColumnKind::Text }, ImportColumn { name: "slot_no", kind: ColumnKind::Integer }, ImportColumn { name: "stat_key", kind: ColumnKind::Text }, ImportColumn { name: "tier_index", kind: ColumnKind::Integer }, ImportColumn { name: "value_scaled", kind: ColumnKind::Integer }, ImportColumn { name: "source", kind: ColumnKind::Text }, ImportColumn { name: "event_id", kind: ColumnKind::OptionalText }],
        },
        ImportTable {
            file_name: "events.csv",
            table: "ordered_events",
            columns: vec![ImportColumn { name: "event_id", kind: ColumnKind::Text }, ImportColumn { name: "echo_id", kind: ColumnKind::Text }, ImportColumn { name: "slot_no", kind: ColumnKind::Integer }, ImportColumn { name: "stat_key", kind: ColumnKind::Text }, ImportColumn { name: "tier_index", kind: ColumnKind::Integer }, ImportColumn { name: "value_scaled", kind: ColumnKind::Integer }, ImportColumn { name: "event_time", kind: ColumnKind::Text }, ImportColumn { name: "created_seq", kind: ColumnKind::Integer }, ImportColumn { name: "analysis_seq", kind: ColumnKind::Integer }, ImportColumn { name: "game_day", kind: ColumnKind::Text }, ImportColumn { name: "created_at", kind: ColumnKind::Text }],
        },
        ImportTable {
            file_name: "event_edit_logs.csv",
            table: "event_edit_logs",
            columns: vec![ImportColumn { name: "log_id", kind: ColumnKind::Text }, ImportColumn { name: "event_id", kind: ColumnKind::Text }, ImportColumn { name: "before_json", kind: ColumnKind::Text }, ImportColumn { name: "after_json", kind: ColumnKind::Text }, ImportColumn { name: "reorder_mode", kind: ColumnKind::Text }, ImportColumn { name: "edited_at", kind: ColumnKind::Text }],
        },
        ImportTable {
            file_name: "probability_snapshots.csv",
            table: "probability_snapshots",
            columns: vec![ImportColumn { name: "snapshot_id", kind: ColumnKind::Text }, ImportColumn { name: "created_at", kind: ColumnKind::Text }, ImportColumn { name: "scope_json", kind: ColumnKind::Text }, ImportColumn { name: "distribution_json", kind: ColumnKind::Text }, ImportColumn { name: "echo_probs_json", kind: ColumnKind::Text }],
        },
        ImportTable {
            file_name: "expectation_presets.csv",
            table: "expectation_presets",
            columns: vec![ImportColumn { name: "preset_id", kind: ColumnKind::Text }, ImportColumn { name: "name", kind: ColumnKind::Text }, ImportColumn { name: "created_at", kind: ColumnKind::Text }, ImportColumn { name: "updated_at", kind: ColumnKind::Text }],
        },
        ImportTable {
            file_name: "expectation_preset_items.csv",
            table: "expectation_preset_items",
            columns: vec![ImportColumn { name: "preset_id", kind: ColumnKind::Text }, ImportColumn { name: "stat_key", kind: ColumnKind::Text }, ImportColumn { name: "rank", kind: ColumnKind::Integer }],
        },
        ImportTable {
            file_name: "app_settings.csv",
            table: "app_settings",
            columns: vec![ImportColumn { name: "key", kind: ColumnKind::Text }, ImportColumn { name: "value", kind: ColumnKind::Text }],
        },
    ];
    assert(r@.map_values(|t: ImportTable| spec_table_view(t)) =~= spec_import_tables()) by {
        assert forall|i: int| 0 <= i < 9 implies #[trigger] spec_table_view(r@[i]) == spec_import_tables()[i] by {
            assert(spec_table_view(r@[i]).2 =~= spec_import_tables()[i].2);
        }
    }
    r
}

/// The statement that inserts one row of a table: `INSERT INTO t(c1, ..) VALUES (?1, ..)`.
pub open spec fn spec_insert_sql(table: Seq<char>, cols: Seq<ImportColumn>) -> Seq<char> {
    "INSERT INTO "@ + table + "("@ + spec_names(cols, cols.len() as int) + ") VALUES ("@ + spec_marks(cols.len() as int) + ")"@
}

/// The column names, comma separated.
pub open spec fn spec_names(cols: Seq<ImportColumn>, n: int) -> Seq<char>
    decreases n,
{
    if n <= 0 {
        Seq::empty()
    } else if n == 1 {
        cols[0].name@
    } else {
        spec_names(cols, n - 1) + ", "@ + cols[n - 1].name@
    }
}

/// The placeholders `?1, ?2, ..` for `n` values.
pub open spec fn spec_marks(n: int) -> Seq<char>
    decreases n,
{
    if n <= 0 {
        Seq::empty()
    } else if n == 1 {
        "?1"@
    } else {
        spec_marks(n - 1) + ", ?"@ + crate::numtext::spec_decimal(n)
    }
}

/// The insert statement of a table of the archive.
pub fn insert_sql(table: &str, columns: &Vec<ImportColumn>) -> (r: String)
    requires
        columns.len() < i64::MAX,
    ensures
        r@ == spec_insert_sql(table@, columns@),
{
    let mut names = String::new();
    let mut marks = String::new();
    let mut i: usize = 0;
    while i < columns.len()
        invariant
            i <= columns.len() < i64::MAX,
            names@ == spec_names(columns@, i as int),
            marks@ == spec_marks(i as int),
        decreases columns.len() - i,
    {
        if i == 0 {
            names.append(columns[0].name);
            marks.append("?1");
        } else {
            names.append(", ");
            names.append(columns[i].name);
            marks.append(", ?");
            let d = crate::numtext::decimal_string((i + 1) as i64);
            marks.append(d.as_str());
        }
        i = i + 1;
    }
    let mut s = "INSERT INTO ".to_owned();
    s.append(table);
    s.append("(");
    s.append(names.as_str());
    s.append(") VALUES (");
    s.append(marks.as_str());
    s.append(")");
    s
}

} // verus!
