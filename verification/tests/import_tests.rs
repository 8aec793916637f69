use wuwa_echo_sight::archive::{cell_text, export_files, table_csv, write_csv_records, SqlCell};
use wuwa_echo_sight::domain::{DistributionFilter, EchoFilter, HypothesisFilter};
use wuwa_echo_sight::import::{
    decode_row, get_required, import_tables, insert_sql, parse_csv_rows, parse_i64, rows_from_records, ColumnKind,
    ImportColumn,
};
use wuwa_echo_sight::numtext::{decimal_string, parse_i64_text, IntParseFailure};
use wuwa_echo_sight::sqlfilter::{
    build_distribution_where, echo_filter_where, history_limit, hypothesis_filter_where, where_clause, SqlParam,
};
use wuwa_echo_sight::text::{chars_of, same_text, split_on, trim_text};

fn row(pairs: &[(&str, &str)]) -> Vec<(String, String)> {
    pairs.iter().map(|(a, b)| (a.to_string(), b.to_string())).collect()
}

#[test]
fn decimal_text_matches_to_string() {
    for v in [0i64, 7, -7, 10, 1234567890, i64::MAX, i64::MIN, -100] {
        assert_eq!(decimal_string(v), v.to_string());
    }
}

#[test]
fn parsing_follows_std() {
    for s in ["0", "+12", "-12", "9223372036854775807", "-9223372036854775808", "007", "-0"] {
        assert_eq!(parse_i64_text(s), Ok(s.parse::<i64>().unwrap()));
    }
    assert_eq!(parse_i64_text(""), Err(IntParseFailure::Empty));
    assert_eq!(parse_i64_text("-"), Err(IntParseFailure::InvalidDigit));
    assert_eq!(parse_i64_text("+"), Err(IntParseFailure::InvalidDigit));
    assert_eq!(parse_i64_text("12a"), Err(IntParseFailure::InvalidDigit));
    assert_eq!(parse_i64_text(" 1"), Err(IntParseFailure::InvalidDigit));
    assert_eq!(parse_i64_text("9223372036854775808"), Err(IntParseFailure::PosOverflow));
    assert_eq!(parse_i64_text("-9223372036854775809"), Err(IntParseFailure::NegOverflow));
    assert_eq!(parse_i64_text("99999999999999999999x"), Err(IntParseFailure::PosOverflow));
    for s in ["", "-", "1x", "99999999999999999999", "-99999999999999999999"] {
        assert_eq!(
            parse_i64_text(s).unwrap_err().message(),
            s.parse::<i64>().unwrap_err().to_string()
        );
    }
}

#[test]
fn written_integers_read_back() {
    for v in [0i64, 1, -1, 42, i64::MAX, i64::MIN, 1_000_000_007] {
        assert_eq!(parse_i64_text(&decimal_string(v)), Ok(v));
        assert_eq!(parse_i64(&cell_text(&SqlCell::Integer(v)), "k", "t.csv"), Ok(v));
    }
}

#[test]
fn required_fields_and_integers() {
    let r = row(&[("a", "1"), ("b", "x"), ("a", "2")]);
    assert_eq!(get_required(&r, "a", "t.csv"), Ok("2".to_string()));
    assert_eq!(get_required(&r, "c", "t.csv"), Err("missing required field c in t.csv".to_string()));
    assert_eq!(parse_i64("12", "rank", "t.csv"), Ok(12));
    assert_eq!(
        parse_i64("x", "rank", "t.csv"),
        Err("invalid i64 for rank in t.csv: invalid digit found in string".to_string())
    );
    assert_eq!(
        parse_i64("", "rank", "t.csv"),
        Err("invalid i64 for rank in t.csv: cannot parse integer from empty string".to_string())
    );
}

#[test]
fn csv_rows_pair_header_with_fields() {
    let rows = parse_csv_rows(b"a,b,c\n1,2,3\n4,5\n6,7,8,9\n").unwrap();
    assert_eq!(rows.len(), 3);
    assert_eq!(rows[0], row(&[("a", "1"), ("b", "2"), ("c", "3")]));
    assert_eq!(rows[1], row(&[("a", "4"), ("b", "5")]));
    assert_eq!(rows[2], row(&[("a", "6"), ("b", "7"), ("c", "8")]));
    assert_eq!(parse_csv_rows(b"").unwrap().len(), 0);
    let quoted = parse_csv_rows(b"k,v\n\"x,y\",\"say \"\"hi\"\"\"\n").unwrap();
    assert_eq!(quoted[0], row(&[("k", "x,y"), ("v", "say \"hi\"")]));
    let err = parse_csv_rows(b"a,b\n\xff\xfe,1\n").unwrap_err();
    assert!(err.starts_with("failed to read csv row: "));
}

#[test]
fn records_become_rows() {
    let recs = vec![
        vec!["x".to_string(), "y".to_string()],
        vec!["1".to_string()],
        vec!["2".to_string(), "3".to_string()],
    ];
    let rows = rows_from_records(&recs);
    assert_eq!(rows, vec![row(&[("x", "1")]), row(&[("x", "2"), ("y", "3")])]);
}

#[test]
fn rows_decode_in_column_order() {
    let cols = vec![
        ImportColumn { name: "id", kind: ColumnKind::Text },
        ImportColumn { name: "nick", kind: ColumnKind::OptionalText },
        ImportColumn { name: "n", kind: ColumnKind::Integer },
        ImportColumn { name: "ev", kind: ColumnKind::OptionalText },
    ];
    let r = row(&[("id", "e1"), ("nick", ""), ("n", "3")]);
    assert_eq!(
        decode_row(&r, "t.csv", &cols),
        Ok(vec![SqlParam::Text("e1".to_string()), SqlParam::Null, SqlParam::Integer(3), SqlParam::Null])
    );
    let r2 = row(&[("nick", "z"), ("n", "q")]);
    assert_eq!(decode_row(&r2, "t.csv", &cols), Err("missing required field id in t.csv".to_string()));
    let r3 = row(&[("id", "e"), ("n", "q")]);
    assert_eq!(
        decode_row(&r3, "t.csv", &cols),
        Err("invalid i64 for n in t.csv: invalid digit found in string".to_string())
    );
}

#[test]
fn archive_tables_and_statements() {
    let tables = import_tables();
    assert_eq!(tables.len(), 9);
    assert_eq!(tables[0].file_name, "echoes.csv");
    assert_eq!(tables[3].file_name, "events.csv");
    assert_eq!(tables[3].table, "ordered_events");
    assert_eq!(tables[3].columns.len(), 11);
    assert_eq!(tables[8].table, "app_settings");
    assert_eq!(
        insert_sql(tables[1].table, &tables[1].columns),
        "INSERT INTO echo_expectations(echo_id, stat_key, rank) VALUES (?1, ?2, ?3)"
    );
    assert_eq!(export_files(false).len(), 8);
    assert_eq!(export_files(true)[8], ("probability_snapshots.csv", "probability_snapshots"));
}

#[test]
fn cells_and_table_csv() {
    assert_eq!(cell_text(&SqlCell::Null), "");
    assert_eq!(cell_text(&SqlCell::Integer(-5)), "-5");
    assert_eq!(cell_text(&SqlCell::Text("声骸".as_bytes().to_vec())), "声骸");
    assert_eq!(cell_text(&SqlCell::Blob(vec![0, 15, 16, 255])), "0x000f10ff");
    let recs = vec![vec!["a".to_string(), "b".to_string()], vec!["1".to_string(), "x,y".to_string()]];
    assert_eq!(table_csv("t", &recs).unwrap(), b"a,b\n1,\"x,y\"\n".to_vec());
}

#[test]
fn csv_rows_of_another_width_are_refused() {
    let recs = vec![
        vec!["a".to_string(), "b".to_string()],
        vec!["1".to_string(), "2".to_string()],
        vec!["3".to_string()],
        vec!["4".to_string(), "5".to_string()],
    ];
    let (at, _) = write_csv_records(&recs).unwrap_err();
    assert_eq!(at, 2);
    let msg = table_csv("echoes", &recs).unwrap_err();
    assert!(msg.starts_with("failed to write row for echoes: "));
    let header_only = vec![vec!["id".to_string()]];
    assert_eq!(write_csv_records(&header_only).unwrap(), b"id\n".to_vec());
}

#[test]
fn filters_become_where_clauses() {
    assert_eq!(where_clause(&vec![]), "");
    assert_eq!(where_clause(&vec!["a = ?", "b = ?"]), "WHERE a = ? AND b = ?");
    let f = DistributionFilter {
        start_time: Some("2026-01-01".to_string()),
        end_time: None,
        main_stat_key: None,
        cost_class: Some(4),
        status: Some("tracking".to_string()),
    };
    let (w, p) = build_distribution_where(&f);
    assert_eq!(w, "WHERE oe.event_time >= ? AND e.cost_class = ? AND e.status = ?");
    assert_eq!(
        p,
        vec![
            SqlParam::Text("2026-01-01".to_string()),
            SqlParam::Integer(4),
            SqlParam::Text("tracking".to_string())
        ]
    );
    let (w, p) = echo_filter_where(&EchoFilter { status: None, main_stat_key: Some("hp".to_string()), cost_class: None });
    assert_eq!(w, "WHERE e.main_stat_key = ?");
    assert_eq!(p, vec![SqlParam::Text("hp".to_string())]);
    let (w, p) = hypothesis_filter_where(&HypothesisFilter { cost_class: Some(1), main_stat_key: None, status: Some("paused".to_string()) });
    assert_eq!(w, "WHERE e.cost_class = ? AND e.status = ?");
    assert_eq!(p, vec![SqlParam::Integer(1), SqlParam::Text("paused".to_string())]);
    let (w, p) = hypothesis_filter_where(&HypothesisFilter { cost_class: None, main_stat_key: None, status: None });
    assert_eq!(w, "");
    assert!(p.is_empty());
}

#[test]
fn history_limit_is_clamped() {
    assert_eq!(history_limit(None), 200);
    assert_eq!(history_limit(Some(0)), 1);
    assert_eq!(history_limit(Some(9000)), 5000);
    assert_eq!(history_limit(Some(30)), 30);
}

#[test]
fn text_helpers() {
    assert!(same_text("ab", "ab"));
    assert!(!same_text("ab", "abc"));
    assert_eq!(chars_of("a声"), vec!['a', '声']);
    assert_eq!(split_on("a|b||c", '|'), vec!["a", "b", "", "c"]);
    assert_eq!(split_on("", '|'), vec![""]);
    assert_eq!(trim_text("\u{a0} x y \u{2003}"), "x y");
    assert_eq!(trim_text(" \t "), "");
}
