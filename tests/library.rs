use find_sqlite::sql::is_whitespace_char;
use find_sqlite::{
    assemble_block, file_block, has_sqlite_header, metadata_fmt, schema_fmt, sql_fmt,
    sql_fmt_pretty, FileMeta, MetaError, Options, Timestamp,
};

const SIG: &[u8; 16] = b"SQLite format 3\0";

fn opts(meta: bool, schema: bool, sep: &str, fmt: bool, pretty: bool) -> Options {
    Options {
        show_metadata: meta,
        show_schema: schema,
        batch_separator: sep.to_string(),
        format_sql: fmt,
        format_sql_pretty: pretty,
    }
}

fn epoch_meta() -> FileMeta {
    let t = Some(Timestamp { secs: 0, nanos: 0 });
    FileMeta {
        uid: 1000,
        gid: 100,
        len: 2048,
        mode: 0o100644,
        created: t,
        modified: Some(Timestamp { secs: 86400, nanos: 0 }),
        accessed: t,
    }
}

#[test]
fn short_prefixes_are_not_databases() {
    for n in 0..16 {
        assert!(!has_sqlite_header(&SIG[..n]));
    }
    assert!(!has_sqlite_header(b"hello"));
}

#[test]
fn exact_signature_is_a_database() {
    assert!(has_sqlite_header(SIG));
    let mut longer = SIG.to_vec();
    longer.extend_from_slice(b"rest of the page");
    assert!(has_sqlite_header(&longer));
}

#[test]
fn any_single_byte_change_is_rejected() {
    for i in 0..16 {
        for delta in [1u8, 0x80, 0xff] {
            let mut b = *SIG;
            b[i] = b[i].wrapping_add(delta);
            assert!(!has_sqlite_header(&b));
        }
    }
}

#[test]
fn text_file_of_same_length_is_rejected() {
    assert!(!has_sqlite_header(b"plain text file!"));
}

#[test]
fn whitespace_agrees_with_std() {
    for u in 0u32..=0x10ffff {
        if let Some(c) = char::from_u32(u) {
            assert_eq!(is_whitespace_char(c), c.is_whitespace(), "{u:#x}");
        }
    }
}

#[test]
fn compact_collapses_whitespace() {
    assert_eq!(
        sql_fmt("CREATE TABLE t (\n    x INTEGER,\n\ty  TEXT\n)"),
        "CREATE TABLE t ( x INTEGER, y TEXT )"
    );
    assert_eq!(sql_fmt("  a\u{3000}b\r\n"), "a b");
    assert_eq!(sql_fmt(""), "");
    assert_eq!(sql_fmt(" \n\t "), "");
}

#[test]
fn compact_is_idempotent() {
    for s in ["CREATE TABLE t (x)", "  a   b\n c ", "x", "", "\u{2003}y\u{2003}"] {
        let once = sql_fmt(s);
        assert_eq!(sql_fmt(&once), once);
    }
    assert_eq!(sql_fmt("CREATE TABLE t (x)"), "CREATE TABLE t (x)");
}

#[test]
fn pretty_uppercases_and_reindents() {
    let p = sql_fmt_pretty("create table t (x integer, y text)");
    assert!(p.contains("CREATE TABLE"));
    assert!(p.contains('\n'));
    assert_ne!(p, "create table t (x integer, y text)");
}

#[test]
fn schema_single_table_compact() {
    let rows = vec!["CREATE TABLE t (x)".to_string()];
    assert_eq!(schema_fmt(&rows, true, false), "        CREATE TABLE t (x)");
}

#[test]
fn schema_is_sorted_whatever_the_order() {
    let a = vec![
        "CREATE TABLE b (y)".to_string(),
        "CREATE INDEX i ON b (y)".to_string(),
        "CREATE TABLE a (x)".to_string(),
    ];
    let mut b = a.clone();
    b.reverse();
    let expected = "        CREATE INDEX i ON b (y)\n        CREATE TABLE a (x)\n        CREATE TABLE b (y)";
    assert_eq!(schema_fmt(&a, true, false), expected);
    assert_eq!(schema_fmt(&b, true, false), expected);
    assert_eq!(schema_fmt(&a, true, false), schema_fmt(&a, true, false));
}

#[test]
fn schema_keeps_duplicates() {
    let rows = vec!["CREATE TABLE t (x)".to_string(), "CREATE TABLE t (x)".to_string()];
    assert_eq!(
        schema_fmt(&rows, true, false),
        "        CREATE TABLE t (x)\n        CREATE TABLE t (x)"
    );
}

#[test]
fn schema_raw_text_is_indented_per_line() {
    let rows = vec!["CREATE TABLE t (\r\n  x\n)\n".to_string()];
    assert_eq!(
        schema_fmt(&rows, false, false),
        "        CREATE TABLE t (\n          x\n        )"
    );
    assert_eq!(schema_fmt(&vec![], true, false), "");
}

#[test]
fn schema_pretty_mode_uses_pretty_text() {
    let rows = vec!["create table t (x)".to_string()];
    let expected: Vec<String> = sql_fmt_pretty("create table t (x)")
        .lines()
        .map(|l| format!("        {l}"))
        .collect();
    assert_eq!(schema_fmt(&rows, true, true), expected.join("\n"));
}

#[test]
fn metadata_block_lines() {
    let m = metadata_fmt(&epoch_meta()).unwrap();
    assert_eq!(
        m,
        "        btime 1970-01-01T00:00:00Z\n        mtime 1970-01-02T00:00:00Z\n        atime 1970-01-01T00:00:00Z\n        size 2k\n        perm rw-r--r--\n        owner 1000:100"
    );
}

#[test]
fn metadata_missing_timestamp_is_unavailable() {
    let mut m = epoch_meta();
    m.created = None;
    assert_eq!(metadata_fmt(&m), Err(MetaError::Unavailable));
}

#[test]
fn metadata_far_future_is_out_of_range() {
    let mut m = epoch_meta();
    m.accessed = Some(Timestamp { secs: 253_402_300_800, nanos: 0 });
    assert_eq!(metadata_fmt(&m), Err(MetaError::OutOfRange));
    m.accessed = Some(Timestamp { secs: 253_402_300_799, nanos: 0 });
    assert!(metadata_fmt(&m).is_ok());
}

#[test]
fn bare_path_without_sections() {
    let o = opts(false, false, "\n", true, false);
    assert_eq!(assemble_block("\"/x/a.db\"", &Some("m".to_string()), "s", &o), "\"/x/a.db\"");
}

#[test]
fn block_with_both_sections() {
    let o = opts(true, true, "--", true, false);
    assert_eq!(
        assemble_block("p", &Some("M".to_string()), "S", &o),
        "p\n    meta\nM\n    schema\nS--"
    );
    assert_eq!(assemble_block("p", &None, "S", &o), "p\n    schema\nS--");
}

#[test]
fn end_to_end_single_table() {
    let o = opts(false, true, "\n", true, false);
    let rows = Some(vec!["CREATE TABLE t (x)".to_string()]);
    let b = file_block("\"root/a.db\"", &rows, &epoch_meta(), &o).unwrap();
    assert_eq!(b, "\"root/a.db\"\n    schema\n        CREATE TABLE t (x)\n");
}

#[test]
fn unreadable_database_gives_no_block() {
    let o = opts(true, true, "\n", true, false);
    assert_eq!(file_block("\"root/bad.db\"", &None, &epoch_meta(), &o), None);
}

#[test]
fn metadata_failure_keeps_schema() {
    let o = opts(true, true, "\n", true, false);
    let mut m = epoch_meta();
    m.modified = None;
    let rows = Some(vec!["CREATE TABLE t (x)".to_string()]);
    let b = file_block("p", &rows, &m, &o).unwrap();
    assert_eq!(b, "p\n    schema\n        CREATE TABLE t (x)\n");
}
