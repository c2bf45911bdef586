use lflog::{
    chunk_bounds, chunk_count, find_next_newline, resolve_files, Column, DataKind, Error,
    LogTableProvider, ScanPlan, Scanner,
};

const APACHE: &str = r#"^\[{{time:datetime("%a %b %d %H:%M:%S %Y")}}\] \[{{level:var_name}}\] {{message:any}}$"#;

fn provider(pattern: &str, add_file_path: bool, add_raw: bool) -> LogTableProvider {
    let scanner = Scanner::new(pattern.to_string()).unwrap();
    LogTableProvider::new(scanner, "logs/*.log".to_string(), add_file_path, add_raw, Some(8))
}

fn plan_for(p: &LogTableProvider, projection: Option<&Vec<usize>>) -> ScanPlan {
    let names: Vec<String> = p.project(projection).into_iter().map(|f| f.name).collect();
    p.plan_scan(&names).unwrap()
}

fn total_rows(p: &LogTableProvider, plan: &ScanPlan, data: &[u8], chunks: usize) -> usize {
    p.scan_data(plan, "/var/log/a.log", data, chunks)
        .unwrap()
        .iter()
        .map(|b| b.row_count)
        .sum()
}

fn texts(c: &Column) -> Vec<String> {
    match c {
        Column::Utf8(v) => v.clone(),
        Column::Float64(_) | Column::Int32(_) => panic!("not a text column"),
    }
}

#[test]
fn apache_line_gives_one_row() {
    let p = provider(APACHE, false, false);
    let plan = plan_for(&p, None);
    let data = b"[Sun Dec 04 04:47:44 2005] [notice] workerEnv.init() ok\n";
    let batches = p.scan_data(&plan, "/var/log/a.log", data, 1).unwrap();
    assert_eq!(batches.len(), 1);
    assert_eq!(batches[0].row_count, 1);
    assert_eq!(texts(&batches[0].columns[0]), vec!["Sun Dec 04 04:47:44 2005"]);
    assert_eq!(texts(&batches[0].columns[1]), vec!["notice"]);
    assert_eq!(texts(&batches[0].columns[2]), vec!["workerEnv.init() ok"]);
}

#[test]
fn mixed_groups_with_synthetic_columns() {
    let p = provider(r"^(\d+) (?P<name>\w+)$", true, true);
    let schema = p.schema();
    let names: Vec<&str> = schema.iter().map(|f| f.name.as_str()).collect();
    assert_eq!(names, vec!["name", "__FILE__", "__RAW__"]);
    let plan = plan_for(&p, Some(&vec![0, 1, 2]));
    assert!(plan.add_file_path && plan.add_raw);
    let batches = p.scan_data(&plan, "/tmp/mixed.log", b"123 test_val\n", 1).unwrap();
    let b = &batches[0];
    assert_eq!(b.row_count, 1);
    assert_eq!(texts(&b.columns[0]), vec!["test_val"]);
    assert_eq!(texts(&b.columns[1]), vec!["/tmp/mixed.log"]);
    assert_eq!(texts(&b.columns[2]), vec!["123 test_val"]);
}

#[test]
fn number_fields_become_int32() {
    let pattern = r#"^\[{{time:datetime("%a %b %d %H:%M:%S %Y")}}\] \[{{level:var_name}}\] jk2_init\(\) Found child {{child_pid:number}} in scoreboard slot {{slot:number}}$"#;
    let p = provider(pattern, false, false);
    let schema = p.schema();
    assert_eq!(schema[2].name, "child_pid");
    assert_eq!(schema[2].data_type, DataKind::Int32);
    assert_eq!(schema[3].data_type, DataKind::Int32);
    assert_eq!(schema[0].data_type, DataKind::Utf8);
    let plan = plan_for(&p, None);
    let data = b"[Sun Dec 04 04:47:44 2005] [error] jk2_init() Found child 6725 in scoreboard slot 10\n";
    let batches = p.scan_data(&plan, "/var/log/a.log", data, 1).unwrap();
    match (&batches[0].columns[2], &batches[0].columns[3]) {
        (Column::Int32(pid), Column::Int32(slot)) => {
            assert_eq!(pid, &vec![Some(6725)]);
            assert_eq!(slot, &vec![Some(10)]);
        }
        _ => panic!("expected integer columns"),
    }
}

#[test]
fn small_file_with_many_chunks() {
    let p = provider(APACHE, false, false);
    let plan = plan_for(&p, None);
    let data = b"[Sun Dec 04 04:47:44 2005] [notice] Line 1\n[Sun Dec 04 04:47:45 2005] [error] Line 2\n[Sun Dec 04 04:47:46 2005] [notice] Line 3\n";
    let batches = p.scan_data(&plan, "/var/log/a.log", data, 8).unwrap();
    assert_eq!(batches.len(), 8);
    let total: usize = batches.iter().map(|b| b.row_count).sum();
    assert_eq!(total, 3);
    for b in &batches {
        assert_eq!(b.columns.len(), 3);
        if b.row_count == 0 {
            assert!(b.columns.iter().all(|c| texts(c).is_empty()));
        }
    }
    assert!(batches.iter().filter(|b| b.row_count == 0).count() >= 5);
}

#[test]
fn row_count_does_not_depend_on_chunk_count() {
    let p = provider(r"^{{n:number}} {{w:var_name}}$", false, false);
    let plan = plan_for(&p, None);
    let data: &[u8] = b"1 a\nnot a row\n22 bb\r\n\n333 ccc\nx y\n4444 d";
    let one = total_rows(&p, &plan, data, 1);
    assert_eq!(one, 4);
    for c in [2, 3, 4, 7, data.len() + 1] {
        assert_eq!(total_rows(&p, &plan, data, c), one);
    }
}

#[test]
fn projection_keeps_requested_order() {
    let p = provider(APACHE, false, false);
    let projected = p.project(Some(&vec![2, 0]));
    assert_eq!(projected.len(), 2);
    assert_eq!(projected[0].name, "message");
    assert_eq!(projected[1].name, "time");
    let plan = plan_for(&p, Some(&vec![2, 0]));
    let data = b"[Sun Dec 04 04:47:44 2005] [notice] hello\n";
    let batches = p.scan_data(&plan, "/var/log/a.log", data, 1).unwrap();
    assert_eq!(batches[0].columns.len(), 2);
    assert_eq!(texts(&batches[0].columns[0]), vec!["hello"]);
    assert_eq!(texts(&batches[0].columns[1]), vec!["Sun Dec 04 04:47:44 2005"]);
}

#[test]
fn scanning_twice_gives_the_same_batches() {
    let p = provider(APACHE, true, true);
    let plan = plan_for(&p, None);
    let data = b"[Sun Dec 04 04:47:44 2005] [notice] a\njunk\n[Sun Dec 04 04:47:45 2005] [error] b\n";
    let first = p.scan_data(&plan, "/f", data, 3).unwrap();
    let second = p.scan_data(&plan, "/f", data, 3).unwrap();
    assert_eq!(format!("{:?}", first), format!("{:?}", second));
}

#[test]
fn int_cells_follow_decimal_parsing() {
    let p = provider(r"^{{v:number}}|(?P<t>.*)$", false, false);
    let plan = plan_for(&p, None);
    let batches = p.scan_data(&plan, "/f", b"42\n99999999999\n", 1).unwrap();
    match &batches[0].columns[0] {
        Column::Int32(v) => assert_eq!(v, &vec![Some(42), None]),
        _ => panic!("expected an integer column"),
    }
}

#[test]
fn invalid_utf8_fails_the_scan() {
    let p = provider(r"{{w:any}}", false, false);
    let plan = plan_for(&p, None);
    let err = p.scan_data(&plan, "/f", b"ok\n\xff\xfe\n", 2).unwrap_err();
    assert!(matches!(err, Error::Utf8(_)));
}

#[test]
fn empty_data_gives_empty_batches() {
    let p = provider(APACHE, false, false);
    let plan = plan_for(&p, None);
    let batches = p.scan_data(&plan, "/f", b"", 4).unwrap();
    assert_eq!(batches.len(), 4);
    assert!(batches.iter().all(|b| b.row_count == 0 && b.columns.len() == 3));
}

#[test]
fn newline_search_and_chunk_bounds() {
    let data = b"ab\ncd\nef";
    assert_eq!(find_next_newline(data, 0, data.len()), Some(3));
    assert_eq!(find_next_newline(data, 3, data.len()), Some(6));
    assert_eq!(find_next_newline(data, 6, data.len()), None);
    assert_eq!(chunk_bounds(data, 1), vec![(0, 8)]);
    assert_eq!(chunk_bounds(data, 2), vec![(0, 6), (6, 8)]);
    assert_eq!(chunk_bounds(data, 3), vec![(0, 3), (3, 6), (6, 8)]);
    assert_eq!(chunk_bounds(data, 9), vec![(0, 3), (3, 3), (3, 3), (3, 3), (3, 3), (3, 3), (3, 3), (3, 3), (3, 8)]);
}

#[test]
fn chunk_count_clamps_to_host() {
    assert_eq!(chunk_count(Some(8), None, 4), 4);
    assert_eq!(chunk_count(Some(0), Some(3), 4), 1);
    assert_eq!(chunk_count(None, Some(3), 4), 3);
    assert_eq!(chunk_count(None, None, 6), 6);
    assert_eq!(chunk_count(Some(2), Some(3), 6), 2);
}

#[test]
fn no_files_is_an_error() {
    let err = resolve_files(vec![], "/nonexistent/path.log").unwrap_err();
    assert_eq!(err, Error::NoFiles("/nonexistent/path.log".to_string()));
    let ok = resolve_files(vec!["/a.log".to_string()], "/*.log").unwrap();
    assert_eq!(ok, vec!["/a.log".to_string()]);
}

#[test]
fn synthetic_columns_need_both_offer_and_request() {
    let p = provider(r"{{w:any}}", true, false);
    let plan = plan_for(&p, Some(&vec![0]));
    assert!(!plan.add_file_path && !plan.add_raw);
    let plan = plan_for(&p, Some(&vec![1, 0]));
    assert!(plan.add_file_path);
    assert_eq!(plan.file_path_index, 0);
    assert_eq!(plan.field_indices, vec![2, 1]);
}

#[test]
fn float_fields_keep_readable_text() {
    let p = provider(r"^{{v:float}}|(?P<rest>.*)$", false, false);
    assert_eq!(p.schema()[0].data_type, DataKind::Float64);
    let plan = plan_for(&p, None);
    let batches = p.scan_data(&plan, "/f", b"2.5
-1e3
abc
", 1).unwrap();
    match &batches[0].columns[0] {
        Column::Float64(v) => assert_eq!(v, &vec![Some("2.5".to_string()), Some("-1e3".to_string()), None]),
        _ => panic!("expected a float column"),
    }
}
