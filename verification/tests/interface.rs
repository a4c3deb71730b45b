use photo_fix::log::merge_log;
use photo_fix::ui::{scan_actions, start_actions, PollBatch, UiAction};
use photo_fix::{ScanResult, ScanStatus, WorkerMsg};
use std::path::PathBuf;

fn describe(actions: &[UiAction]) -> Vec<String> {
    actions.iter().map(|a| format!("{:?}", a)).collect()
}

#[test]
fn scan_ignored_while_running() {
    assert!(scan_actions(true, "a", "b", true, Some(0), Some(0)).is_empty());
}

#[test]
fn scan_needs_both_folders() {
    let a = scan_actions(false, "", "b", true, Some(0), Some(0));
    assert_eq!(describe(&a), vec!["ShowMessage(\"Please select both source and destination directories.\")"]);
    let a = scan_actions(false, "a", "", true, Some(0), Some(0));
    assert_eq!(a.len(), 1);
}

#[test]
fn scan_needs_existing_source() {
    let a = scan_actions(false, "a", "b", false, Some(0), Some(0));
    assert_eq!(describe(&a), vec!["ShowMessage(\"Source directory does not exist.\")"]);
}

#[test]
fn scan_starts() {
    let a = scan_actions(false, "C:\\in", "D:\\out", true, Some(0), Some(0));
    let d = describe(&a);
    assert_eq!(d.len(), 11);
    assert_eq!(d[4], "SetStatus(\"Scanning...\")");
    assert_eq!(d[6], "AppendLog([\"Scanning Source: C:\\\\in\"])");
    assert_eq!(d[10], "StartScan { use_copy: true, layout: YearMonth }");
    let b = scan_actions(false, "a", "b", true, Some(1), Some(0));
    assert_eq!(describe(&b)[10], "StartScan { use_copy: false, layout: YearMonth }");
    let c = scan_actions(false, "a", "b", true, None, Some(0));
    assert_eq!(describe(&c)[10], "StartScan { use_copy: false, layout: YearMonth }");
    let y = scan_actions(false, "a", "b", true, Some(0), Some(1));
    assert_eq!(describe(&y)[10], "StartScan { use_copy: true, layout: YearOnly }");
}

#[test]
fn start_needs_a_plan() {
    assert!(start_actions(true, &vec![]).is_empty());
    let a = start_actions(false, &vec![]);
    assert_eq!(describe(&a), vec!["ShowMessage(\"No scanned results found. Please run Scan Folder first.\")"]);
    let plan = vec![ScanResult { src: PathBuf::from("x.jpg"), status: ScanStatus::NoDateSkipped }];
    let d = describe(&start_actions(false, &plan));
    assert_eq!(d.len(), 10);
    assert_eq!(d[5], "AppendLog([\"Starting Sorting Execution...\"])");
    assert_eq!(d[9], "StartSort");
}

#[test]
fn poll_gathers_progress() {
    let mut b = PollBatch::new();
    b.absorb(WorkerMsg::ScanProgress { current: 1, total: 4, file: "a.jpg".into() });
    b.absorb(WorkerMsg::ScanProgress { current: 3, total: 4, file: "b.jpg".into() });
    assert!(b.progress_in_range());
    let d = describe(&b.actions(&vec![]));
    assert_eq!(d, vec![
        "AppendLog([\"Scanned: a.jpg\", \"Scanned: b.jpg\"])".to_string(),
        "SetProgress(750)".to_string(),
        "SetStatus(\"Scanning 3/4...\")".to_string(),
    ]);
}

#[test]
fn poll_without_total_shows_no_progress() {
    let mut b = PollBatch::new();
    b.absorb(WorkerMsg::SortProgress { current: 0, total: 0, file: "x".into() });
    let d = describe(&b.actions(&vec![]));
    assert_eq!(d, vec!["AppendLog([\"x\"])".to_string(), "SetStatus(\"Sorting 0/0...\")".to_string()]);
}

#[test]
fn poll_empty_does_nothing() {
    assert!(PollBatch::new().actions(&vec![]).is_empty());
}

#[test]
fn poll_finishes_scan() {
    let mut b = PollBatch::new();
    let results = vec![
        ScanResult { src: PathBuf::from("in/a.jpg"), status: ScanStatus::PendingCopy { year: 2020, month: 5, dest_path: PathBuf::from("o") } },
        ScanResult { src: PathBuf::from("in/b.jpg"), status: ScanStatus::DuplicateSkipped },
    ];
    b.absorb(WorkerMsg::ScanDone(results));
    let actions = b.actions(&vec!["a.jpg".to_string(), "b.jpg".to_string()]);
    let d = describe(&actions);
    assert_eq!(d.len(), 8);
    assert_eq!(d[0], "SetProgress(1000)");
    assert_eq!(d[2], "SetStatus(\"Scan Done! Total: 2, Ready: 1, Duplicate Skips: 1, Missing Date Skips: 0, Errors: 0\")");
    assert_eq!(d[5], "EnableStart(true)");
    match &actions[1] {
        UiAction::AppendLog(lines) => assert_eq!(lines[1], "[copy] a.jpg -> 2020/05-May"),
        other => panic!("{:?}", other),
    }
    match &actions[6] {
        UiAction::StoreResults(r) => assert_eq!(r.len(), 2),
        other => panic!("{:?}", other),
    }
}

#[test]
fn poll_finishes_sort() {
    let mut b = PollBatch::new();
    b.absorb(WorkerMsg::SortDone { moved: 3, skipped: 1, errors: 0 });
    let d = describe(&b.actions(&vec![]));
    assert_eq!(d[1], "SetStatus(\"Done! Sorted: 3, Skipped: 1, Errors: 0\")");
    assert_eq!(d[2], "AppendLog([\"---\\r\\nDone! Sorted: 3, Skipped: 1, Errors: 0\"])");
    assert_eq!(d[6], "ClearResults");
}

#[test]
fn poll_reports_error() {
    let mut b = PollBatch::new();
    b.absorb(WorkerMsg::Error("No image files found in source directory.".into()));
    let d = describe(&b.actions(&vec![]));
    assert_eq!(d[0], "SetStatus(\"Error!\")");
    assert_eq!(d[1], "AppendLog([\"ERROR: No image files found in source directory.\"])");
    assert_eq!(d.len(), 6);
}

#[test]
fn scan_end_wins_over_sort_end_and_error() {
    let mut b = PollBatch::new();
    b.absorb(WorkerMsg::Error("e".into()));
    b.absorb(WorkerMsg::SortDone { moved: 0, skipped: 0, errors: 0 });
    b.absorb(WorkerMsg::ScanDone(vec![]));
    let d = describe(&b.actions(&vec![]));
    assert_eq!(d[5], "EnableStart(false)");
    assert_eq!(d[6], "StoreResults([])");
}

#[test]
fn progress_out_of_range_is_reported() {
    let mut b = PollBatch::new();
    b.absorb(WorkerMsg::ScanProgress { current: 5_000_000, total: 6_000_000, file: "f".into() });
    assert!(!b.progress_in_range());
}

#[test]
fn log_drops_blank_lines_and_appends() {
    let r = merge_log("a\r\n\r\nb", &vec!["c".to_string()]);
    assert_eq!(r, "a\r\nb\r\nc");
    assert_eq!(merge_log("", &vec!["first".to_string()]), "first");
    assert_eq!(merge_log("", &vec![]), "");
}

#[test]
fn log_keeps_last_300_lines() {
    let current: Vec<String> = (0..299).map(|i| format!("line {}", i)).collect();
    let r = merge_log(&current.join("\r\n"), &vec!["x".to_string(), "y".to_string()]);
    let lines: Vec<&str> = r.split("\r\n").collect();
    assert_eq!(lines.len(), 300);
    assert_eq!(lines[0], "line 1");
    assert_eq!(lines[299], "y");
}

#[test]
fn progress_reaches_the_end_of_the_bar() {
    let mut b = PollBatch::new();
    b.absorb(WorkerMsg::SortProgress { current: 7, total: 7, file: "z".into() });
    let d = describe(&b.actions(&vec![]));
    assert_eq!(d[1], "SetProgress(1000)");
    assert_eq!(d[2], "SetStatus(\"Sorting 7/7...\")");
}

use photo_fix::log::split_crlf;

#[test]
fn split_matches_str_split() {
    for text in ["", "a", "a\r\nb", "\r\n", "a\r\r\nb", "a\r\n\r\nb", "x\n\ry", "\r\n\r\n\n", "end\r\n", "\r"] {
        let expected: Vec<String> = text.split("\r\n").map(|p| p.to_string()).collect();
        assert_eq!(split_crlf(text), expected, "{:?}", text);
    }
}

#[test]
fn log_text_never_exceeds_300_lines() {
    let msgs: Vec<String> = (0..350).map(|i| format!("m{}", i)).collect();
    let r = merge_log("old\r\nlines", &msgs);
    let lines: Vec<&str> = r.split("\r\n").collect();
    assert_eq!(lines.len(), 300);
    assert_eq!(lines[0], "m50");
    assert_eq!(lines[299], "m349");
}
