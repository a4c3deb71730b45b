use photo_fix::report::{
    planned_transfer, scan_line_text, scan_preflight, scan_report, sort_line_text, SortTally, Transfer,
};
use photo_fix::{ScanResult, ScanStatus, WorkerMsg};
use std::path::PathBuf;

fn result(path: &str, status: ScanStatus) -> ScanResult {
    ScanResult { src: PathBuf::from(path), status }
}

fn sample() -> Vec<ScanResult> {
    vec![
        result("in/a.jpg", ScanStatus::PendingCopy { year: 2020, month: 2, dest_path: PathBuf::from("o/2020/02-Feb/a.jpg") }),
        result("in/b.jpg", ScanStatus::PendingMove { year: 2019, month: 11, dest_path: PathBuf::from("o/2019/11-Nov/b.jpg") }),
        result("in/c.jpg", ScanStatus::DuplicateSkipped),
        result("in/d.png", ScanStatus::NoDateSkipped),
        result("in/e.gif", ScanStatus::Error("broken".to_string())),
        result("in/f.jpg", ScanStatus::NoDateSkipped),
    ]
}

#[test]
fn scan_lines() {
    let s = sample();
    assert_eq!(scan_line_text(&s[0].status, "a.jpg"), "[copy] a.jpg -> 2020/02-Feb");
    assert_eq!(scan_line_text(&s[1].status, "b.jpg"), "[move] b.jpg -> 2019/11-Nov");
    assert_eq!(scan_line_text(&s[2].status, "c.jpg"), "[skip-dup] c.jpg");
    assert_eq!(scan_line_text(&s[3].status, "d.png"), "[skip-no-date] d.png");
    assert_eq!(scan_line_text(&s[4].status, "e.gif"), "[skip-err] e.gif - broken");
}

#[test]
fn scan_report_counts_each_kind() {
    let s = sample();
    let names: Vec<String> = ["a.jpg", "b.jpg", "c.jpg", "d.png", "e.gif", "f.jpg"].iter().map(|n| n.to_string()).collect();
    let r = scan_report(&s, &names);
    let expected_summary = "Scan Done! Total: 6, Ready: 2, Duplicate Skips: 1, Missing Date Skips: 2, Errors: 1";
    assert_eq!(r.summary, expected_summary);
    assert_eq!(r.ready, 2);
    assert_eq!(r.lines.len(), 9);
    assert_eq!(r.lines[0], "--- Scan Complete. Planned Actions: ---");
    assert_eq!(r.lines[1], "[copy] a.jpg -> 2020/02-Feb");
    assert_eq!(r.lines[6], "[skip-no-date] f.jpg");
    assert_eq!(r.lines[7], "---");
    assert_eq!(r.lines[8], expected_summary);
}

#[test]
fn empty_scan_report() {
    let r = scan_report(&vec![], &vec![]);
    assert_eq!(r.ready, 0);
    assert_eq!(r.lines, vec![
        "--- Scan Complete. Planned Actions: ---".to_string(),
        "---".to_string(),
        "Scan Done! Total: 0, Ready: 0, Duplicate Skips: 0, Missing Date Skips: 0, Errors: 0".to_string(),
    ]);
}

#[test]
fn transfers() {
    let s = sample();
    assert_eq!(planned_transfer(&s[0].status), Some(Transfer::Copy));
    assert_eq!(planned_transfer(&s[1].status), Some(Transfer::Move));
    assert_eq!(planned_transfer(&s[2].status), None);
    assert_eq!(planned_transfer(&s[4].status), None);
}

#[test]
fn sort_lines() {
    let s = sample();
    assert_eq!(sort_line_text(&s[0].status, "a.jpg", &None), "Copied: a.jpg -> 2020/02-Feb");
    assert_eq!(sort_line_text(&s[1].status, "b.jpg", &None), "Moved: b.jpg -> 2019/11-Nov");
    assert_eq!(sort_line_text(&s[0].status, "a.jpg", &Some("denied".to_string())), "[err] a.jpg - denied");
    assert_eq!(sort_line_text(&s[2].status, "c.jpg", &None), "[skip-dup] c.jpg");
    assert_eq!(sort_line_text(&s[3].status, "d.png", &None), "[skip-no-date] d.png");
    assert_eq!(sort_line_text(&s[4].status, "e.gif", &None), "[skip-err] e.gif - broken");
}

#[test]
fn tally_counts_every_image_once() {
    let s = sample();
    let mut t = SortTally::new();
    let failures = [None, Some("disk full".to_string()), None, None, None, None];
    for (i, r) in s.iter().enumerate() {
        let name = r.src.file_name().unwrap().to_string_lossy().to_string();
        match t.record(i, s.len(), r, &name, &failures[i]) {
            WorkerMsg::SortProgress { current, total, file } => {
                assert_eq!(current, i + 1);
                assert_eq!(total, 6);
                if i == 1 {
                    assert_eq!(file, "[err] b.jpg - disk full");
                }
            }
            other => panic!("{:?}", other),
        }
    }
    assert_eq!((t.moved, t.skipped, t.errors), (1, 3, 2));
    match t.done() {
        WorkerMsg::SortDone { moved: 1, skipped: 3, errors: 2 } => {}
        other => panic!("{:?}", other),
    }
}

#[test]
fn preflight_rejects_empty_scan() {
    match scan_preflight(0) {
        Some(WorkerMsg::Error(e)) => assert_eq!(e, "No image files found in source directory."),
        other => panic!("{:?}", other),
    }
    assert!(scan_preflight(3).is_none());
}
