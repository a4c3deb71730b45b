use photo_fix::plan::{
    dest_key_string, is_image_extension, month_folder, planned_status, split_file_name, Candidate, FolderLayout, Planner,
    StepOutcome,
};
use photo_fix::ScanStatus;
use std::path::PathBuf;

fn split(name: &str) -> (String, String) {
    split_file_name(name)
}

#[test]
fn splits_names_like_path_stem_and_extension() {
    assert_eq!(split("IMG_1.JPG"), ("IMG_1".to_string(), "JPG".to_string()));
    assert_eq!(split("archive.tar.gz"), ("archive.tar".to_string(), "gz".to_string()));
    assert_eq!(split(".hidden"), (".hidden".to_string(), String::new()));
    assert_eq!(split(".hidden.jpg"), (".hidden".to_string(), "jpg".to_string()));
    assert_eq!(split("noext"), ("noext".to_string(), String::new()));
    assert_eq!(split("foo."), ("foo".to_string(), String::new()));
    assert_eq!(split(".."), ("..".to_string(), String::new()));
    assert_eq!(split(""), (String::new(), String::new()));
}

#[test]
fn split_agrees_with_std_path() {
    for name in ["IMG_1.JPG", "a.b.c", ".x", ".x.y", "plain", "end.", "ü.jpeg"] {
        let p = std::path::Path::new(name);
        let stem = p.file_stem().map(|s| s.to_string_lossy().into_owned()).unwrap_or_default();
        let ext = p.extension().map(|s| s.to_string_lossy().into_owned()).unwrap_or_default();
        assert_eq!(split(name), (stem, ext), "{}", name);
    }
}

#[test]
fn image_extensions_ignore_case() {
    for e in ["jpg", "JPG", "Jpeg", "png", "tif", "TIFF", "bmp", "gif", "webp", "heic", "HEIF", "cr2", "nef", "arw", "dng", "orf", "RW2"] {
        assert!(is_image_extension(e), "{}", e);
    }
    for e in ["", "txt", "jpgx", "jp", "mp4", "JPG ", "raw"] {
        assert!(!is_image_extension(e), "{}", e);
    }
}

#[test]
fn destination_keys() {
    assert_eq!(dest_key_string(FolderLayout::YearMonth, 2021, 7, "a.jpg"), "2021/07-Jul/a.jpg");
    assert_eq!(dest_key_string(FolderLayout::YearMonth, 1999, 12, "b"), "1999/12-Dec/b");
    assert_eq!(dest_key_string(FolderLayout::YearMonth, -5, 0, "c"), "-5/00-Unknown/c");
}

#[test]
fn candidate_names_count_up() {
    let mut c = Candidate::new(2020, 1, "IMG.jpg".to_string(), 10);
    assert_eq!(c.name(), "IMG.jpg");
    c.advance();
    assert_eq!(c.name(), "IMG-1.jpg");
    c.advance();
    assert_eq!(c.name(), "IMG-2.jpg");
    let mut d = Candidate::new(2020, 1, "scan".to_string(), 10);
    d.advance();
    assert_eq!(d.name(), "scan-1");
    let mut e = Candidate::new(2020, 1, "dot.".to_string(), 10);
    e.advance();
    assert_eq!(e.name(), "dot-1");
    for _ in 0..9 {
        c.advance();
    }
    assert_eq!(c.name(), "IMG-11.jpg");
}

/// Places one image, with `disk` telling what exists on disk per name.
fn place(planner: &mut Planner, year: i32, month: u32, name: &str, size: u64, disk: &[(&str, u64)]) -> Option<String> {
    let mut c = Candidate::new(year, month, name.to_string(), size);
    loop {
        let n = c.name();
        let on_disk = disk.iter().find(|(d, _)| *d == n).map(|(_, s)| *s);
        match planner.step(FolderLayout::YearMonth, &c, on_disk) {
            StepOutcome::Place(p) => return Some(p),
            StepOutcome::Duplicate => return None,
            StepOutcome::TryNext => c.advance(),
        }
    }
}

#[test]
fn free_name_is_used_as_is() {
    let mut p = Planner::new();
    assert_eq!(place(&mut p, 2020, 1, "a.jpg", 5, &[]), Some("a.jpg".to_string()));
}

#[test]
fn same_size_on_disk_is_a_duplicate() {
    let mut p = Planner::new();
    assert_eq!(place(&mut p, 2020, 1, "a.jpg", 5, &[("a.jpg", 5)]), None);
}

#[test]
fn other_size_on_disk_gets_a_suffix() {
    let mut p = Planner::new();
    assert_eq!(place(&mut p, 2020, 1, "a.jpg", 5, &[("a.jpg", 7)]), Some("a-1.jpg".to_string()));
    assert_eq!(place(&mut p, 2020, 1, "b.jpg", 5, &[("b.jpg", 7), ("b-1.jpg", 8)]), Some("b-2.jpg".to_string()));
    assert_eq!(place(&mut p, 2020, 1, "c.jpg", 5, &[("c.jpg", 7), ("c-1.jpg", 5)]), None);
}

#[test]
fn earlier_plans_count_as_occupied() {
    let mut p = Planner::new();
    assert_eq!(place(&mut p, 2020, 1, "a.jpg", 5, &[]), Some("a.jpg".to_string()));
    // same name, same size: duplicate of the image planned before
    assert_eq!(place(&mut p, 2020, 1, "a.jpg", 5, &[]), None);
    // same name, other size: next free name
    assert_eq!(place(&mut p, 2020, 1, "a.jpg", 6, &[]), Some("a-1.jpg".to_string()));
    assert_eq!(place(&mut p, 2020, 1, "a.jpg", 9, &[]), Some("a-2.jpg".to_string()));
    // the plan wins over what the disk says for a planned name
    assert_eq!(place(&mut p, 2020, 1, "a.jpg", 6, &[("a.jpg", 6)]), None);
    // other folders do not collide
    assert_eq!(place(&mut p, 2020, 2, "a.jpg", 5, &[]), Some("a.jpg".to_string()));
    assert_eq!(place(&mut p, 2021, 1, "a.jpg", 5, &[]), Some("a.jpg".to_string()));
}

#[test]
fn status_follows_operation() {
    match planned_status(true, 2020, 3, PathBuf::from("x")) {
        ScanStatus::PendingCopy { year: 2020, month: 3, dest_path } => assert_eq!(dest_path, PathBuf::from("x")),
        other => panic!("{:?}", other),
    }
    match planned_status(false, 2020, 3, PathBuf::from("x")) {
        ScanStatus::PendingMove { year: 2020, month: 3, .. } => {}
        other => panic!("{:?}", other),
    }
}

#[test]
fn destinations_differ_by_folder_or_name() {
    let a = dest_key_string(FolderLayout::YearMonth, 2021, 1, "a.jpg");
    assert_ne!(a, dest_key_string(FolderLayout::YearMonth, 2021, 11, "a.jpg"));
    assert_ne!(a, dest_key_string(FolderLayout::YearMonth, 202, 1, "a.jpg"));
    assert_ne!(a, dest_key_string(FolderLayout::YearMonth, 2021, 1, "a-1.jpg"));
    assert_eq!(dest_key_string(FolderLayout::YearMonth, 2021, 13, "a.jpg"), dest_key_string(FolderLayout::YearMonth, 2021, 0, "a.jpg"));
}

use photo_fix::plan::ScanPlan;

/// Runs the scan planning over images given as (path, date, size), with
/// `disk` listing (destination, size) of files already there.
fn plan_scan(use_copy: bool, layout: FolderLayout, images: &[(&str, Option<(i32, u32)>, u64)], disk: &[(&str, u64)]) -> Vec<photo_fix::ScanResult> {
    let mut plan = ScanPlan::new(use_copy, layout);
    for (path, date, size) in images {
        let p = PathBuf::from(path);
        let name = p.file_name().unwrap().to_string_lossy().to_string();
        if let Some(mut a) = plan.begin_image(p, name, *date, *size) {
            loop {
                let dest = match month_folder(layout, a.candidate.month) {
                    Some(m) => format!("{}/{}/{}", a.candidate.year, m, a.candidate.name()),
                    None => format!("{}/{}", a.candidate.year, a.candidate.name()),
                };
                let on_disk = disk.iter().find(|(d, _)| *d == dest).map(|(_, s)| *s);
                assert!(!(a.candidate.suffix >= i32::MAX as u32 && plan.needs_next_name(&a, on_disk)));
                if plan.attempt(&mut a, on_disk, PathBuf::from(dest)) {
                    break;
                }
            }
        }
    }
    match plan.finish() {
        photo_fix::WorkerMsg::ScanDone(r) => r,
        other => panic!("{:?}", other),
    }
}

#[test]
fn scan_plan_decides_each_image() {
    let results = plan_scan(
        true,
        FolderLayout::YearMonth,
        &[
            ("in/a.jpg", Some((2020, 1)), 5),
            ("in/b.jpg", None, 5),
            ("x/a.jpg", Some((2020, 1)), 5),
            ("y/a.jpg", Some((2020, 1)), 6),
            ("in/c.jpg", Some((2020, 1)), 3),
        ],
        &[("2020/01-Jan/c.jpg", 4), ("2020/01-Jan/c-1.jpg", 3)],
    );
    assert_eq!(results.len(), 5);
    match &results[0].status {
        ScanStatus::PendingCopy { year: 2020, month: 1, dest_path } => assert_eq!(dest_path, &PathBuf::from("2020/01-Jan/a.jpg")),
        other => panic!("{:?}", other),
    }
    assert!(matches!(results[1].status, ScanStatus::NoDateSkipped));
    assert_eq!(results[1].src, PathBuf::from("in/b.jpg"));
    assert!(matches!(results[2].status, ScanStatus::DuplicateSkipped));
    match &results[3].status {
        ScanStatus::PendingCopy { dest_path, .. } => assert_eq!(dest_path, &PathBuf::from("2020/01-Jan/a-1.jpg")),
        other => panic!("{:?}", other),
    }
    assert!(matches!(results[4].status, ScanStatus::DuplicateSkipped));
}

#[test]
fn scan_plan_moves_when_asked() {
    let results = plan_scan(false, FolderLayout::YearMonth, &[("in/a.jpg", Some((2019, 12)), 5)], &[]);
    assert!(matches!(results[0].status, ScanStatus::PendingMove { year: 2019, month: 12, .. }));
}

#[test]
fn year_only_layout_files_by_year() {
    assert_eq!(dest_key_string(FolderLayout::YearOnly, 2021, 7, "a.jpg"), "2021/a.jpg");
    assert_eq!(month_folder(FolderLayout::YearOnly, 7), None);
    assert_eq!(month_folder(FolderLayout::YearMonth, 7), Some("07-Jul"));
    let results = plan_scan(
        true,
        FolderLayout::YearOnly,
        &[
            ("in/a.jpg", Some((2020, 1)), 5),
            ("x/a.jpg", Some((2020, 2)), 6),
            ("y/a.jpg", Some((2021, 2)), 6),
        ],
        &[],
    );
    // the same name in two months of one year now shares a folder
    match &results[0].status {
        ScanStatus::PendingCopy { dest_path, .. } => assert_eq!(dest_path, &PathBuf::from("2020/a.jpg")),
        other => panic!("{:?}", other),
    }
    match &results[1].status {
        ScanStatus::PendingCopy { month: 2, dest_path, .. } => assert_eq!(dest_path, &PathBuf::from("2020/a-1.jpg")),
        other => panic!("{:?}", other),
    }
    match &results[2].status {
        ScanStatus::PendingCopy { dest_path, .. } => assert_eq!(dest_path, &PathBuf::from("2021/a.jpg")),
        other => panic!("{:?}", other),
    }
}
