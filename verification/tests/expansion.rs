//! Tree expansion scenarios, driven with hand-made metadata and listings.

use baidu_direct_link::expand::{ExpandAction, ExpandError, Expansion};
use baidu_direct_link::metadata::FsidMeta;

fn file_meta(fsid: u64, name: &str, path: &str) -> FsidMeta {
    FsidMeta {
        fsid,
        filename: name.to_string(),
        path: path.to_string(),
        is_dir: false,
    }
}

fn dir_meta(fsid: u64, name: &str, path: &str) -> FsidMeta {
    FsidMeta {
        fsid,
        filename: name.to_string(),
        path: path.to_string(),
        is_dir: true,
    }
}

#[test]
fn single_file_root_keeps_bare_display_name() {
    let mut exp = Expansion::new(vec![42]).expect("one root");
    match exp.next_action() {
        ExpandAction::NeedMeta(id) => assert_eq!(id, 42),
        _ => panic!("expected a metadata request"),
    }
    exp.supply_meta(file_meta(42, "report.pdf", "/shared/report.pdf"));
    assert!(exp.is_done());
    let jobs = exp.finish().expect("one job");
    assert_eq!(jobs.len(), 1);
    assert_eq!(jobs[0].archive_path, "report.pdf");
    assert_eq!(jobs[0].remote_id, 42);
}

#[test]
fn directory_root_prefixes_and_walks_stack_order() {
    let mut exp = Expansion::new(vec![7]).expect("one root");
    match exp.next_action() {
        ExpandAction::NeedMeta(id) => assert_eq!(id, 7),
        _ => panic!("expected a metadata request"),
    }
    exp.supply_meta(dir_meta(7, "docs", "/my/docs/"));

    match exp.next_action() {
        ExpandAction::NeedListing(d) => assert_eq!(d, "/my/docs"),
        _ => panic!("expected a listing request"),
    }
    exp.supply_listing(&vec![
        file_meta(100, "a.txt", "/my/docs/a.txt"),
        dir_meta(101, "sub", "/my/docs/sub"),
        file_meta(102, "b.txt", "/my/docs/b.txt"),
        dir_meta(103, "deep", "/my/docs/deep"),
    ])
    .expect("walk goes on");

    // Sibling directories are listed last-in-first-out.
    match exp.next_action() {
        ExpandAction::NeedListing(d) => assert_eq!(d, "/my/docs/deep"),
        _ => panic!("expected the most recent directory"),
    }
    exp.supply_listing(&vec![file_meta(104, "d.txt", "/my/docs/deep/d.txt")])
        .expect("walk goes on");

    match exp.next_action() {
        ExpandAction::NeedListing(d) => assert_eq!(d, "/my/docs/sub"),
        _ => panic!("expected the earlier directory"),
    }
    exp.supply_listing(&vec![file_meta(105, "c.txt", "/my/docs/sub/c.txt")])
        .expect("walk ends");

    assert!(exp.is_done());
    let jobs = exp.finish().expect("jobs");
    let got: Vec<(String, u64)> = jobs
        .into_iter()
        .map(|j| (j.archive_path, j.remote_id))
        .collect();
    assert_eq!(
        got,
        vec![
            ("docs/a.txt".to_string(), 100),
            ("docs/b.txt".to_string(), 102),
            ("docs/deep/d.txt".to_string(), 104),
            ("docs/sub/c.txt".to_string(), 105),
        ]
    );
}

#[test]
fn file_with_inconsistent_path_falls_back_to_bare_name() {
    let mut exp = Expansion::new(vec![7]).expect("one root");
    exp.supply_meta(dir_meta(7, "docs", "/my/docs"));
    // The backend hands a path outside the root's base: the relative path
    // cannot be computed, so the bare filename serves, root name prefixed.
    exp.supply_listing(&vec![file_meta(100, "odd.txt", "/elsewhere/odd.txt")])
        .expect("walk ends");
    let jobs = exp.finish().expect("jobs");
    assert_eq!(jobs[0].archive_path, "docs/odd.txt");
}

#[test]
fn empty_root_list_is_rejected() {
    match Expansion::new(vec![]) {
        Err(e) => assert_eq!(e, ExpandError::EmptyInput),
        Ok(_) => panic!("an empty root list must be rejected"),
    }
}

#[test]
fn directory_without_files_fails() {
    let mut exp = Expansion::new(vec![7]).expect("one root");
    exp.supply_meta(dir_meta(7, "docs", "/my/docs"));
    let r = exp.supply_listing(&vec![]);
    assert_eq!(r, Err(ExpandError::NoFilesFound));
}

#[test]
fn mixed_roots_expand_independently() {
    let mut exp = Expansion::new(vec![1, 2]).expect("two roots");
    exp.supply_meta(file_meta(1, "solo.txt", "/solo.txt"));
    exp.supply_meta(dir_meta(2, "folder", "/folder"));
    exp.supply_listing(&vec![file_meta(20, "inner.txt", "/folder/inner.txt")])
        .expect("walk ends");
    assert!(exp.is_done());
    let jobs = exp.finish().expect("jobs");
    let got: Vec<(String, u64)> = jobs
        .into_iter()
        .map(|j| (j.archive_path, j.remote_id))
        .collect();
    assert_eq!(
        got,
        vec![
            ("solo.txt".to_string(), 1),
            ("folder/inner.txt".to_string(), 20),
        ]
    );
}
