//! Volume planning, ZIP assembly and the multi-volume descriptor.

use std::io::Read;

use baidu_direct_link::archive::{
    archive_base_name, build, part_filename, plan_volumes, volume_descriptor, zip_filename,
    ArchiveEntry,
};

const MIB: usize = 1024 * 1024;
const GIB: u64 = 1024 * 1024 * 1024;

fn entry(path: &str, size: usize) -> ArchiveEntry {
    ArchiveEntry {
        path: path.to_string(),
        data: vec![0u8; size],
    }
}

fn volume_paths(volumes: &[Vec<ArchiveEntry>]) -> Vec<Vec<String>> {
    volumes
        .iter()
        .map(|v| v.iter().map(|e| e.path.clone()).collect())
        .collect()
}

#[test]
fn split_scenario_six_hundred_megabyte_pair() {
    // a + b alone would exceed one gibibyte, so a closes its own volume.
    let entries = vec![
        entry("a.bin", 600 * MIB),
        entry("b.bin", 600 * MIB),
        entry("c.bin", 100 * MIB),
    ];
    let volumes = plan_volumes(entries, GIB);
    assert_eq!(
        volume_paths(&volumes),
        vec![vec!["a.bin".to_string()], vec!["b.bin".to_string(), "c.bin".to_string()]]
    );
}

#[test]
fn oversized_single_entry_keeps_one_volume() {
    // A single oversized entry is never split and travels alone.
    let entries = vec![entry("big.bin", 2 * GIB as usize)];
    let volumes = plan_volumes(entries, GIB);
    assert_eq!(volume_paths(&volumes), vec![vec!["big.bin".to_string()]]);
}

#[test]
fn total_under_limit_gives_one_volume() {
    let entries = vec![entry("x", 10), entry("y", 20), entry("z", 30)];
    let volumes = plan_volumes(entries, 1000);
    assert_eq!(
        volume_paths(&volumes),
        vec![vec!["x".to_string(), "y".to_string(), "z".to_string()]]
    );
}

#[test]
fn split_keeps_every_entry_in_order() {
    let entries: Vec<ArchiveEntry> = (0..10).map(|i| entry(&format!("f{}", i), 40)).collect();
    let volumes = plan_volumes(entries, 100);
    let flat: Vec<String> = volumes.iter().flatten().map(|e| e.path.clone()).collect();
    let expected: Vec<String> = (0..10).map(|i| format!("f{}", i)).collect();
    assert_eq!(flat, expected);
    assert!(volumes.len() >= 2);
    for v in &volumes {
        let size: usize = v.iter().map(|e| e.data.len()).sum();
        assert!(v.len() == 1 || size <= 100);
    }
}

#[test]
fn build_round_trips_through_a_zip_reader() {
    let entries = vec![
        ArchiveEntry {
            path: "docs\\readme.txt".to_string(),
            data: b"hello volume".to_vec(),
        },
        ArchiveEntry {
            path: "docs/data.bin".to_string(),
            data: vec![7u8; 2048],
        },
    ];
    let volumes = build(entries, GIB).expect("build should succeed");
    assert_eq!(volumes.len(), 1);

    let cursor = std::io::Cursor::new(volumes[0].clone());
    let mut archive = zip::ZipArchive::new(cursor).expect("output must be a readable ZIP");
    assert_eq!(archive.len(), 2);

    // Backslashes are normalized to forward slashes.
    let mut first = archive.by_index(0).expect("first entry");
    assert_eq!(first.name(), "docs/readme.txt");
    let mut content = Vec::new();
    first.read_to_end(&mut content).expect("readable entry");
    assert_eq!(content, b"hello volume".to_vec());
    drop(first);

    let second = archive.by_index(1).expect("second entry");
    assert_eq!(second.name(), "docs/data.bin");
    assert_eq!(second.size(), 2048);
}

#[test]
fn build_splits_into_independent_zip_volumes() {
    let entries = vec![
        ArchiveEntry { path: "one".to_string(), data: vec![1u8; 600] },
        ArchiveEntry { path: "two".to_string(), data: vec![2u8; 600] },
    ];
    let volumes = build(entries, 1000).expect("build should succeed");
    assert_eq!(volumes.len(), 2);
    for (i, bytes) in volumes.iter().enumerate() {
        let cursor = std::io::Cursor::new(bytes.clone());
        let archive = zip::ZipArchive::new(cursor).expect("each volume is a complete ZIP");
        assert_eq!(archive.len(), 1, "volume {} holds one entry", i);
    }
}

#[test]
fn archive_names_and_part_numbers() {
    assert_eq!(archive_base_name("bundle.zip"), "bundle");
    assert_eq!(archive_base_name("bundle"), "bundle");
    assert_eq!(zip_filename("bundle"), "bundle.zip");
    assert_eq!(zip_filename("bundle.zip"), "bundle.zip");
    assert_eq!(part_filename("bundle", 1), "bundle.z01");
    assert_eq!(part_filename("bundle", 9), "bundle.z09");
    assert_eq!(part_filename("bundle", 10), "bundle.z10");
    assert_eq!(part_filename("bundle", 123), "bundle.z123");
}

#[test]
fn descriptor_reports_every_part() {
    let volumes = vec![vec![0u8; 5], vec![0u8; 7], vec![0u8; 11]];
    let d = volume_descriptor("bundle", &volumes);
    assert_eq!(d.total_parts, 3);
    assert_eq!(d.total_size, 23);
    assert_eq!(d.parts.len(), 3);
    assert_eq!(d.parts[0].part_num, 1);
    assert_eq!(d.parts[0].filename, "bundle.z01");
    assert_eq!(d.parts[0].size_bytes, 5);
    assert_eq!(d.parts[2].part_num, 3);
    assert_eq!(d.parts[2].filename, "bundle.z03");
    assert_eq!(d.parts[2].size_bytes, 11);
}
