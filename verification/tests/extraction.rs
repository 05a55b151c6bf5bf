use bundle_vault::codec::{decode_paths, encode_paths};
use bundle_vault::extract::{plan_zip_extraction, planned_file_paths, FsWrite, ZipEntry};
use bundle_vault::zip_store::{parse_zip_archive, plan_from_archive_bytes};
use std::io::Write;
use zip::write::SimpleFileOptions;

fn build_zip(entries: &[(&str, Option<&[u8]>)]) -> Vec<u8> {
    let mut w = zip::ZipWriter::new(std::io::Cursor::new(Vec::new()));
    let opts = SimpleFileOptions::default().compression_method(zip::CompressionMethod::Stored);
    for (name, data) in entries {
        match data {
            Some(bytes) => {
                w.start_file(*name, opts).unwrap();
                w.write_all(bytes).unwrap();
            }
            None => {
                w.add_directory(*name, opts).unwrap();
            }
        }
    }
    w.finish().unwrap().into_inner()
}

#[test]
fn zip_round_trip_plan() {
    let data = build_zip(&[("a/b.txt", Some(b"hello")), ("c/", None)]);
    let plan = plan_from_archive_bytes(&data, "D").unwrap();
    assert_eq!(plan.len(), 2);
    match &plan[0] {
        FsWrite::File { path, data } => {
            assert_eq!(path, "D/a/b.txt");
            assert_eq!(data, b"hello");
        }
        _ => panic!("first entry should be a file write"),
    }
    match &plan[1] {
        FsWrite::Dir { path } => assert_eq!(path, "D/c"),
        _ => panic!("second entry should be a directory"),
    }
    let paths = planned_file_paths(&plan);
    assert_eq!(paths, vec!["D/a/b.txt".to_string()]);
}

#[test]
fn zip_traversal_neutralized() {
    let data = build_zip(&[
        ("../../etc/passwd", Some(b"oops")),
        ("/abs/file.txt", Some(b"abs")),
        ("ok/./inner/../deep.txt", Some(b"x")),
    ]);
    let plan = plan_from_archive_bytes(&data, "D").unwrap();
    for w in &plan {
        let path = match w {
            FsWrite::Dir { path } => path,
            FsWrite::File { path, .. } => path,
        };
        assert!(path.starts_with("D/"), "path escapes the output dir: {}", path);
        for comp in path.split('/') {
            assert_ne!(comp, "..", "parent component survived in {}", path);
        }
    }
    // the traversal entry still lands inside D under its harmless parts
    let paths = planned_file_paths(&plan);
    assert!(paths.contains(&"D/etc/passwd".to_string()));
    assert!(paths.contains(&"D/abs/file.txt".to_string()));
    assert!(paths.contains(&"D/ok/inner/deep.txt".to_string()));
}

#[test]
fn zip_entry_of_only_dropped_components_is_skipped() {
    let entries = vec![
        ZipEntry { name: "..".to_string(), is_dir: true, data: vec![] },
        ZipEntry { name: "/".to_string(), is_dir: true, data: vec![] },
        ZipEntry { name: "keep.txt".to_string(), is_dir: false, data: vec![1] },
    ];
    let plan = plan_zip_extraction(&entries, "out");
    assert_eq!(plan.len(), 1);
    match &plan[0] {
        FsWrite::File { path, .. } => assert_eq!(path, "out/keep.txt"),
        _ => panic!("expected a file write"),
    }
}

#[test]
fn corrupt_archive_rejected() {
    let garbage = vec![0x50, 0x4b, 0x03, 0x04, 1, 2, 3];
    assert!(parse_zip_archive(&garbage).is_err());
    assert!(plan_from_archive_bytes(&garbage, "D").is_err());
}

#[test]
fn parsed_entries_reflect_archive() {
    let data = build_zip(&[("x.txt", Some(b"abc")), ("sub/", None), ("sub/y.bin", Some(&[7, 8]))]);
    let entries = parse_zip_archive(&data).unwrap();
    assert_eq!(entries.len(), 3);
    assert_eq!(entries[0].name, "x.txt");
    assert!(!entries[0].is_dir);
    assert_eq!(entries[0].data, b"abc");
    assert_eq!(entries[1].name, "sub/");
    assert!(entries[1].is_dir);
    assert_eq!(entries[2].name, "sub/y.bin");
    assert_eq!(entries[2].data, vec![7, 8]);
}

#[test]
fn codec_round_trip() {
    let paths = vec![
        "D/a/b.txt".to_string(),
        "".to_string(),
        "weird;:5:item;".to_string(),
        "12345".to_string(),
    ];
    let payload = encode_paths(&paths);
    let back = decode_paths(&payload).unwrap();
    assert_eq!(back, paths);
}

#[test]
fn codec_empty_list() {
    let paths: Vec<String> = vec![];
    let payload = encode_paths(&paths);
    assert_eq!(payload, "");
    assert_eq!(decode_paths("").unwrap(), paths);
}

#[test]
fn codec_exact_encoding() {
    let paths = vec!["abc".to_string(), "de".to_string()];
    assert_eq!(encode_paths(&paths), "3:abc;2:de;");
}

#[test]
fn codec_rejects_garbage() {
    assert!(decode_paths("junk").is_none());
    assert!(decode_paths("3:ab;").is_none());
    assert!(decode_paths("2:ab").is_none());
    assert!(decode_paths("2:abX").is_none());
    assert!(decode_paths(":ab;").is_none());
    assert!(decode_paths("99999999999999999999999999:a;").is_none());
}
