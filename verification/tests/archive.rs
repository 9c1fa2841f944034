use pr_engine::filesystem::{FileSystem, ExtractOutcome};
use pr_engine::errors::ArchiveError;

fn make_zip(entries: &[(&str, &[u8])]) -> Vec<u8> {
    let cur = std::io::Cursor::new(Vec::new());
    let mut w = zip::ZipWriter::new(cur);
    let opts = zip::write::SimpleFileOptions::default();
    for (name, data) in entries {
        w.start_file(*name, opts).unwrap();
        std::io::Write::write_all(&mut w, data).unwrap();
    }
    w.finish().unwrap().into_inner()
}

fn make_targz(entries: &[(&str, &[u8])]) -> Vec<u8> {
    let mut builder = tar::Builder::new(Vec::new());
    for (name, data) in entries {
        let mut h = tar::Header::new_gnu();
        h.set_size(data.len() as u64);
        h.set_mode(0o644);
        h.set_cksum();
        builder.append_data(&mut h, *name, *data).unwrap();
    }
    let tarbytes = builder.into_inner().unwrap();
    let mut enc = flate2::write::GzEncoder::new(Vec::new(), flate2::Compression::default());
    std::io::Write::write_all(&mut enc, &tarbytes).unwrap();
    enc.finish().unwrap()
}

const INDEX: &[u8] = br#"[{"id":42,"title":"Fix bug","created_by":"Alice","creation_date":"2024-01-01","status":"completed","source_branch":"dev","target_branch":"main","filename":"42.diff"}]"#;

fn sample_zip() -> Vec<u8> {
    make_zip(&[
        ("pr_index_2024.json", INDEX),
        ("prs/42.diff", b"hello\nworld\n"),
        ("prs/raw.bin", &[0u8, 159, 146, 150]),
    ])
}

#[test]
fn round_trip_read_and_cache() {
    let mut fs = FileSystem::new();
    fs.set_archive("archive.zip", sample_zip()).unwrap();
    let before = fs.decoder_read_count();
    let first = fs.read_file("prs/42.diff").unwrap();
    assert_eq!(first, "hello\nworld\n");
    let after_first = fs.decoder_read_count();
    assert_eq!(after_first, before + 1);
    let second = fs.read_file("prs/42.diff").unwrap();
    assert_eq!(second, "hello\nworld\n");
    assert_eq!(fs.decoder_read_count(), after_first, "cache hit must not touch the decoder");
}

#[test]
fn round_trip_tar_gz() {
    let bytes = make_targz(&[
        ("pr_index_2024.json", INDEX),
        ("prs/42.diff", b"hello\nworld\n"),
    ]);
    let mut fs = FileSystem::new();
    fs.set_archive("archive.tar.gz", bytes).unwrap();
    assert_eq!(fs.read_file("prs/42.diff").unwrap(), "hello\nworld\n");
    let names = fs.list_files().unwrap();
    assert!(names.iter().any(|n| n == "pr_index_2024.json"));
}

#[test]
fn wrong_extension_is_invalid_input() {
    let mut fs = FileSystem::new();
    assert_eq!(fs.set_archive("archive.rar", sample_zip()), Err(ArchiveError::InvalidInput));
    assert_eq!(fs.set_archive("archive", sample_zip()), Err(ArchiveError::InvalidInput));
}

#[test]
fn garbage_container_is_corrupt() {
    let mut fs = FileSystem::new();
    assert_eq!(
        fs.set_archive("bad.zip", vec![1, 2, 3, 4, 5]),
        Err(ArchiveError::Corrupt)
    );
    assert_eq!(
        fs.set_archive("bad.tar.gz", vec![1, 2, 3, 4, 5]),
        Err(ArchiveError::Corrupt)
    );
}

#[test]
fn missing_index_leaves_previous_archive_intact() {
    let mut fs = FileSystem::new();
    fs.set_archive("good.zip", sample_zip()).unwrap();
    assert_eq!(fs.read_file("prs/42.diff").unwrap(), "hello\nworld\n");

    let no_index = make_zip(&[("prs/1.diff", b"data\n")]);
    assert_eq!(fs.set_archive("other.zip", no_index), Err(ArchiveError::NotFound));

    assert_eq!(fs.get_archive_path(), "good.zip");
    assert_eq!(fs.read_file("prs/42.diff").unwrap(), "hello\nworld\n");
    assert_eq!(fs.get_index_file().unwrap(), "pr_index_2024.json");
}

#[test]
fn read_errors_by_cause() {
    let mut fs = FileSystem::new();
    assert_eq!(fs.read_file("prs/42.diff"), Err(ArchiveError::StateError));
    assert_eq!(fs.list_files().err(), Some(ArchiveError::StateError));
    assert_eq!(fs.get_index_file().err(), Some(ArchiveError::StateError));

    fs.set_archive("a.zip", sample_zip()).unwrap();
    assert_eq!(fs.read_file("prs/missing.diff"), Err(ArchiveError::NotFound));
    assert_eq!(fs.read_file("prs/raw.bin"), Err(ArchiveError::Corrupt));
}

#[test]
fn binary_reads_are_uncached_and_exact() {
    let mut fs = FileSystem::new();
    fs.set_archive("a.zip", sample_zip()).unwrap();
    let data = fs.read_binary_file_from_memory("prs/raw.bin").unwrap();
    assert_eq!(data, vec![0u8, 159, 146, 150]);
    assert_eq!(
        fs.read_binary_file_from_memory("nope"),
        Err(ArchiveError::NotFound)
    );
}

#[test]
fn index_document_lookup_and_parse() {
    let mut fs = FileSystem::new();
    fs.set_archive("a.zip", sample_zip()).unwrap();
    assert_eq!(fs.get_index_file().unwrap(), "pr_index_2024.json");
    let content = fs.get_index_content().unwrap();
    let rows = fs.parse_json(&content).unwrap();
    assert_eq!(rows.len(), 1);
    assert_eq!(rows[0].id, 42);
    assert_eq!(rows[0].title, "Fix bug");
    assert_eq!(rows[0].created_by, "Alice");
    assert_eq!(rows[0].filename, "42.diff");
}

#[test]
fn malformed_index_json_is_corrupt() {
    let fs = FileSystem::new();
    assert!(matches!(fs.parse_json("not json"), Err(ArchiveError::Corrupt)));
    assert!(matches!(fs.parse_json("{}"), Err(ArchiveError::Corrupt)));
    assert!(matches!(
        fs.parse_json(r#"[{"id":"not a number"}]"#),
        Err(ArchiveError::Corrupt)
    ));
}

#[test]
fn extraction_is_idempotent() {
    let mut fs = FileSystem::new();
    fs.set_archive("a.zip", sample_zip()).unwrap();
    match fs.extract_file("prs/42.diff", false).unwrap() {
        ExtractOutcome::Extracted(d) => assert_eq!(d, b"hello\nworld\n"),
        ExtractOutcome::AlreadyExtracted => panic!("first extraction must produce bytes"),
    }
    match fs.extract_file("prs/42.diff", true).unwrap() {
        ExtractOutcome::AlreadyExtracted => {},
        ExtractOutcome::Extracted(_) => panic!("second extraction must be skipped"),
    }
    match fs.extract_file("prs/42.diff", false).unwrap() {
        ExtractOutcome::Extracted(d) => assert_eq!(d, b"hello\nworld\n"),
        ExtractOutcome::AlreadyExtracted => panic!("a lost output file must be rebuilt"),
    }
    assert!(matches!(fs.extract_file("gone", false), Err(ArchiveError::NotFound)));
}
