use pr_engine::filesystem::FileSystem;
use pr_engine::preload::{Preloader, PreloadStep};
use pr_engine::session::{Session, InitialState, preload_candidates, sort_pr_files_desc};
use pr_engine::index::{PrIndexEntry, index_entries_to_pr_files};
use pr_engine::errors::ArchiveError;

fn make_zip(entries: &[(&str, &[u8])]) -> Vec<u8> {
    let cur = std::io::Cursor::new(Vec::new());
    let mut w = zip::ZipWriter::new(cur);
    let opts = zip::write::SimpleFileOptions::default();
    for (name, data) in entries {
        w.start_file(*name, opts).unwrap();
        std::io::Write::write_all(&mut w, data).unwrap();
    }
    w.finish().unwrap().into_inner()
}

const INDEX2: &[u8] = br#"[
  {"id":42,"title":"Fix bug","created_by":"Alice","creation_date":"2024-01-01","status":"completed","source_branch":"dev","target_branch":"main","filename":"42.diff"},
  {"id":7,"title":"Add docs","created_by":"Carol","creation_date":"2024-01-02","status":"active","source_branch":"docs","target_branch":"main","filename":"7.diff"}
]"#;

fn sample_session() -> Session {
    let mut session = Session::new(FileSystem::new(), FileSystem::new(), None);
    let bytes = make_zip(&[
        ("pr_index_2024.json", INDEX2),
        ("prs/42.diff", b"hello\nworld\n"),
        ("prs/7.diff", b"docs docs\n"),
    ]);
    session.set_archive_file("main.zip", bytes).unwrap();
    session
}

#[test]
fn scenario_index_read_and_search() {
    let mut session = sample_session();
    let files = session.get_pr_files().unwrap();
    assert_eq!(files.len(), 2);
    // sorted descending by PR number
    assert_eq!(files[0].pr_number, 42);
    assert_eq!(files[1].pr_number, 7);
    assert_eq!(files[0].archive_path, "prs/42.diff");
    assert_eq!(files[0].title, "Fix bug");
    assert_eq!(files[0].author, "Alice");

    assert_eq!(session.read_pr_file("prs/42.diff").unwrap(), "hello\nworld\n");

    let hits = session.search_prs("42").unwrap();
    assert_eq!(hits.len(), 1);
    assert_eq!(hits[0].pr_number, 42);
    assert_eq!(hits[0].archive_path, "prs/42.diff");
}

#[test]
fn failed_swap_keeps_session_state() {
    let mut session = sample_session();
    session.read_pr_file("prs/42.diff").unwrap();
    let no_index = make_zip(&[("prs/1.diff", b"x\n")]);
    assert_eq!(
        session.set_archive_file("other.zip", no_index),
        Err(ArchiveError::NotFound)
    );
    assert_eq!(session.get_archive_path(), "main.zip");
    assert_eq!(session.read_pr_file("prs/42.diff").unwrap(), "hello\nworld\n");
}

#[test]
fn preload_cancellation_never_writes_stale_entries() {
    let mut p = Preloader::new();
    let ticket_a = p.bump_generation();
    assert_eq!(p.preload_step(ticket_a, "prs/a.diff"), PreloadStep::Fetch);

    // a second search supersedes the first warmer before it commits
    let ticket_b = p.bump_generation();
    assert!(ticket_b != ticket_a);
    assert_eq!(p.preload_step(ticket_a, "prs/a.diff"), PreloadStep::Cancelled);
    let committed = p.preload_commit(ticket_a, "prs/a.diff", "stale".to_string());
    assert!(!committed);
    assert_eq!(p.cache_get("prs/a.diff"), None);

    // the live task still works
    assert!(p.preload_commit(ticket_b, "prs/b.diff", "fresh".to_string()));
    assert_eq!(p.cache_get("prs/b.diff").unwrap(), "fresh");
    assert_eq!(p.preload_step(ticket_b, "prs/b.diff"), PreloadStep::AlreadyCached);
}

#[test]
fn preload_task_warms_the_session_cache() {
    let mut session = sample_session();
    let files = session.search_prs("4").unwrap();
    let ticket = session.current_preload_generation();
    let candidates = preload_candidates(&files, 100);
    assert_eq!(candidates, vec!["prs/42.diff".to_string()]);
    for path in &candidates {
        match session.preload_step(ticket, path) {
            PreloadStep::Fetch => {
                assert!(session.preload_fetch(ticket, path));
            },
            PreloadStep::AlreadyCached => {},
            PreloadStep::Cancelled => panic!("no newer search has started yet"),
        }
    }
    // a superseded ticket can no longer fetch into the cache
    let _ = session.search_prs("7").unwrap();
    assert!(!session.preload_fetch(ticket, "prs/7.diff"));
}

#[test]
fn candidate_list_is_bounded() {
    let entries = vec![
        PrIndexEntry {
            id: 1,
            title: "a".to_string(),
            created_by: "x".to_string(),
            creation_date: "d".to_string(),
            status: "s".to_string(),
            source_branch: "b".to_string(),
            target_branch: "m".to_string(),
            filename: "1.diff".to_string(),
        },
        PrIndexEntry {
            id: 2,
            title: "b".to_string(),
            created_by: "y".to_string(),
            creation_date: "d".to_string(),
            status: "s".to_string(),
            source_branch: "b".to_string(),
            target_branch: "m".to_string(),
            filename: "2.diff".to_string(),
        },
    ];
    let files = index_entries_to_pr_files(entries);
    assert_eq!(preload_candidates(&files, 1), vec!["prs/1.diff".to_string()]);
    assert_eq!(preload_candidates(&files, 9).len(), 2);

    let sorted = sort_pr_files_desc(files);
    assert_eq!(sorted[0].pr_number, 2);
    assert_eq!(sorted[1].pr_number, 1);
}

#[test]
fn index_rows_parse_exactly() {
    let mut session = sample_session();
    let rows = session.index_entries().unwrap();
    assert_eq!(rows.len(), 2);
    assert_eq!(rows[0].id, 42);
    assert_eq!(rows[0].title, "Fix bug");
    assert_eq!(rows[1].id, 7);
    assert_eq!(rows[1].created_by, "Carol");
}

#[test]
fn initial_state_defaults_to_nothing() {
    let s = InitialState::default();
    assert!(s.archive_path.is_none());
    assert!(s.images_archive_path.is_none());
    assert!(s.repo_path.is_none());
}

#[test]
fn image_archive_is_independent() {
    let mut session = sample_session();
    let img = make_zip(&[
        ("pr_index_0.json", b"[]"),
        ("image_index.json", br#"{"https://pic/a.png":"imgs/a.png"}"#),
        ("imgs/a.png", &[137u8, 80, 78, 71]),
    ]);
    session.set_images_archive_file("imgs.zip", img).unwrap();
    assert_eq!(session.get_images_archive_path(), "imgs.zip");
    assert_eq!(session.get_archive_path(), "main.zip");

    let idx_text = session.read_image_text("image_index.json").unwrap();
    let doc = pr_engine::json::parse_json_document(&idx_text).unwrap();
    let actual = pr_engine::json::image_path_lookup(&doc, "pic/a.png").unwrap();
    assert_eq!(actual, "imgs/a.png");
    let data = session.read_image_bytes(&actual).unwrap();
    assert_eq!(data, vec![137u8, 80, 78, 71]);
}
