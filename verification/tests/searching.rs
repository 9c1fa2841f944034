use pr_engine::index::PrIndexEntry;
use pr_engine::search::SearchIndex;
use pr_engine::errors::ArchiveError;

fn entry(id: i32, title: &str, author: &str, filename: &str) -> PrIndexEntry {
    PrIndexEntry {
        id,
        title: title.to_string(),
        created_by: author.to_string(),
        creation_date: "2024-01-01".to_string(),
        status: "active".to_string(),
        source_branch: "dev".to_string(),
        target_branch: "main".to_string(),
        filename: filename.to_string(),
    }
}

fn sample_entries() -> Vec<PrIndexEntry> {
    vec![
        entry(421, "Refactor parser", "Bob", "421.diff"),
        entry(42, "Fix bug", "Alice", "42.diff"),
        entry(7, "Add docs", "Carol", "7.diff"),
        entry(420, "Tune cache", "Dan", "420.diff"),
        entry(142, "Cleanup", "Erin", "142.diff"),
    ]
}

#[test]
fn uninitialized_index_is_a_state_error() {
    let idx = SearchIndex::new();
    assert!(!idx.is_initialized());
    assert_eq!(idx.search("42").err(), Some(ArchiveError::StateError));
}

#[test]
fn rebuild_initializes_and_last_call_wins() {
    let mut idx = SearchIndex::new();
    idx.rebuild_index(&sample_entries()).unwrap();
    assert!(idx.is_initialized());
    idx.rebuild_index(&vec![entry(5, "only", "one", "5.diff")]).unwrap();
    let ids: Vec<i32> = idx.search("5").unwrap().iter().map(|e| e.id).collect();
    assert_eq!(ids, vec![5]);
}

#[test]
fn exact_id_query_ranks_that_pr_first() {
    let mut idx = SearchIndex::new();
    idx.rebuild_index(&sample_entries()).unwrap();
    let ids: Vec<i32> = idx.search("42").unwrap().iter().map(|e| e.id).collect();
    // prefix matches (42, 420, 421) ascending, then contains matches (142)
    assert_eq!(ids, vec![42, 420, 421, 142]);
}

#[test]
fn query_is_trimmed_before_matching() {
    let mut idx = SearchIndex::new();
    idx.rebuild_index(&sample_entries()).unwrap();
    let ids: Vec<i32> = idx.search("  7  ").unwrap().iter().map(|e| e.id).collect();
    assert_eq!(ids, vec![7]);
}

#[test]
fn blank_query_yields_no_matches() {
    let mut idx = SearchIndex::new();
    idx.rebuild_index(&sample_entries()).unwrap();
    assert!(idx.search("").unwrap().is_empty());
    assert!(idx.search("   \t ").unwrap().is_empty());
}

#[test]
fn identical_queries_are_deterministic() {
    let mut idx = SearchIndex::new();
    idx.rebuild_index(&sample_entries()).unwrap();
    let a: Vec<i32> = idx.search("2").unwrap().iter().map(|e| e.id).collect();
    let b: Vec<i32> = idx.search("2").unwrap().iter().map(|e| e.id).collect();
    assert_eq!(a, b);
    // "2" is a prefix of no id, but contained in several: ascending by id
    assert_eq!(a, vec![42, 142, 420, 421]);
}

#[test]
fn negative_ids_match_with_their_sign() {
    let mut idx = SearchIndex::new();
    idx.rebuild_index(&vec![
        entry(-5, "negative five", "Nia", "m5.diff"),
        entry(-51, "negative fifty-one", "Nia", "m51.diff"),
        entry(5, "plain five", "Pat", "5.diff"),
    ]).unwrap();
    let ids: Vec<i32> = idx.search("-5").unwrap().iter().map(|e| e.id).collect();
    // both negative id-strings start with "-5"; ascending numeric order puts
    // -51 before -5, so an exactly-matching id is not first here
    assert_eq!(ids, vec![-51, -5]);
}

#[test]
fn non_numeric_query_yields_no_numeric_matches() {
    let mut idx = SearchIndex::new();
    idx.rebuild_index(&sample_entries()).unwrap();
    assert!(idx.search("parser").unwrap().is_empty());
}
