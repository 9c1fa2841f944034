use pr_engine::errors::{CommitError, GitFileError};
use pr_engine::git_commit::get_commit_metadata;
use pr_engine::git_lines::{
    get_file_lines_at_revision, get_file_diff_between_revisions, get_file_diff_as_strings,
    window_of_content, format_diff_lines, DiffLineInfo,
};
use pr_engine::git_diff::{get_tree_diff_between_revisions, get_filtered_tree_diff};
use pr_engine::filesystem::FileSystem;
use pr_engine::session::{Session, SessionGitError};

struct TestRepo {
    _dir: tempfile::TempDir,
    repo: git2::Repository,
}

fn commit_file(repo: &git2::Repository, name: &str, content: &str, parent: Option<git2::Oid>) -> git2::Oid {
    let blob = repo.blob(content.as_bytes()).unwrap();
    let mut tb = repo.treebuilder(None).unwrap();
    tb.insert(name, blob, 0o100644).unwrap();
    let tree_id = tb.write().unwrap();
    let tree = repo.find_tree(tree_id).unwrap();
    let sig = git2::Signature::now("Tester", "tester@example.com").unwrap();
    let parents: Vec<git2::Commit> = match parent {
        Some(p) => vec![repo.find_commit(p).unwrap()],
        None => vec![],
    };
    let parent_refs: Vec<&git2::Commit> = parents.iter().collect();
    repo.commit(Some("HEAD"), &sig, &sig, "change lines", &tree, &parent_refs).unwrap()
}

fn numbered_lines(n: usize, changed: &[usize]) -> String {
    let mut s = String::new();
    for i in 1..=n {
        if changed.contains(&i) {
            s.push_str(&format!("changed {}\n", i));
        } else {
            s.push_str(&format!("line {}\n", i));
        }
    }
    s
}

fn make_repo() -> (TestRepo, git2::Oid, git2::Oid) {
    let dir = tempfile::tempdir().unwrap();
    let repo = git2::Repository::init(dir.path()).unwrap();
    let c1 = commit_file(&repo, "file.txt", &numbered_lines(50, &[]), None);
    let c2 = commit_file(&repo, "file.txt", &numbered_lines(50, &[2, 20, 40]), Some(c1));
    let repo2 = git2::Repository::open(dir.path()).unwrap();
    (TestRepo { _dir: dir, repo: repo2 }, c1, c2)
}

#[test]
fn lines_window_is_exact() {
    let (t, c1, _) = make_repo();
    let rev = c1.to_string();
    let lines = get_file_lines_at_revision(&t.repo, "file.txt", &rev, 2, 4).unwrap();
    assert_eq!(lines, vec!["line 2", "line 3", "line 4"]);
    let whole = get_file_lines_at_revision(&t.repo, "file.txt", &rev, 1, 50).unwrap();
    assert_eq!(whole.len(), 50);
    let clipped = get_file_lines_at_revision(&t.repo, "file.txt", &rev, 48, 90).unwrap();
    assert_eq!(clipped, vec!["line 48", "line 49", "line 50"]);
}

#[test]
fn invalid_ranges_fail_before_the_repository() {
    let (t, c1, _) = make_repo();
    let rev = c1.to_string();
    assert_eq!(
        get_file_lines_at_revision(&t.repo, "file.txt", &rev, 0, 4),
        Err(GitFileError::InvalidRange)
    );
    assert_eq!(
        get_file_lines_at_revision(&t.repo, "file.txt", &rev, 5, 4),
        Err(GitFileError::InvalidRange)
    );
    assert_eq!(
        get_file_lines_at_revision(&t.repo, "file.txt", "no-such-revision", 0, 0),
        Err(GitFileError::InvalidRange)
    );
    assert_eq!(
        get_file_lines_at_revision(&t.repo, "file.txt", &rev, 60, 70),
        Err(GitFileError::InvalidRange)
    );
}

#[test]
fn missing_revision_and_file() {
    let (t, c1, _) = make_repo();
    let rev = c1.to_string();
    assert_eq!(
        get_file_lines_at_revision(&t.repo, "file.txt", "does-not-exist", 1, 2),
        Err(GitFileError::RevisionNotFound)
    );
    assert_eq!(
        get_file_lines_at_revision(&t.repo, "absent.txt", &rev, 1, 2),
        Err(GitFileError::FileNotFound)
    );
}

#[test]
fn commit_metadata_fields() {
    let (t, c1, _) = make_repo();
    let rev = c1.to_string();
    let meta = get_commit_metadata(&t.repo, &rev).unwrap();
    assert_eq!(meta.commit_id, rev);
    assert_eq!(meta.message, "change lines");
    assert_eq!(meta.summary, "change lines");
    assert_eq!(meta.author_name, "Tester");
    assert_eq!(meta.author_email, "tester@example.com");
    assert_eq!(meta.committer_name, "Tester");
    assert!(meta.author_time > 0);
    assert_eq!(
        get_commit_metadata(&t.repo, "bogus").err(),
        Some(CommitError::RevisionNotFound)
    );
}

#[test]
fn windowed_diff_keeps_only_the_near_hunk() {
    let (t, c1, c2) = make_repo();
    let from = c1.to_string();
    let to = c2.to_string();
    let lines = get_file_diff_between_revisions(&t.repo, "file.txt", &from, &to, 20, 20).unwrap();
    assert!(!lines.is_empty());
    for l in &lines {
        if l.origin == ' ' || l.origin == '+' {
            let n = l.new_lineno.unwrap() as i64;
            assert!((17..=23).contains(&n), "line {} outside the window: {:?}", n, l.content);
        }
    }
    assert!(lines.iter().any(|l| l.origin == '+' && l.content.starts_with("changed 20")));
    assert!(lines.iter().any(|l| l.origin == '-' && l.content.starts_with("line 20")));
    assert!(!lines.iter().any(|l| l.content.starts_with("changed 2\n")));
    assert!(!lines.iter().any(|l| l.content.starts_with("changed 40")));
    assert!(lines.iter().any(|l| l.origin == ' ' && l.content.starts_with("line 17")));
    for l in &lines {
        match l.origin {
            '-' => assert!(l.old_lineno.is_some() && l.new_lineno.is_none()),
            '+' => assert!(l.new_lineno.is_some() && l.old_lineno.is_none()),
            ' ' => assert!(l.old_lineno.is_some() && l.new_lineno.is_some()),
            other => panic!("unexpected origin {:?}", other),
        }
    }
}

#[test]
fn windowed_diff_distinguishes_absence_from_no_change() {
    let (t, c1, c2) = make_repo();
    let from = c1.to_string();
    let to = c2.to_string();
    let quiet = get_file_diff_between_revisions(&t.repo, "file.txt", &from, &to, 30, 32).unwrap();
    assert!(quiet.is_empty(), "no hunk near lines 30..32");
    assert_eq!(
        get_file_diff_between_revisions(&t.repo, "absent.txt", &from, &to, 1, 1).err(),
        Some(GitFileError::FileNotFound)
    );
    assert_eq!(
        get_file_diff_between_revisions(&t.repo, "file.txt", &from, &to, 0, 1).err(),
        Some(GitFileError::InvalidRange)
    );
}

#[test]
fn unified_diff_rendering() {
    let lines = vec![
        DiffLineInfo { old_lineno: Some(1), new_lineno: Some(1), content: "same\n".to_string(), origin: ' ' },
        DiffLineInfo { old_lineno: Some(2), new_lineno: None, content: "gone".to_string(), origin: '-' },
        DiffLineInfo { old_lineno: None, new_lineno: Some(2), content: "new\n".to_string(), origin: '+' },
    ];
    assert_eq!(format_diff_lines(&lines), " same\n-gone\n+new\n");

    let (t, c1, c2) = make_repo();
    let rendered = get_file_diff_as_strings(&t.repo, "file.txt", &c1.to_string(), &c2.to_string(), 20, 20).unwrap();
    assert!(rendered.contains("-line 20"));
    assert!(rendered.contains("+changed 20"));
}

#[test]
fn window_of_content_slices_lines() {
    assert_eq!(window_of_content("a\nb\nc\n", 1, 2).unwrap(), vec!["a", "b"]);
    assert_eq!(window_of_content("a\nb\nc", 2, 9).unwrap(), vec!["b", "c"]);
    assert_eq!(window_of_content("a\nb", 3, 4), Err(GitFileError::InvalidRange));
    assert_eq!(window_of_content("a\nb", 0, 1), Err(GitFileError::InvalidRange));
}

#[test]
fn non_text_blob_yields_io_error() {
    let dir = tempfile::tempdir().unwrap();
    let repo = git2::Repository::init(dir.path()).unwrap();
    let blob = repo.blob(&[0xffu8, 0xfe, 0x00, 0x01]).unwrap();
    let mut tb = repo.treebuilder(None).unwrap();
    tb.insert("blob.bin", blob, 0o100644).unwrap();
    let tree = repo.find_tree(tb.write().unwrap()).unwrap();
    let sig = git2::Signature::now("Tester", "tester@example.com").unwrap();
    let oid = repo.commit(Some("HEAD"), &sig, &sig, "binary", &tree, &[]).unwrap();
    assert_eq!(
        get_file_lines_at_revision(&repo, "blob.bin", &oid.to_string(), 1, 1),
        Err(GitFileError::Io)
    );
}

#[test]
fn opening_a_missing_repository_reports_the_cause() {
    let mut session = Session::new(FileSystem::new(), FileSystem::new(), None);
    let err = session.set_git_repo("/no/such/repository").unwrap_err();
    assert!(!err.is_empty());
    assert_eq!(session.get_git_repo(), "");
}

#[test]
fn session_git_operations() {
    let mut session = Session::new(FileSystem::new(), FileSystem::new(), None);
    assert_eq!(session.get_git_repo(), "");
    assert!(matches!(
        session.get_git_commit("HEAD"),
        Err(SessionGitError::NoRepository)
    ));
    assert!(matches!(
        session.get_git_file_lines_at_revision("f", "HEAD", 1, 2),
        Err(SessionGitError::NoRepository)
    ));
    assert!(matches!(
        session.git_get_tree_diff_between_revisions("a", "b"),
        Err(SessionGitError::NoRepository)
    ));

    let (t, c1, c2) = make_repo();
    let path = t.repo.path().to_str().unwrap().to_string();
    session.set_git_repo(&path).unwrap();
    assert!(!session.get_git_repo().is_empty());
    assert!(!session.get_git_repo().contains("/.git"));

    let meta = session.get_git_commit(&c1.to_string()).unwrap();
    assert_eq!(meta.summary, "change lines");
    let lines = session
        .get_git_file_lines_at_revision("file.txt", &c1.to_string(), 1, 2)
        .unwrap();
    assert_eq!(lines, vec!["line 1", "line 2"]);
    let rendered = session
        .git_get_file_diff_between_revisions("file.txt", &c1.to_string(), &c2.to_string(), 2, 2)
        .unwrap();
    assert!(rendered.contains("+changed 2\n"));
    let tree_diff = session
        .git_get_tree_diff_between_revisions(&c1.to_string(), &c2.to_string())
        .unwrap();
    assert_eq!(tree_diff.files.len(), 1);
    let filtered = session
        .git_get_filtered_tree_diff(&c1.to_string(), &c2.to_string(), "nothing/*")
        .unwrap();
    assert!(filtered.files.is_empty());
    assert!(matches!(
        session.get_git_file_lines_at_revision("file.txt", &c1.to_string(), 3, 2),
        Err(SessionGitError::File(GitFileError::InvalidRange))
    ));
}

#[test]
fn tree_diff_lists_changed_files() {
    let (t, c1, c2) = make_repo();
    let from = c1.to_string();
    let to = c2.to_string();
    let diff = get_tree_diff_between_revisions(&t.repo, &from, &to).unwrap();
    assert_eq!(diff.files.len(), 1);
    let f = &diff.files[0];
    assert_eq!(f.new_file, "file.txt");
    assert_eq!(f.status, 'M');
    assert!(!f.binary);
    assert!(f.lines.iter().any(|l| l.origin == '+' && l.content == "changed 20\n"));
    assert!(f.lines.iter().any(|l| l.origin == '-' && l.content == "line 40\n"));

    let filtered = get_filtered_tree_diff(&t.repo, &from, &to, "other/*").unwrap();
    assert!(filtered.files.is_empty());
    let kept = get_filtered_tree_diff(&t.repo, &from, &to, "file.*").unwrap();
    assert_eq!(kept.files.len(), 1);
}
