use trench::app::{classify_repo_file_kind, extension_of, toggle_set, validate_download_name, FilterState, PaneId, RepoFileKind};
use trench::models::{ContentType, FeedItem, SignalLevel, SourcePlatform, WorkflowState};

#[test]
fn validate_download_name_accepts_plain_filenames() {
    assert!(validate_download_name("foo.zip").is_ok());
    assert!(validate_download_name("README.md").is_ok());
    assert!(validate_download_name("file_name-1.txt").is_ok());
    // `..foo` is a single component.
    assert!(validate_download_name("..foo").is_ok());
}

#[test]
fn validate_download_name_rejects_traversal() {
    assert!(validate_download_name("../etc/passwd").is_err());
    assert!(validate_download_name("..").is_err());
}

#[test]
fn validate_download_name_rejects_absolute_paths() {
    assert!(validate_download_name("/etc/passwd").is_err());
    assert!(validate_download_name("/foo.zip").is_err());
}

#[test]
fn validate_download_name_rejects_path_separators() {
    assert!(validate_download_name("dir/file").is_err());
    assert!(validate_download_name("a/b/c").is_err());
}

#[test]
fn validate_download_name_error_messages_quote_the_name() {
    assert_eq!(
        validate_download_name("/etc/passwd"),
        Err("absolute path not allowed: \"/etc/passwd\"".to_string())
    );
    assert_eq!(
        validate_download_name("a/b"),
        Err("path separator or traversal segment: \"a/b\"".to_string())
    );
    assert!(validate_download_name("").is_err());
    assert!(validate_download_name(".").is_err());
    assert_eq!(
        validate_download_name("/a\"b"),
        Err("absolute path not allowed: \"/a\\\"b\"".to_string())
    );
}

#[test]
fn classifies_repo_files() {
    assert!(matches!(classify_repo_file_kind("README.md", ""), RepoFileKind::Markdown));
    assert!(matches!(classify_repo_file_kind("notes.MARKDOWN", ""), RepoFileKind::Markdown));
    assert!(matches!(classify_repo_file_kind("readme", ""), RepoFileKind::Markdown));
    assert!(matches!(classify_repo_file_kind("Readme.txt", ""), RepoFileKind::Markdown));
    assert!(matches!(classify_repo_file_kind("lib.rs", "fn main() {}"), RepoFileKind::Code));
    assert!(matches!(classify_repo_file_kind("data.unknownext", ""), RepoFileKind::PlainText));
    assert!(matches!(classify_repo_file_kind("notes.txt", ""), RepoFileKind::PlainText));
    assert!(matches!(classify_repo_file_kind("script.py", ""), RepoFileKind::Code));
}

fn item(source_name: &str, platform: SourcePlatform) -> FeedItem {
    FeedItem {
        id: "x".into(),
        title: "T".into(),
        source_platform: platform,
        content_type: ContentType::Paper,
        domain_tags: vec![],
        signal: SignalLevel::Primary,
        published_at: String::new(),
        authors: vec![],
        summary_short: String::new(),
        workflow_state: WorkflowState::Inbox,
        url: "u".into(),
        upvote_count: 0,
        github_repo: None,
        github_owner: None,
        github_repo_name: None,
        benchmark_results: vec![],
        full_content: None,
        source_name: source_name.into(),
        title_lower: String::new(),
        authors_lower: Vec::new(),
    }
}

#[test]
fn empty_filter_lets_everything_through() {
    let f = FilterState::new();
    assert!(f.is_empty());
    assert_eq!(f.active_count(), 0);
    assert!(f.matches(&item("openai", SourcePlatform::Rss)));
    assert!(f.matches(&item("", SourcePlatform::ArXiv)));
}

#[test]
fn filters_by_source_signal_and_state() {
    let mut f = FilterState::new();
    f.sources.insert("openai".to_string());
    assert!(f.matches(&item("openai", SourcePlatform::Rss)));
    assert!(!f.matches(&item("bair", SourcePlatform::Rss)));
    // An item without a feed name is matched by its platform label.
    f.sources.insert("arXiv".to_string());
    assert!(f.matches(&item("", SourcePlatform::ArXiv)));
    toggle_set(&mut f.signals, SignalLevel::Tertiary);
    assert!(!f.matches(&item("openai", SourcePlatform::Rss)));
    toggle_set(&mut f.signals, SignalLevel::Tertiary);
    assert!(f.matches(&item("openai", SourcePlatform::Rss)));
    toggle_set(&mut f.workflow_states, WorkflowState::Queued);
    assert!(!f.matches(&item("openai", SourcePlatform::Rss)));
    assert_eq!(f.active_count(), 3);
    assert!(!f.is_empty());
}

#[test]
fn pane_indices_are_distinct_slots() {
    let panes = [
        PaneId::Feed,
        PaneId::Reader,
        PaneId::Notes,
        PaneId::Details,
        PaneId::Chat,
        PaneId::SecondaryReader,
        PaneId::SecondaryNotes,
    ];
    let mut seen = vec![false; 7];
    for p in panes {
        let i = p.index();
        assert!(i < 7);
        assert!(!seen[i]);
        seen[i] = true;
    }
    assert!(!PaneId::Details.is_focusable());
    assert!(PaneId::Chat.is_focusable());
}

#[test]
fn extension_of_matches_std_path_on_unix_names() {
    for name in [
        "a.rs", "dir/a.tar.gz", ".bashrc", ".tar.gz", "noext", "a.", "dir/", "dir/.", "a/..", "..", ".",
        "", "/", "x/y.py/", "x/./y.md", "./z.c", "a//b.txt//", "dir.d/file", "..foo", "a/.hidden",
    ] {
        let expected = std::path::Path::new(name).extension().and_then(|e| e.to_str()).unwrap_or("");
        assert_eq!(extension_of(name), expected, "name {:?}", name);
    }
}
