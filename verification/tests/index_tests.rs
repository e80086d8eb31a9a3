use trench::merge::FeedStore;
use trench::models::{arxiv_id_from_url, ContentType, FeedItem, SignalLevel, SourcePlatform, WorkflowState};
use trench::models::SourcePlatform::{ArXiv, Blog, Newsletter, Twitter};
use trench::models::WorkflowState::{Archived, DeepRead, Inbox, Queued};

fn mock(id: &str, platform: SourcePlatform, date: &str, state: WorkflowState, url: &str) -> FeedItem {
    FeedItem {
        id: id.into(),
        title: format!("item {id}"),
        source_platform: platform,
        content_type: ContentType::Paper,
        domain_tags: vec![],
        signal: SignalLevel::Primary,
        published_at: date.into(),
        authors: vec![],
        summary_short: String::new(),
        workflow_state: state,
        url: url.into(),
        upvote_count: 0,
        github_repo: None,
        github_owner: None,
        github_repo_name: None,
        benchmark_results: vec![],
        full_content: None,
        source_name: String::new(),
        title_lower: String::new(),
        authors_lower: Vec::new(),
    }
}

fn mock_items() -> Vec<FeedItem> {
    vec![
        mock("1", ArXiv, "2026-03-15", Inbox, "https://arxiv.org/abs/2603.00001"),
        mock("2", ArXiv, "2026-03-14", Queued, "https://arxiv.org/abs/2603.00002"),
        mock("3", Twitter, "2026-03-13", Inbox, "https://twitter.com/tri_dao/status/000001"),
        mock("4", Blog, "2026-03-12", Inbox, "https://hamel.dev/blog/rag-prod"),
        mock("5", Blog, "2026-03-11", DeepRead, "https://github.com/allenai/open-instruct"),
        mock("6", Newsletter, "2026-03-10", Archived, "https://deeplearning.ai/the-batch/issue-247"),
        mock("7", ArXiv, "2026-03-09", Queued, "https://arxiv.org/abs/2212.08073"),
        mock("8", Blog, "2026-03-08", Inbox, "https://jasonwei.net/blog/evals-culture"),
        mock("9", Blog, "2026-03-07", Inbox, "https://github.com/vllm-project/vllm/releases/v0.5"),
        mock("10", Newsletter, "2026-03-06", Queued, "https://magazine.sebastianraschka.com/p/moe-guide"),
        mock("11", Twitter, "2026-03-05", Inbox, "https://twitter.com/GregKamradt/status/000002"),
        mock("12", ArXiv, "2026-03-04", DeepRead, "https://arxiv.org/abs/2208.07339"),
        mock("13", ArXiv, "2026-03-03", Archived, "https://arxiv.org/abs/2302.04761"),
        mock("14", Blog, "2026-03-02", Inbox, "https://huggingface.co/blog/grpo-vs-ppo"),
        mock("15", Blog, "2026-03-01", Inbox, "https://github.com/OpenAccess-AI-Collective/axolotl"),
    ]
}

#[test]
fn rebuild_indices_maps_every_item() {
    let mut store = FeedStore::new(Vec::new());
    store.items = mock_items();
    let item_count = store.items.len();
    store.rebuild_indices();
    assert_eq!(store.url_index.len(), item_count);
    for (idx, item) in store.items.iter().enumerate() {
        assert_eq!(store.url_index.get(&item.url), Some(idx));
    }
    for (idx, item) in store.items.iter().enumerate() {
        if let Some(aid) = arxiv_id_from_url(&item.url) {
            assert_eq!(store.aid_index.get(aid), Some(idx));
        }
    }
}

#[test]
fn rebuild_indices_clears_stale_entries() {
    let mut store = FeedStore::new(Vec::new());
    store.items = mock_items();
    store.rebuild_indices();
    let prior = store.url_index.len();
    store.items.truncate(prior / 2);
    store.rebuild_indices();
    assert_eq!(store.url_index.len(), prior / 2);
}

#[test]
fn rebuilt_arxiv_table_covers_only_arxiv_urls() {
    let mut store = FeedStore::new(mock_items());
    store.rebuild_indices();
    assert_eq!(store.aid_index.len(), 5);
    assert_eq!(store.aid_index.get("2212.08073"), Some(6));
    assert_eq!(store.aid_index.get("2603.00003"), None);
}
