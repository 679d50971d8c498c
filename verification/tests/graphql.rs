use github_stats_generator::generated::github_stats::{
    GitHubStatsViewer, GitHubStatsViewerRepositories, GitHubStatsViewerRepositoriesNodes,
    GitHubStatsViewerRepositoriesNodesDefaultBranchRef,
    GitHubStatsViewerRepositoriesNodesDefaultBranchRefTarget,
    GitHubStatsViewerRepositoriesNodesDefaultBranchRefTargetOnCommit,
    GitHubStatsViewerRepositoriesNodesDefaultBranchRefTargetOnCommitCommitHistoryAll,
    GitHubStatsViewerRepositoriesNodesDefaultBranchRefTargetOnCommitCommitHistoryPeriod,
    GitHubStatsViewerRepositoriesNodesLanguages, GitHubStatsViewerRepositoriesNodesLanguagesEdges,
    GitHubStatsViewerRepositoriesNodesLanguagesEdgesNode,
    GitHubStatsViewerRepositoriesNodesRepositoryTopics,
    GitHubStatsViewerRepositoriesNodesRepositoryTopicsEdges,
    GitHubStatsViewerRepositoriesNodesRepositoryTopicsEdgesNode,
    GitHubStatsViewerRepositoriesNodesRepositoryTopicsEdgesNodeTopic, ResponseData,
};
use github_stats_generator::graphql::{
    get_commit_count, normalize, UNKNOWN_DISK_USAGE, UNKNOWN_PUSH_TIME,
};

fn commit(all: i64, period: i64) -> Option<GitHubStatsViewerRepositoriesNodesDefaultBranchRef> {
    Some(GitHubStatsViewerRepositoriesNodesDefaultBranchRef {
        target: Some(GitHubStatsViewerRepositoriesNodesDefaultBranchRefTarget::Commit(
            GitHubStatsViewerRepositoriesNodesDefaultBranchRefTargetOnCommit {
                commit_history_period:
                    GitHubStatsViewerRepositoriesNodesDefaultBranchRefTargetOnCommitCommitHistoryPeriod {
                        total_count: period,
                    },
                commit_history_all:
                    GitHubStatsViewerRepositoriesNodesDefaultBranchRefTargetOnCommitCommitHistoryAll {
                        total_count: all,
                    },
            },
        )),
    })
}

fn topic(name: &str) -> Option<GitHubStatsViewerRepositoriesNodesRepositoryTopicsEdges> {
    Some(GitHubStatsViewerRepositoriesNodesRepositoryTopicsEdges {
        node: Some(GitHubStatsViewerRepositoriesNodesRepositoryTopicsEdgesNode {
            topic: GitHubStatsViewerRepositoriesNodesRepositoryTopicsEdgesNodeTopic {
                name: name.to_string(),
            },
        }),
    })
}

fn lang(name: &str, color: Option<&str>, size: i64) -> Option<GitHubStatsViewerRepositoriesNodesLanguagesEdges> {
    Some(GitHubStatsViewerRepositoriesNodesLanguagesEdges {
        node: GitHubStatsViewerRepositoriesNodesLanguagesEdgesNode {
            name: name.to_string(),
            color: color.map(|c| c.to_string()),
        },
        size,
    })
}

fn bare_node(name: &str) -> GitHubStatsViewerRepositoriesNodes {
    GitHubStatsViewerRepositoriesNodes {
        id: format!("id-{}", name),
        name: name.to_string(),
        is_private: false,
        is_fork: false,
        is_archived: false,
        is_template: false,
        disk_usage: None,
        stargazer_count: 0,
        pushed_at: None,
        repository_topics: GitHubStatsViewerRepositoriesNodesRepositoryTopics { edges: None },
        languages: None,
        default_branch_ref: None,
    }
}

fn answer(nodes: Option<Vec<Option<GitHubStatsViewerRepositoriesNodes>>>) -> ResponseData {
    ResponseData { viewer: GitHubStatsViewer { repositories: GitHubStatsViewerRepositories { nodes } } }
}

#[test]
fn commits_are_reported_by_a_branch_that_points_at_a_commit() {
    assert_eq!(get_commit_count(commit(120, 7)), Some((120, 7)));
    assert_eq!(get_commit_count(commit(0, 0)), Some((0, 0)));
}

#[test]
fn no_commits_are_reported_otherwise() {
    assert_eq!(get_commit_count(None), None);
    assert_eq!(
        get_commit_count(Some(GitHubStatsViewerRepositoriesNodesDefaultBranchRef { target: None })),
        None
    );
    for target in [
        GitHubStatsViewerRepositoriesNodesDefaultBranchRefTarget::Blob,
        GitHubStatsViewerRepositoriesNodesDefaultBranchRefTarget::Tag,
        GitHubStatsViewerRepositoriesNodesDefaultBranchRefTarget::Tree,
    ] {
        assert_eq!(
            get_commit_count(Some(GitHubStatsViewerRepositoriesNodesDefaultBranchRef {
                target: Some(target)
            })),
            None
        );
    }
}

#[test]
fn an_answer_without_nodes_gives_no_records() {
    assert!(normalize(answer(None)).is_empty());
    assert!(normalize(answer(Some(vec![]))).is_empty());
    assert!(normalize(answer(Some(vec![None, None]))).is_empty());
}

#[test]
fn a_bare_node_is_filled_in() {
    let records = normalize(answer(Some(vec![Some(bare_node("a"))])));
    assert_eq!(records.len(), 1);
    let r = &records[0];
    assert_eq!(r.id, "id-a");
    assert_eq!(r.name, "a");
    assert_eq!(r.disk_usage, -1);
    assert_eq!(r.disk_usage, UNKNOWN_DISK_USAGE);
    assert_eq!(r.pushed_at, 253_402_214_400);
    assert_eq!(r.pushed_at, UNKNOWN_PUSH_TIME);
    assert!(r.topics.is_empty());
    assert!(r.languages.is_empty());
    assert_eq!(r.total_commit_count, 0);
    assert_eq!(r.period_commit_count, 0);
    assert!(!r.is_private && !r.is_fork && !r.is_archived && !r.is_template);
}

#[test]
fn a_full_node_is_copied() {
    let mut node = bare_node("full");
    node.is_private = true;
    node.is_fork = true;
    node.is_archived = true;
    node.is_template = true;
    node.disk_usage = Some(321);
    node.stargazer_count = 17;
    node.pushed_at = Some(1_700_000_000);
    node.repository_topics = GitHubStatsViewerRepositoriesNodesRepositoryTopics {
        edges: Some(vec![
            topic("cli"),
            None,
            Some(GitHubStatsViewerRepositoriesNodesRepositoryTopicsEdges { node: None }),
            topic("svg"),
        ]),
    };
    node.languages = Some(GitHubStatsViewerRepositoriesNodesLanguages {
        edges: Some(vec![lang("Rust", Some("#dea584"), 900), None, lang("Shell", None, 10)]),
    });
    node.default_branch_ref = commit(250, 12);
    let records = normalize(answer(Some(vec![Some(node)])));
    let r = &records[0];
    assert!(r.is_private && r.is_fork && r.is_archived && r.is_template);
    assert_eq!(r.disk_usage, 321);
    assert_eq!(r.stargazer_count, 17);
    assert_eq!(r.pushed_at, 1_700_000_000);
    assert_eq!(r.topics, vec!["cli".to_string(), "svg".to_string()]);
    let languages: Vec<(&str, &str, i64)> =
        r.languages.iter().map(|l| (l.name.as_str(), l.color.as_str(), l.size)).collect();
    assert_eq!(languages, vec![("Rust", "#dea584", 900), ("Shell", "red", 10)]);
    assert_eq!(r.total_commit_count, 250);
    assert_eq!(r.period_commit_count, 12);
}

#[test]
fn nodes_keep_their_order_and_missing_ones_are_dropped() {
    let mut no_edges = bare_node("c");
    no_edges.languages = Some(GitHubStatsViewerRepositoriesNodesLanguages { edges: None });
    no_edges.default_branch_ref =
        Some(GitHubStatsViewerRepositoriesNodesDefaultBranchRef { target: None });
    let records = normalize(answer(Some(vec![
        Some(bare_node("a")),
        None,
        Some(bare_node("b")),
        Some(no_edges),
    ])));
    let names: Vec<&str> = records.iter().map(|r| r.name.as_str()).collect();
    assert_eq!(names, vec!["a", "b", "c"]);
    assert!(records[2].languages.is_empty());
    assert_eq!(records[2].total_commit_count, 0);
}
