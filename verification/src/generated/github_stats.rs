//! The answer to the query for repository statistics: every repository of
//! the viewer with its flags, topics, languages and commit counts.

use vstd::prelude::*;

verus! {

/// The query, as a marker type.
pub struct GitHubStats;

/// The name of the operation in the query document.
pub const OPERATION_NAME: &'static str = "GitHubStats";

/// The query document.
pub const QUERY: &'static str = "query GitHubStats($from: GitTimestamp!, $to: GitTimestamp!) {\n  viewer {\n    repositories(isFork: false, first: 100) {\n      nodes {\n        id\n        name\n        isPrivate\n        isFork\n        isArchived\n        isTemplate\n        diskUsage\n        stargazerCount\n        pushedAt\n        repositoryTopics(first: 100) {\n          edges {\n            node {\n              topic {\n                name\n              }\n            }\n          }\n        }\n        languages(first: 100) {\n          edges {\n            node {\n              name\n              color\n            }\n            size\n          }\n        }\n        defaultBranchRef {\n          target {\n            __typename\n            ... on Commit {\n              commitHistoryPeriod: history(since: $from, until: $to) {\n                totalCount\n              }\n              commitHistoryAll: history {\n                totalCount\n              }\n            }\n          }\n        }\n      }\n    }\n  }\n}\n";

/// The variables of the query.
#[derive(Debug)]
pub struct Variables {
    pub from: String,
    pub to: String,
}

/// The answer to the query.
#[derive(Debug)]
pub struct ResponseData {
    pub viewer: GitHubStatsViewer,
}

/// The user in whose name the query is made.
#[derive(Debug)]
pub struct GitHubStatsViewer {
    pub repositories: GitHubStatsViewerRepositories,
}

/// The repositories of the viewer.
#[derive(Debug)]
pub struct GitHubStatsViewerRepositories {
    pub nodes: Option<Vec<Option<GitHubStatsViewerRepositoriesNodes>>>,
}

/// One repository.
#[derive(Debug)]
pub struct GitHubStatsViewerRepositoriesNodes {
    pub id: String,
    pub name: String,
    pub is_private: bool,
    pub is_fork: bool,
    pub is_archived: bool,
    pub is_template: bool,
    pub disk_usage: Option<i64>,
    pub stargazer_count: i64,
    pub pushed_at: Option<i64>,
    pub repository_topics: GitHubStatsViewerRepositoriesNodesRepositoryTopics,
    pub languages: Option<GitHubStatsViewerRepositoriesNodesLanguages>,
    pub default_branch_ref: Option<GitHubStatsViewerRepositoriesNodesDefaultBranchRef>,
}

/// The topics of a repository.
#[derive(Debug)]
pub struct GitHubStatsViewerRepositoriesNodesRepositoryTopics {
    pub edges: Option<Vec<Option<GitHubStatsViewerRepositoriesNodesRepositoryTopicsEdges>>>,
}

/// One place of the list of topics.
#[derive(Debug)]
pub struct GitHubStatsViewerRepositoriesNodesRepositoryTopicsEdges {
    pub node: Option<GitHubStatsViewerRepositoriesNodesRepositoryTopicsEdgesNode>,
}

/// What stands at one place of the list of topics.
#[derive(Debug)]
pub struct GitHubStatsViewerRepositoriesNodesRepositoryTopicsEdgesNode {
    pub topic: GitHubStatsViewerRepositoriesNodesRepositoryTopicsEdgesNodeTopic,
}

/// A topic.
#[derive(Debug)]
pub struct GitHubStatsViewerRepositoriesNodesRepositoryTopicsEdgesNodeTopic {
    pub name: String,
}

/// The languages of a repository.
#[derive(Debug)]
pub struct GitHubStatsViewerRepositoriesNodesLanguages {
    pub edges: Option<Vec<Option<GitHubStatsViewerRepositoriesNodesLanguagesEdges>>>,
}

/// One language of a repository, with its bytes.
#[derive(Debug)]
pub struct GitHubStatsViewerRepositoriesNodesLanguagesEdges {
    pub node: GitHubStatsViewerRepositoriesNodesLanguagesEdgesNode,
    pub size: i64,
}

/// The name and the colour of a language.
#[derive(Debug)]
pub struct GitHubStatsViewerRepositoriesNodesLanguagesEdgesNode {
    pub name: String,
    pub color: Option<String>,
}

/// The default branch of a repository.
#[derive(Debug)]
pub struct GitHubStatsViewerRepositoriesNodesDefaultBranchRef {
    pub target: Option<GitHubStatsViewerRepositoriesNodesDefaultBranchRefTarget>,
}

/// What the default branch points at.
#[derive(Debug)]
pub enum GitHubStatsViewerRepositoriesNodesDefaultBranchRefTarget {
    Blob,
    Commit(GitHubStatsViewerRepositoriesNodesDefaultBranchRefTargetOnCommit),
    Tag,
    Tree,
}

/// The commit that the default branch points at, with its two histories.
#[derive(Debug)]
pub struct GitHubStatsViewerRepositoriesNodesDefaultBranchRefTargetOnCommit {
    pub commit_history_period:
        GitHubStatsViewerRepositoriesNodesDefaultBranchRefTargetOnCommitCommitHistoryPeriod,
    pub commit_history_all:
        GitHubStatsViewerRepositoriesNodesDefaultBranchRefTargetOnCommitCommitHistoryAll,
}

/// The commits of the recent window.
#[derive(Debug)]
pub struct GitHubStatsViewerRepositoriesNodesDefaultBranchRefTargetOnCommitCommitHistoryPeriod {
    pub total_count: i64,
}

/// The commits of the whole history.
#[derive(Debug)]
pub struct GitHubStatsViewerRepositoriesNodesDefaultBranchRefTargetOnCommitCommitHistoryAll {
    pub total_count: i64,
}

} // verus!
