//! The answer to the query that lists the repositories of the viewer.

use vstd::prelude::*;

verus! {

/// The query, as a marker type.
pub struct ListRepositories;

/// The name of the operation in the query document.
pub const OPERATION_NAME: &'static str = "ListRepositories";

/// The query document.
pub const QUERY: &'static str = "# import_types: chrono::DateTime<chrono::Utc>\n# as_types: DateTime -> chrono::DateTime<chrono::Utc>\n\nquery ListRepositories {\n  viewer {\n    repositories(first: 100, orderBy: { field: PUSHED_AT, direction: DESC }) {\n      nodes {\n        id\n        name\n        isPrivate\n        isFork\n        isArchived\n        isTemplate\n        diskUsage\n        stargazerCount\n        pushedAt\n        repositoryTopics(first: 10) {\n          edges {\n            node {\n              topic {\n                name\n              }\n            }\n          }\n        }\n      }\n    }\n  }\n}\n";

/// The variables of the query.
pub struct Variables;

/// The answer to the query.
pub struct ResponseData {
    pub viewer: ListRepositoriesViewer,
}

/// The user in whose name the query is made.
pub struct ListRepositoriesViewer {
    pub repositories: ListRepositoriesViewerRepositories,
}

/// The repositories of the viewer.
pub struct ListRepositoriesViewerRepositories {
    pub nodes: Option<Vec<Option<ListRepositoriesViewerRepositoriesNodes>>>,
}

/// One repository.
pub struct ListRepositoriesViewerRepositoriesNodes {
    pub id: String,
    pub name: String,
    pub is_private: bool,
    pub is_fork: bool,
    pub is_archived: bool,
    pub is_template: bool,
    pub disk_usage: Option<i64>,
    pub stargazer_count: i64,
    pub pushed_at: Option<i64>,
    pub repository_topics: ListRepositoriesViewerRepositoriesNodesRepositoryTopics,
}

/// The topics of a repository.
pub struct ListRepositoriesViewerRepositoriesNodesRepositoryTopics {
    pub edges:
        Option<Vec<Option<ListRepositoriesViewerRepositoriesNodesRepositoryTopicsEdges>>>,
}

/// One place of the list of topics.
pub struct ListRepositoriesViewerRepositoriesNodesRepositoryTopicsEdges {
    pub node: Option<ListRepositoriesViewerRepositoriesNodesRepositoryTopicsEdgesNode>,
}

/// What stands at one place of the list of topics.
pub struct ListRepositoriesViewerRepositoriesNodesRepositoryTopicsEdgesNode {
    pub topic: ListRepositoriesViewerRepositoriesNodesRepositoryTopicsEdgesNodeTopic,
}

/// A topic.
pub struct ListRepositoriesViewerRepositoriesNodesRepositoryTopicsEdgesNodeTopic {
    pub name: String,
}

} // verus!
