//! The answer to the query for the languages of every repository of the viewer.

use vstd::prelude::*;

verus! {

/// The query, as a marker type.
pub struct GithubStats;

/// The name of the operation in the query document.
pub const OPERATION_NAME: &'static str = "GithubStats";

/// The query document.
pub const QUERY: &'static str = "query GithubStats {\n  viewer {\n    repositories(first: 100) {\n      edges {\n        node {\n          name\n          languages(first: 100) {\n            edges {\n              size\n              node {\n                name\n                color\n              }\n            }\n          }\n        }\n      }\n    }\n  }\n}\n";

/// The variables of the query.
pub struct Variables;

/// The answer to the query.
pub struct ResponseData {
    pub viewer: GithubStatsViewer,
}

/// The user in whose name the query is made.
pub struct GithubStatsViewer {
    pub repositories: GithubStatsViewerRepositories,
}

/// The repositories of the viewer.
pub struct GithubStatsViewerRepositories {
    pub edges: Option<Vec<Option<GithubStatsViewerRepositoriesEdges>>>,
}

/// One place of the list of repositories.
pub struct GithubStatsViewerRepositoriesEdges {
    pub node: Option<GithubStatsViewerRepositoriesEdgesNode>,
}

/// One repository.
pub struct GithubStatsViewerRepositoriesEdgesNode {
    pub name: String,
    pub languages: Option<GithubStatsViewerRepositoriesEdgesNodeLanguages>,
}

/// The languages of a repository.
pub struct GithubStatsViewerRepositoriesEdgesNodeLanguages {
    pub edges: Option<Vec<Option<GithubStatsViewerRepositoriesEdgesNodeLanguagesEdges>>>,
}

/// One language of a repository, with its bytes.
pub struct GithubStatsViewerRepositoriesEdgesNodeLanguagesEdges {
    pub size: i64,
    pub node: GithubStatsViewerRepositoriesEdgesNodeLanguagesEdgesNode,
}

/// The name and the colour of a language.
pub struct GithubStatsViewerRepositoriesEdgesNodeLanguagesEdgesNode {
    pub name: String,
    pub color: Option<String>,
}

} // verus!
