//! The answer to the query for the languages and stars of every repository
//! of the viewer.

use vstd::prelude::*;

verus! {

/// The query, as a marker type.
pub struct TopLanguages;

/// The name of the operation in the query document.
pub const OPERATION_NAME: &'static str = "TopLanguages";

/// The query document.
pub const QUERY: &'static str = "query TopLanguages {\n  viewer {\n    repositories(isFork: false, first: 100) {\n      edges {\n        node {\n          name\n          stargazerCount\n          languages(first: 100) {\n            edges {\n              size\n              node {\n                name\n                color\n              }\n            }\n          }\n        }\n      }\n    }\n  }\n}\n";

/// The variables of the query.
pub struct Variables;

/// The answer to the query.
pub struct ResponseData {
    pub viewer: TopLanguagesViewer,
}

/// The user in whose name the query is made.
pub struct TopLanguagesViewer {
    pub repositories: TopLanguagesViewerRepositories,
}

/// The repositories of the viewer.
pub struct TopLanguagesViewerRepositories {
    pub edges: Option<Vec<Option<TopLanguagesViewerRepositoriesEdges>>>,
}

/// One place of the list of repositories.
pub struct TopLanguagesViewerRepositoriesEdges {
    pub node: Option<TopLanguagesViewerRepositoriesEdgesNode>,
}

/// One repository.
pub struct TopLanguagesViewerRepositoriesEdgesNode {
    pub name: String,
    pub stargazer_count: i64,
    pub languages: Option<TopLanguagesViewerRepositoriesEdgesNodeLanguages>,
}

/// The languages of a repository.
pub struct TopLanguagesViewerRepositoriesEdgesNodeLanguages {
    pub edges: Option<Vec<Option<TopLanguagesViewerRepositoriesEdgesNodeLanguagesEdges>>>,
}

/// One language of a repository, with its bytes.
pub struct TopLanguagesViewerRepositoriesEdgesNodeLanguagesEdges {
    pub size: i64,
    pub node: TopLanguagesViewerRepositoriesEdgesNodeLanguagesEdgesNode,
}

/// The name and the colour of a language.
pub struct TopLanguagesViewerRepositoriesEdgesNodeLanguagesEdgesNode {
    pub name: String,
    pub color: Option<String>,
}

} // verus!
