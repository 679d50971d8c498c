//! Repository records: what is known of each repository before
//! aggregation.

use vstd::prelude::*;
use crate::generated::github_stats::{
    GitHubStatsViewerRepositoriesNodes, GitHubStatsViewerRepositoriesNodesDefaultBranchRef,
    GitHubStatsViewerRepositoriesNodesDefaultBranchRefTarget,
    GitHubStatsViewerRepositoriesNodesLanguagesEdges,
    GitHubStatsViewerRepositoriesNodesRepositoryTopicsEdges, ResponseData,
};

verus! {

/// The push time given to a repository that reports none: the start of the
/// last day of the year 9999, in seconds since the epoch.
pub const UNKNOWN_PUSH_TIME: i64 = 253_402_214_400;

/// The disk usage given to a repository that reports none.
pub const UNKNOWN_DISK_USAGE: i64 = -1;

/// The colour given to a language that has none of its own.
pub const DEFAULT_COLOR: &'static str = "red";

/// The envelope of an answer: what was asked for stands under `data`.
pub struct GraphQLResponse<T> {
    pub data: T,
}

/// One language of a repository and the bytes written in it.
#[derive(Debug, Clone)]
pub struct RepositoryLanguage {
    pub name: String,
    pub color: String,
    pub size: i64,
}

/// A language of a repository, as plain values.
pub struct LanguageView {
    pub name: Seq<char>,
    pub color: Seq<char>,
    pub size: int,
}

impl View for RepositoryLanguage {
    type V = LanguageView;

    open spec fn view(&self) -> LanguageView {
        LanguageView { name: self.name@, color: self.color@, size: self.size as int }
    }
}

/// One repository, normalised.
#[derive(Debug, Clone)]
pub struct RepositoryStat {
    pub id: String,
    pub name: String,
    pub is_private: bool,
    pub is_fork: bool,
    pub is_archived: bool,
    pub is_template: bool,
    pub disk_usage: i64,
    pub stargazer_count: i64,
    /// Seconds since the epoch.
    pub pushed_at: i64,
    pub topics: Vec<String>,
    pub languages: Vec<RepositoryLanguage>,
    pub total_commit_count: i64,
    pub period_commit_count: i64,
}

/// A repository record, as plain values.
pub struct RepositoryView {
    pub id: Seq<char>,
    pub name: Seq<char>,
    pub is_private: bool,
    pub is_fork: bool,
    pub is_archived: bool,
    pub is_template: bool,
    pub disk_usage: int,
    pub stargazer_count: int,
    pub pushed_at: int,
    pub topics: Seq<Seq<char>>,
    pub languages: Seq<LanguageView>,
    pub total_commit_count: int,
    pub period_commit_count: int,
}

/// The names in a list, as plain values.
pub open spec fn names_view(names: Seq<String>) -> Seq<Seq<char>> {
    Seq::new(names.len(), |i: int| names[i]@)
}

/// The languages in a list, as plain values.
pub open spec fn languages_view(languages: Seq<RepositoryLanguage>) -> Seq<LanguageView> {
    Seq::new(languages.len(), |i: int| languages[i]@)
}

/// The records in a list, as plain values.
pub open spec fn records_view(records: Seq<RepositoryStat>) -> Seq<RepositoryView> {
    Seq::new(records.len(), |i: int| records[i]@)
}

impl View for RepositoryStat {
    type V = RepositoryView;

    open spec fn view(&self) -> RepositoryView {
        RepositoryView {
            id: self.id@,
            name: self.name@,
            is_private: self.is_private,
            is_fork: self.is_fork,
            is_archived: self.is_archived,
            is_template: self.is_template,
            disk_usage: self.disk_usage as int,
            stargazer_count: self.stargazer_count as int,
            pushed_at: self.pushed_at as int,
            topics: names_view(self.topics@),
            languages: languages_view(self.languages@),
            total_commit_count: self.total_commit_count as int,
            period_commit_count: self.period_commit_count as int,
        }
    }
}

/// The commits that a default branch reports: those of its whole history
/// and those of the recent window. There are none to report unless the
/// branch exists and points at a commit.
pub open spec fn reported_commits(
    branch_ref: Option<GitHubStatsViewerRepositoriesNodesDefaultBranchRef>,
) -> Option<(i64, i64)> {
    match branch_ref {
        Some(branch) => match branch.target {
            Some(GitHubStatsViewerRepositoriesNodesDefaultBranchRefTarget::Commit(commit)) => Some(
                (commit.commit_history_all.total_count, commit.commit_history_period.total_count),
            ),
            _ => None,
        },
        None => None,
    }
}

/// The names of the topics in a list of edges; an edge that is missing or
/// has no node gives none.
pub open spec fn topic_names(
    edges: Seq<Option<GitHubStatsViewerRepositoriesNodesRepositoryTopicsEdges>>,
) -> Seq<Seq<char>>
    decreases edges.len(),
{
    if edges.len() == 0 {
        Seq::<Seq<char>>::empty()
    } else {
        let before = topic_names(edges.drop_last());
        match edges.last() {
            Some(edge) => match edge.node {
                Some(node) => before.push(node.topic.name@),
                None => before,
            },
            None => before,
        }
    }
}

/// The language that an edge stands for; one without a colour gets the
/// default colour.
pub open spec fn edge_language(
    edge: GitHubStatsViewerRepositoriesNodesLanguagesEdges,
) -> LanguageView {
    LanguageView {
        name: edge.node.name@,
        color: match edge.node.color {
            Some(color) => color@,
            None => DEFAULT_COLOR@,
        },
        size: edge.size as int,
    }
}

/// The languages in a list of edges; a missing edge gives none.
pub open spec fn edge_languages(
    edges: Seq<Option<GitHubStatsViewerRepositoriesNodesLanguagesEdges>>,
) -> Seq<LanguageView>
    decreases edges.len(),
{
    if edges.len() == 0 {
        Seq::<LanguageView>::empty()
    } else {
        let before = edge_languages(edges.drop_last());
        match edges.last() {
            Some(edge) => before.push(edge_language(edge)),
            None => before,
        }
    }
}

/// The edges of an optional list; a missing list has none.
pub open spec fn listed<T>(list: Option<Vec<T>>) -> Seq<T> {
    match list {
        Some(items) => items@,
        None => Seq::<T>::empty(),
    }
}

/// The record of one repository of the answer.
pub open spec fn node_record(node: GitHubStatsViewerRepositoriesNodes) -> RepositoryView {
    RepositoryView {
        id: node.id@,
        name: node.name@,
        is_private: node.is_private,
        is_fork: node.is_fork,
        is_archived: node.is_archived,
        is_template: node.is_template,
        disk_usage: match node.disk_usage {
            Some(usage) => usage as int,
            None => UNKNOWN_DISK_USAGE as int,
        },
        stargazer_count: node.stargazer_count as int,
        pushed_at: match node.pushed_at {
            Some(time) => time as int,
            None => UNKNOWN_PUSH_TIME as int,
        },
        topics: topic_names(listed(node.repository_topics.edges)),
        languages: match node.languages {
            Some(languages) => edge_languages(listed(languages.edges)),
            None => Seq::<LanguageView>::empty(),
        },
        total_commit_count: match reported_commits(node.default_branch_ref) {
            Some(counts) => counts.0 as int,
            None => 0,
        },
        period_commit_count: match reported_commits(node.default_branch_ref) {
            Some(counts) => counts.1 as int,
            None => 0,
        },
    }
}

/// The records of a list of repositories; a missing one gives none.
pub open spec fn node_records(
    nodes: Seq<Option<GitHubStatsViewerRepositoriesNodes>>,
) -> Seq<RepositoryView>
    decreases nodes.len(),
{
    if nodes.len() == 0 {
        Seq::<RepositoryView>::empty()
    } else {
        let before = node_records(nodes.drop_last());
        match nodes.last() {
            Some(node) => before.push(node_record(node)),
            None => before,
        }
    }
}

/// The commits of the whole history and of the recent window, if the
/// default branch exists and points at a commit.
pub fn get_commit_count(
    branch_ref: Option<GitHubStatsViewerRepositoriesNodesDefaultBranchRef>,
) -> (counts: Option<(i64, i64)>)
    ensures
        counts == reported_commits(branch_ref),
{
    let branch = branch_ref?;
    let target = branch.target?;
    match target {
        GitHubStatsViewerRepositoriesNodesDefaultBranchRefTarget::Commit(commit) => Some(
            (commit.commit_history_all.total_count, commit.commit_history_period.total_count),
        ),
        _ => None,
    }
}

/// The names of the topics of a repository.
fn collect_topics(
    edges: &Option<Vec<Option<GitHubStatsViewerRepositoriesNodesRepositoryTopicsEdges>>>,
) -> (topics: Vec<String>)
    ensures
        names_view(topics@) == topic_names(listed(*edges)),
{
    let mut topics: Vec<String> = Vec::new();
    assert(names_view(topics@) =~= Seq::<Seq<char>>::empty());
    match edges {
        Some(edges) => {
            let mut i: usize = 0;
            assert(edges@.take(0) =~= Seq::empty());
            while i < edges.len()
                invariant
                    i <= edges.len(),
                    names_view(topics@) == topic_names(edges@.take(i as int)),
                decreases edges.len() - i,
            {
                proof {
                    assert(edges@.take(i + 1).drop_last() =~= edges@.take(i as int));
                    assert(edges@.take(i + 1).last() == edges@[i as int]);
                }
                let ghost before = names_view(topics@);
                match &edges[i] {
                    Some(edge) => match &edge.node {
                        Some(node) => {
                            topics.push(node.topic.name.clone());
                            assert(names_view(topics@) =~= before.push(node.topic.name@));
                        },
                        None => {},
                    },
                    None => {},
                }
                i += 1;
            }
            assert(edges@.take(i as int) =~= edges@);
        },
        None => {},
    }
    topics
}

/// The languages of a repository.
fn collect_languages(
    edges: &Option<Vec<Option<GitHubStatsViewerRepositoriesNodesLanguagesEdges>>>,
) -> (languages: Vec<RepositoryLanguage>)
    ensures
        languages_view(languages@) == edge_languages(listed(*edges)),
{
    let mut languages: Vec<RepositoryLanguage> = Vec::new();
    assert(languages_view(languages@) =~= Seq::<LanguageView>::empty());
    match edges {
        Some(edges) => {
            let mut i: usize = 0;
            assert(edges@.take(0) =~= Seq::empty());
            while i < edges.len()
                invariant
                    i <= edges.len(),
                    languages_view(languages@) == edge_languages(edges@.take(i as int)),
                decreases edges.len() - i,
            {
                proof {
                    assert(edges@.take(i + 1).drop_last() =~= edges@.take(i as int));
                    assert(edges@.take(i + 1).last() == edges@[i as int]);
                }
                let ghost before = languages_view(languages@);
                match &edges[i] {
                    Some(edge) => {
                        let color = match &edge.node.color {
                            Some(color) => color.clone(),
                            None => String::from_str(DEFAULT_COLOR),
                        };
                        languages.push(
                            RepositoryLanguage {
                                name: edge.node.name.clone(),
                                color,
                                size: edge.size,
                            },
                        );
                        assert(languages_view(languages@) =~= before.push(edge_language(*edge)));
                    },
                    None => {},
                }
                i += 1;
            }
            assert(edges@.take(i as int) =~= edges@);
        },
        None => {},
    }
    languages
}

/// The record of one repository of the answer.
fn normalize_node(node: &GitHubStatsViewerRepositoriesNodes) -> (record: RepositoryStat)
    ensures
        record@ == node_record(*node),
{
    let topics = collect_topics(&node.repository_topics.edges);
    let languages = match &node.languages {
        Some(languages) => collect_languages(&languages.edges),
        None => {
            let none: Vec<RepositoryLanguage> = Vec::new();
            assert(languages_view(none@) =~= Seq::<LanguageView>::empty());
            none
        },
    };
    let counts = match &node.default_branch_ref {
        Some(branch) => match &branch.target {
            Some(GitHubStatsViewerRepositoriesNodesDefaultBranchRefTarget::Commit(commit)) => (
                commit.commit_history_all.total_count,
                commit.commit_history_period.total_count,
            ),
            _ => (0, 0),
        },
        None => (0, 0),
    };
    RepositoryStat {
        id: node.id.clone(),
        name: node.name.clone(),
        is_private: node.is_private,
        is_fork: node.is_fork,
        is_archived: node.is_archived,
        is_template: node.is_template,
        disk_usage: match node.disk_usage {
            Some(usage) => usage,
            None => UNKNOWN_DISK_USAGE,
        },
        stargazer_count: node.stargazer_count,
        pushed_at: match node.pushed_at {
            Some(time) => time,
            None => UNKNOWN_PUSH_TIME,
        },
        topics,
        languages,
        total_commit_count: counts.0,
        period_commit_count: counts.1,
    }
}

/// Flattens the answer into one record for each repository that is there,
/// in the order of the answer. What a repository does not report is
/// filled in: no topics, no languages, no commits, the default colour, and
/// the values that stand for an unknown disk usage and push time.
pub fn normalize(response: ResponseData) -> (records: Vec<RepositoryStat>)
    ensures
        records_view(records@) == node_records(listed(response.viewer.repositories.nodes)),
{
    let mut records: Vec<RepositoryStat> = Vec::new();
    assert(records_view(records@) =~= Seq::<RepositoryView>::empty());
    match &response.viewer.repositories.nodes {
        Some(nodes) => {
            let mut i: usize = 0;
            assert(nodes@.take(0) =~= Seq::empty());
            while i < nodes.len()
                invariant
                    i <= nodes.len(),
                    records_view(records@) == node_records(nodes@.take(i as int)),
                decreases nodes.len() - i,
            {
                proof {
                    assert(nodes@.take(i + 1).drop_last() =~= nodes@.take(i as int));
                    assert(nodes@.take(i + 1).last() == nodes@[i as int]);
                }
                let ghost before = records_view(records@);
                match &nodes[i] {
                    Some(node) => {
                        records.push(normalize_node(node));
                        assert(records_view(records@) =~= before.push(node_record(*node)));
                    },
                    None => {},
                }
                i += 1;
            }
            assert(nodes@.take(i as int) =~= nodes@);
        },
        None => {},
    }
    records
}

} // verus!
