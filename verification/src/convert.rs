//! From the answer of the language query to one entry for each language.

use vstd::prelude::*;
use crate::aggregate::{
    distinct_names, entries_size, lemma_entry_sum_not_negative, lemma_merged, merge_language,
    merged, sizes_not_negative,
};
use crate::graphql::DEFAULT_COLOR;
use crate::generated::query::{
    GithubStatsViewerRepositoriesEdges, GithubStatsViewerRepositoriesEdgesNodeLanguagesEdges,
    ResponseData,
};
use crate::renderer::{entries_view, EntryView, LanguageSummaryValue};
use crate::AppError;

verus! {

/// A language with the bytes of all repositories, and its share of the
/// whole in billionths of a percent once that is known.
#[derive(Debug)]
pub struct SvgData {
    pub name: String,
    pub size: i64,
    pub ratio: u64,
    pub color: String,
}

impl View for SvgData {
    type V = EntryView;

    open spec fn view(&self) -> EntryView {
        EntryView { name: self.name@, color: self.color@, size: self.size as int }
    }
}

/// The entries in a list, as plain values.
pub open spec fn svg_data_view(data: Seq<SvgData>) -> Seq<EntryView> {
    Seq::new(data.len(), |i: int| data[i]@)
}

/// The name of the language that is left out.
pub const SKIPPED_LANGUAGE: &'static str = "HTML";

/// The colour of a language edge: its own, or the default colour if it has
/// none.
pub open spec fn edge_color(
    edge: GithubStatsViewerRepositoriesEdgesNodeLanguagesEdges,
) -> Seq<char> {
    match edge.node.color {
        Some(color) => color@,
        None => DEFAULT_COLOR@,
    }
}

/// The entries after one language edge: `None` once an edge is missing or
/// a size is out of range. The skipped language changes nothing, whatever
/// else its edge holds. Any other language needs a size that is not
/// negative and keeps the sum within a signed 64-bit integer; it is added
/// under its name, with its colour or, if it has none, the default colour.
pub open spec fn with_language_edge(
    entries: Option<Seq<EntryView>>,
    edge: Option<GithubStatsViewerRepositoriesEdgesNodeLanguagesEdges>,
) -> Option<Seq<EntryView>> {
    match (entries, edge) {
        (Some(entries), Some(edge)) => {
            if edge.node.name@ == SKIPPED_LANGUAGE@ {
                Some(entries)
            } else {
                if edge.size >= 0 && entries_size(entries) + edge.size <= i64::MAX {
                    Some(merged(entries, edge.node.name@, edge_color(edge), edge.size as int))
                } else {
                    None
                }
            }
        },
        _ => None,
    }
}

/// The entries after the language edges of one repository.
pub open spec fn with_language_edges(
    entries: Option<Seq<EntryView>>,
    edges: Seq<Option<GithubStatsViewerRepositoriesEdgesNodeLanguagesEdges>>,
) -> Option<Seq<EntryView>>
    decreases edges.len(),
{
    if edges.len() == 0 {
        entries
    } else {
        with_language_edge(with_language_edges(entries, edges.drop_last()), edges.last())
    }
}

/// The language edges of a repository edge, if the edge, its node, the
/// languages of the node and their edges are all there.
pub open spec fn language_edges(edge: Option<GithubStatsViewerRepositoriesEdges>) -> Option<
    Seq<Option<GithubStatsViewerRepositoriesEdgesNodeLanguagesEdges>>,
> {
    match edge {
        Some(edge) => match edge.node {
            Some(node) => match node.languages {
                Some(languages) => match languages.edges {
                    Some(edges) => Some(edges@),
                    None => None,
                },
                None => None,
            },
            None => None,
        },
        None => None,
    }
}

/// The entries after the repositories of a list.
pub open spec fn with_repository_edges(
    entries: Option<Seq<EntryView>>,
    edges: Seq<Option<GithubStatsViewerRepositoriesEdges>>,
) -> Option<Seq<EntryView>>
    decreases edges.len(),
{
    if edges.len() == 0 {
        entries
    } else {
        let before = with_repository_edges(entries, edges.drop_last());
        match language_edges(edges.last()) {
            Some(languages) => with_language_edges(before, languages),
            None => None,
        }
    }
}

/// The entries of an answer: one for each language but the skipped one, in
/// the order in which the languages are first met, with the colour first
/// met; or `None` if a part of the answer is missing or a size is out of
/// range.
pub open spec fn answer_entries(stats: ResponseData) -> Option<Seq<EntryView>> {
    match stats.viewer.repositories.edges {
        Some(edges) => with_repository_edges(Some(Seq::<EntryView>::empty()), edges@),
        None => None,
    }
}

/// Whether every language edge of the list is there.
pub open spec fn languages_present(
    edges: Seq<Option<GithubStatsViewerRepositoriesEdgesNodeLanguagesEdges>>,
) -> bool {
    forall|j: int| 0 <= j < edges.len() ==> (#[trigger] edges[j]) is Some
}

/// Whether a language edge is there and counts: it is not of the skipped
/// language.
pub open spec fn edge_counts(
    edge: Option<GithubStatsViewerRepositoriesEdgesNodeLanguagesEdges>,
) -> bool {
    edge is Some && edge->0.node.name@ != SKIPPED_LANGUAGE@
}

/// Whether no language edge that counts has a negative size.
pub open spec fn edge_sizes_not_negative(
    edges: Seq<Option<GithubStatsViewerRepositoriesEdgesNodeLanguagesEdges>>,
) -> bool {
    forall|j: int|
        0 <= j < edges.len() && edge_counts(#[trigger] edges[j]) ==> edges[j]->0.size >= 0
}

/// The bytes of the language edges that count.
pub open spec fn counted_edge_size(
    edges: Seq<Option<GithubStatsViewerRepositoriesEdgesNodeLanguagesEdges>>,
) -> int
    decreases edges.len(),
{
    if edges.len() == 0 {
        0
    } else {
        counted_edge_size(edges.drop_last()) + if edge_counts(edges.last()) {
            edges.last()->0.size as int
        } else {
            0
        }
    }
}

/// Whether every part of a list of repositories is there: each repository
/// edge with its node, its languages and their list, and each language
/// edge in it.
pub open spec fn repositories_present(
    edges: Seq<Option<GithubStatsViewerRepositoriesEdges>>,
) -> bool {
    forall|i: int|
        0 <= i < edges.len() ==> language_edges(#[trigger] edges[i]) is Some && languages_present(
            language_edges(edges[i])->0,
        )
}

/// Whether no language that counts has a negative size, in any repository
/// of the list whose parts are there.
pub open spec fn repository_sizes_not_negative(
    edges: Seq<Option<GithubStatsViewerRepositoriesEdges>>,
) -> bool {
    forall|i: int|
        0 <= i < edges.len() && language_edges(#[trigger] edges[i]) is Some
            ==> edge_sizes_not_negative(language_edges(edges[i])->0)
}

/// The bytes of the languages that count, in the repositories of the list
/// whose parts are there.
pub open spec fn counted_repository_size(
    edges: Seq<Option<GithubStatsViewerRepositoriesEdges>>,
) -> int
    decreases edges.len(),
{
    if edges.len() == 0 {
        0
    } else {
        counted_repository_size(edges.drop_last()) + match language_edges(edges.last()) {
            Some(languages) => counted_edge_size(languages),
            None => 0,
        }
    }
}

/// Whether an answer can be converted: every part of it is there, no
/// language that counts has a negative size, and the bytes of the
/// languages that count add up within a signed 64-bit integer. A colour
/// need not be there.
pub open spec fn convertible(stats: ResponseData) -> bool {
    match stats.viewer.repositories.edges {
        Some(edges) => {
            &&& repositories_present(edges@)
            &&& repository_sizes_not_negative(edges@)
            &&& counted_repository_size(edges@) <= i64::MAX
        },
        None => false,
    }
}

/// The bytes that count in a list of language edges are not negative
/// where none of the sizes is.
pub proof fn lemma_counted_edge_size_not_negative(
    edges: Seq<Option<GithubStatsViewerRepositoriesEdgesNodeLanguagesEdges>>,
)
    requires
        edge_sizes_not_negative(edges),
    ensures
        0 <= counted_edge_size(edges),
    decreases edges.len(),
{
    if edges.len() > 0 {
        let shorter = edges.drop_last();
        assert forall|j: int| 0 <= j < shorter.len() && edge_counts(
            #[trigger] shorter[j],
        ) implies shorter[j]->0.size >= 0 by {
            assert(shorter[j] == edges[j]);
        }
        lemma_counted_edge_size_not_negative(shorter);
        assert(edges[edges.len() - 1] == edges.last());
    }
}

/// The languages of one repository can be added exactly if every language
/// edge is there, no size that counts is negative, and the bytes stay
/// within a signed 64-bit integer; the entries then grow by the bytes that
/// count.
pub proof fn lemma_language_edges_convert(
    entries: Seq<EntryView>,
    edges: Seq<Option<GithubStatsViewerRepositoriesEdgesNodeLanguagesEdges>>,
)
    requires
        sizes_not_negative(entries),
        entries_size(entries) <= i64::MAX,
    ensures
        with_language_edges(Some(entries), edges) is Some <==> languages_present(edges)
            && edge_sizes_not_negative(edges) && entries_size(entries) + counted_edge_size(edges)
            <= i64::MAX,
        with_language_edges(Some(entries), edges) is Some ==> sizes_not_negative(
            with_language_edges(Some(entries), edges)->0,
        ) && entries_size(with_language_edges(Some(entries), edges)->0) == entries_size(entries)
            + counted_edge_size(edges),
    decreases edges.len(),
{
    if edges.len() > 0 {
        let shorter = edges.drop_last();
        let last = edges.last();
        let before = with_language_edges(Some(entries), shorter);
        lemma_language_edges_convert(entries, shorter);
        assert(edges[edges.len() - 1] == last);
        if languages_present(edges) && edge_sizes_not_negative(edges) {
            assert forall|j: int| 0 <= j < shorter.len() implies (
            #[trigger] shorter[j]) is Some by {
                assert(shorter[j] == edges[j]);
            }
            assert forall|j: int| 0 <= j < shorter.len() && edge_counts(
                #[trigger] shorter[j],
            ) implies shorter[j]->0.size >= 0 by {
                assert(shorter[j] == edges[j]);
            }
            lemma_counted_edge_size_not_negative(shorter);
        }
        if before is Some && with_language_edge(before, last) is Some {
            assert forall|j: int| 0 <= j < edges.len() implies (#[trigger] edges[j]) is Some by {
                if j < shorter.len() {
                    assert(shorter[j] is Some);
                }
            }
            assert forall|j: int| 0 <= j < edges.len() && edge_counts(
                #[trigger] edges[j],
            ) implies edges[j]->0.size >= 0 by {
                if j < shorter.len() {
                    assert(edge_counts(shorter[j]));
                }
            }
            if edge_counts(last) {
                lemma_merged(
                    before->0,
                    last->0.node.name@,
                    edge_color(last->0),
                    last->0.size as int,
                );
            }
        }
    }
}

/// The bytes that count in a list of repositories are not negative where
/// none of the sizes is.
pub proof fn lemma_counted_repository_size_not_negative(
    edges: Seq<Option<GithubStatsViewerRepositoriesEdges>>,
)
    requires
        repository_sizes_not_negative(edges),
    ensures
        0 <= counted_repository_size(edges),
    decreases edges.len(),
{
    if edges.len() > 0 {
        let shorter = edges.drop_last();
        assert forall|i: int|
            0 <= i < shorter.len() && language_edges(
                #[trigger] shorter[i],
            ) is Some implies edge_sizes_not_negative(language_edges(shorter[i])->0) by {
            assert(shorter[i] == edges[i]);
        }
        lemma_counted_repository_size_not_negative(shorter);
        assert(edges[edges.len() - 1] == edges.last());
        if language_edges(edges.last()) is Some {
            lemma_counted_edge_size_not_negative(language_edges(edges.last())->0);
        }
    }
}

/// The repositories of a list can be added exactly if every part is
/// there, no size that counts is negative, and the bytes stay within a
/// signed 64-bit integer; the entries then grow by the bytes that count.
pub proof fn lemma_repository_edges_convert(
    entries: Seq<EntryView>,
    edges: Seq<Option<GithubStatsViewerRepositoriesEdges>>,
)
    requires
        sizes_not_negative(entries),
        entries_size(entries) <= i64::MAX,
    ensures
        with_repository_edges(Some(entries), edges) is Some <==> repositories_present(edges)
            && repository_sizes_not_negative(edges) && entries_size(entries)
            + counted_repository_size(edges) <= i64::MAX,
        with_repository_edges(Some(entries), edges) is Some ==> sizes_not_negative(
            with_repository_edges(Some(entries), edges)->0,
        ) && entries_size(with_repository_edges(Some(entries), edges)->0) == entries_size(entries)
            + counted_repository_size(edges),
    decreases edges.len(),
{
    if edges.len() > 0 {
        let shorter = edges.drop_last();
        let last = edges.last();
        let before = with_repository_edges(Some(entries), shorter);
        lemma_repository_edges_convert(entries, shorter);
        assert(edges[edges.len() - 1] == last);
        if repositories_present(edges) && repository_sizes_not_negative(edges) {
            assert forall|i: int| 0 <= i < shorter.len() implies language_edges(
                #[trigger] shorter[i],
            ) is Some && languages_present(language_edges(shorter[i])->0) by {
                assert(shorter[i] == edges[i]);
            }
            assert forall|i: int|
                0 <= i < shorter.len() && language_edges(
                    #[trigger] shorter[i],
                ) is Some implies edge_sizes_not_negative(language_edges(shorter[i])->0) by {
                assert(shorter[i] == edges[i]);
            }
            lemma_counted_repository_size_not_negative(shorter);
            lemma_counted_edge_size_not_negative(language_edges(last)->0);
        }
        if before is Some && language_edges(last) is Some {
            lemma_language_edges_convert(before->0, language_edges(last)->0);
        }
        if language_edges(last) is None {
        } else if before is None {
            lemma_missing_language_stays_missing(language_edges(last)->0);
        }
        if with_repository_edges(Some(entries), edges) is Some {
            assert forall|i: int| 0 <= i < edges.len() implies language_edges(
                #[trigger] edges[i],
            ) is Some && languages_present(language_edges(edges[i])->0) by {
                if i < shorter.len() {
                    assert(language_edges(shorter[i]) is Some);
                }
            }
            assert forall|i: int|
                0 <= i < edges.len() && language_edges(
                    #[trigger] edges[i],
                ) is Some implies edge_sizes_not_negative(language_edges(edges[i])->0) by {
                if i < shorter.len() {
                    assert(language_edges(shorter[i]) is Some);
                }
            }
        }
    }
}

/// An answer has entries exactly if it can be converted: every part of it
/// is there and the sizes are in range. A missing colour does not stand in
/// the way.
pub proof fn lemma_answer_converts(stats: ResponseData)
    ensures
        answer_entries(stats) is Some <==> convertible(stats),
{
    match stats.viewer.repositories.edges {
        Some(edges) => {
            lemma_repository_edges_convert(Seq::<EntryView>::empty(), edges@);
        },
        None => {},
    }
}

/// Once a language was missing, the entries stay missing.
pub proof fn lemma_missing_language_stays_missing(
    languages: Seq<Option<GithubStatsViewerRepositoriesEdgesNodeLanguagesEdges>>,
)
    ensures
        with_language_edges(None, languages) is None,
    decreases languages.len(),
{
    if languages.len() > 0 {
        lemma_missing_language_stays_missing(languages.drop_last());
    }
}

/// Once a repository was missing, the entries stay missing.
pub proof fn lemma_missing_repository_stays_missing(
    repositories: Seq<Option<GithubStatsViewerRepositoriesEdges>>,
)
    ensures
        with_repository_edges(None, repositories) is None,
    decreases repositories.len(),
{
    if repositories.len() > 0 {
        lemma_missing_repository_stays_missing(repositories.drop_last());
        match language_edges(repositories.last()) {
            Some(edges) => {
                lemma_missing_language_stays_missing(edges);
            },
            None => {},
        }
    }
}

/// Adds the languages of one repository to the entries, and their bytes to
/// the running total.
fn merge_language_edges(
    entries: &mut Vec<LanguageSummaryValue>,
    total: &mut i64,
    edges: &Vec<Option<GithubStatsViewerRepositoriesEdgesNodeLanguagesEdges>>,
) -> (complete: bool)
    requires
        sizes_not_negative(entries_view(old(entries)@)),
        distinct_names(entries_view(old(entries)@)),
        *old(total) == entries_size(entries_view(old(entries)@)),
    ensures
        complete == with_language_edges(Some(entries_view(old(entries)@)), edges@) is Some,
        complete ==> Some(entries_view(final(entries)@)) == with_language_edges(
            Some(entries_view(old(entries)@)),
            edges@,
        ),
        complete ==> sizes_not_negative(entries_view(final(entries)@)),
        complete ==> distinct_names(entries_view(final(entries)@)),
        complete ==> *final(total) == entries_size(entries_view(final(entries)@)),
{
    let ghost start = entries_view(entries@);
    let skipped = String::from_str(SKIPPED_LANGUAGE);
    let mut i: usize = 0;
    assert(edges@.take(0) =~= Seq::empty());
    while i < edges.len()
        invariant
            i <= edges.len(),
            skipped@ == SKIPPED_LANGUAGE@,
            start == entries_view(old(entries)@),
            Some(entries_view(entries@)) == with_language_edges(Some(start), edges@.take(i as int)),
            sizes_not_negative(entries_view(entries@)),
            distinct_names(entries_view(entries@)),
            *total == entries_size(entries_view(entries@)),
        decreases edges.len() - i,
    {
        let ghost before = entries_view(entries@);
        proof {
            assert(edges@.take(i + 1).drop_last() =~= edges@.take(i as int));
            assert(edges@.take(i + 1).last() == edges@[i as int]);
            lemma_entry_sum_not_negative(before);
        }
        let mut failed = false;
        match &edges[i] {
            Some(edge) => {
                if edge.node.name != skipped {
                    if edge.size < 0 || edge.size > i64::MAX - *total {
                        failed = true;
                    } else {
                        let color = match &edge.node.color {
                            Some(color) => color.clone(),
                            None => String::from_str(DEFAULT_COLOR),
                        };
                        proof {
                            lemma_merged(before, edge.node.name@, color@, edge.size as int);
                        }
                        merge_language(entries, edge.node.name.clone(), color, edge.size);
                        *total = *total + edge.size;
                    }
                }
            },
            None => {
                failed = true;
            },
        }
        if failed {
            proof {
                assert(with_language_edge(Some(before), edges@[i as int]) is None);
                lemma_edges_split(Some(start), edges@, i + 1);
                lemma_missing_language_stays_missing(edges@.skip(i + 1));
            }
            return false;
        }
        i += 1;
    }
    assert(edges@.take(i as int) =~= edges@);
    true
}

/// Folding over the edges is folding over the first of them and then over
/// the rest.
pub proof fn lemma_edges_split(
    entries: Option<Seq<EntryView>>,
    edges: Seq<Option<GithubStatsViewerRepositoriesEdgesNodeLanguagesEdges>>,
    i: int,
)
    requires
        0 <= i <= edges.len(),
    ensures
        with_language_edges(entries, edges) == with_language_edges(
            with_language_edges(entries, edges.take(i)),
            edges.skip(i),
        ),
    decreases edges.len(),
{
    if i == edges.len() {
        assert(edges.take(i) =~= edges);
        assert(edges.skip(i) =~= Seq::empty());
    } else {
        lemma_edges_split(entries, edges.drop_last(), i);
        assert(edges.drop_last().take(i) =~= edges.take(i));
        assert(edges.drop_last().skip(i) =~= edges.skip(i).drop_last());
        assert(edges.skip(i).last() == edges.last());
    }
}

/// Folding over the repositories is folding over the first of them and
/// then over the rest.
pub proof fn lemma_repositories_split(
    entries: Option<Seq<EntryView>>,
    edges: Seq<Option<GithubStatsViewerRepositoriesEdges>>,
    i: int,
)
    requires
        0 <= i <= edges.len(),
    ensures
        with_repository_edges(entries, edges) == with_repository_edges(
            with_repository_edges(entries, edges.take(i)),
            edges.skip(i),
        ),
    decreases edges.len(),
{
    if i == edges.len() {
        assert(edges.take(i) =~= edges);
        assert(edges.skip(i) =~= Seq::empty());
    } else {
        lemma_repositories_split(entries, edges.drop_last(), i);
        assert(edges.drop_last().take(i) =~= edges.take(i));
        assert(edges.drop_last().skip(i) =~= edges.skip(i).drop_last());
        assert(edges.skip(i).last() == edges.last());
    }
}

/// Folds the languages of the answer into one entry for each language, so
/// that no two entries have the same name. A language without a colour
/// gets the default colour.
///
/// Fails if a part of the answer is missing: the list of repositories, a
/// repository or its node, its languages or their list, or a language.
/// Fails too on a negative size and on bytes that add up beyond a signed
/// 64-bit integer.
pub fn to_svg_data(stats: &ResponseData) -> (converted: Result<Vec<SvgData>, AppError>)
    ensures
        match converted {
            Ok(data) => {
                &&& convertible(*stats)
                &&& answer_entries(*stats) == Some(svg_data_view(data@))
                &&& distinct_names(svg_data_view(data@))
                &&& forall|i: int| 0 <= i < data@.len() ==> (#[trigger] data@[i]).ratio == 0
            },
            Err(error) => !convertible(*stats) && error == AppError::ConvertError,
        },
{
    proof {
        lemma_answer_converts(*stats);
    }
    let repositories = match &stats.viewer.repositories.edges {
        Some(edges) => edges,
        None => {
            return Err(AppError::ConvertError);
        },
    };
    let mut entries: Vec<LanguageSummaryValue> = Vec::new();
    let mut total: i64 = 0;
    let mut i: usize = 0;
    assert(repositories@.take(0) =~= Seq::empty());
    assert(entries_view(entries@) =~= Seq::<EntryView>::empty());
    while i < repositories.len()
        invariant
            i <= repositories.len(),
            stats.viewer.repositories.edges == Some(*repositories),
            answer_entries(*stats) is Some <==> convertible(*stats),
            Some(entries_view(entries@)) == with_repository_edges(
                Some(Seq::<EntryView>::empty()),
                repositories@.take(i as int),
            ),
            sizes_not_negative(entries_view(entries@)),
            distinct_names(entries_view(entries@)),
            total == entries_size(entries_view(entries@)),
        decreases repositories.len() - i,
    {
        proof {
            assert(repositories@.take(i + 1).drop_last() =~= repositories@.take(i as int));
            assert(repositories@.take(i + 1).last() == repositories@[i as int]);
            lemma_repositories_split(
                Some(Seq::<EntryView>::empty()),
                repositories@,
                i + 1,
            );
            lemma_missing_repository_stays_missing(repositories@.skip(i + 1));
            assert(with_repository_edges(
                Some(Seq::<EntryView>::empty()),
                repositories@.take(i + 1),
            ) == match language_edges(repositories@[i as int]) {
                Some(languages) => with_language_edges(Some(entries_view(entries@)), languages),
                None => None,
            });
        }
        let complete = match &repositories[i] {
            Some(edge) => match &edge.node {
                Some(node) => match &node.languages {
                    Some(languages) => match &languages.edges {
                        Some(edges) => merge_language_edges(&mut entries, &mut total, edges),
                        None => false,
                    },
                    None => false,
                },
                None => false,
            },
            None => false,
        };
        if !complete {
            return Err(AppError::ConvertError);
        }
        i += 1;
    }
    assert(repositories@.take(i as int) =~= repositories@);
    let mut data: Vec<SvgData> = Vec::new();
    let ghost merged_entries = entries_view(entries@);
    for entry in it: entries.into_iter()
        invariant
            it.seq() == entries@,
            merged_entries == entries_view(entries@),
            data@.len() == it.index(),
            forall|k: int|
                0 <= k < data@.len() ==> (#[trigger] data@[k])@ == merged_entries[k]
                    && data@[k].ratio == 0,
    {
        data.push(SvgData { name: entry.name, size: entry.size, ratio: 0, color: entry.color });
    }
    assert(svg_data_view(data@) =~= merged_entries);
    Ok(data)
}

} // verus!
