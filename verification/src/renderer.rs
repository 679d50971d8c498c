//! The summaries of a run and the renderer that draws them.

use vstd::prelude::*;
use svg::node::element::Element;
use crate::activity::{
    activity_entries, activity_total, activity_view, collect_activity, lemma_activity_entries,
    lemma_count_within_total, ActivityView, CommitWindow,
};
use crate::aggregate::{
    aggregate_languages, counted_size, distinct_names, entries_size, kept_records,
    language_entries, lemma_entry_within_total, lemma_kept_records,
    lemma_kept_records_idempotent, lemma_kept_records_suffice, lemma_language_entries,
    lemma_star_sum_grows, retain_records, sizes_not_negative, star_sum, stars_not_negative,
};
use crate::chart::{compose, document_model, panels_view, PanelView, LIFETIME_FILL, RECENT_FILL};
use crate::config::{Config, ConfigView};
use crate::graphql::{records_view, RepositoryStat, RepositoryView};
use crate::markup::model_of;
use crate::names::NameTable;
use crate::panel::{
    build_panel, panel_items, sources_view, ChartPanel, PanelSource, SourceView, ValueUnit,
};
use crate::share::{share, share_of};
use crate::validate::{lemma_kept_star_sum, renderable};
use crate::AppError;

verus! {

/// What the repositories hold of one language, under the name that is
/// shown.
#[derive(Debug)]
pub struct LanguageSummaryValue {
    pub name: String,
    pub color: String,
    pub size: i64,
}

/// A language entry, as plain values.
pub struct EntryView {
    pub name: Seq<char>,
    pub color: Seq<char>,
    pub size: int,
}

impl View for LanguageSummaryValue {
    type V = EntryView;

    open spec fn view(&self) -> EntryView {
        EntryView { name: self.name@, color: self.color@, size: self.size as int }
    }
}

/// The entries in a list, as plain values.
pub open spec fn entries_view(entries: Seq<LanguageSummaryValue>) -> Seq<EntryView> {
    Seq::new(entries.len(), |i: int| entries[i]@)
}

/// The languages of a run: one entry for each name that is shown, in the
/// order in which the names were first met, and the bytes of all of them.
#[derive(Debug)]
pub struct LanguageSummary {
    pub total_size: i64,
    pub data: Vec<LanguageSummaryValue>,
}

/// The commit totals of a run.
#[derive(Debug)]
pub struct RepositorySummary {
    pub total_commit_count: i64,
    pub total_active_commit_count: i64,
}

impl LanguageSummary {
    /// Whether the summary is sound: no two entries have the same name, no
    /// entry is negative, and the sizes of the entries add up to the total.
    pub open spec fn well_formed(&self) -> bool {
        &&& distinct_names(entries_view(self.data@))
        &&& sizes_not_negative(entries_view(self.data@))
        &&& entries_size(entries_view(self.data@)) == self.total_size
    }

    /// The summary of no language.
    pub fn new() -> (summary: Self)
        ensures
            summary.total_size == 0,
            summary.data@.len() == 0,
            summary.well_formed(),
    {
        let summary = LanguageSummary { total_size: 0, data: Vec::new() };
        assert(entries_view(summary.data@) =~= Seq::<EntryView>::empty());
        summary
    }

    /// The share of an entry in the total, in billionths of a percent.
    /// There is none where the total is zero.
    pub fn share(&self, at: usize) -> (found: Option<u64>)
        requires
            self.well_formed(),
            at < self.data@.len(),
        ensures
            self.total_size == 0 ==> found is None,
            self.total_size != 0 ==> found == Some(
                share_of(self.data@[at as int].size as int, self.total_size as int) as u64,
            ),
    {
        proof {
            lemma_entry_within_total(entries_view(self.data@), at as int);
        }
        if self.total_size == 0 {
            None
        } else {
            Some(share(self.data[at].size, self.total_size))
        }
    }
}

impl RepositorySummary {
    /// The totals of no repository.
    pub fn new() -> (summary: Self)
        ensures
            summary.total_commit_count == 0,
            summary.total_active_commit_count == 0,
    {
        RepositorySummary { total_commit_count: 0, total_active_commit_count: 0 }
    }
}

/// The panel sources of the language entries: each is ranked by its bytes
/// and drawn in its own colour.
pub open spec fn language_sources(entries: Seq<EntryView>) -> Seq<SourceView> {
    Seq::new(
        entries.len(),
        |i: int|
            SourceView { name: entries[i].name, metric: entries[i].size, color: entries[i].color },
    )
}

/// The panel sources of activity entries: each is ranked by its commits and
/// drawn in the fill of its panel.
pub open spec fn activity_sources(entries: Seq<ActivityView>, fill: Seq<char>) -> Seq<SourceView> {
    Seq::new(
        entries.len(),
        |i: int| SourceView { name: entries[i].name, metric: entries[i].count, color: fill },
    )
}

/// Whether shares of `total` can be given to these sources: there is a
/// total to divide by, or nothing to divide.
pub open spec fn has_shares(sources: Seq<SourceView>, total: int) -> bool {
    sources.len() > 0 ==> total > 0
}

/// The title of the panel of a commit window.
pub open spec fn window_title(window: CommitWindow) -> Seq<char> {
    match window {
        CommitWindow::Lifetime => "Top Commits"@,
        CommitWindow::Recent => "Top Active Commits(1week)"@,
    }
}

/// The fill of the bars of a commit window.
pub open spec fn window_fill(window: CommitWindow) -> Seq<char> {
    match window {
        CommitWindow::Lifetime => LIFETIME_FILL@,
        CommitWindow::Recent => RECENT_FILL@,
    }
}

/// Holds the records of a run that are not ignored, with the summaries
/// made of them, and draws the chart.
#[derive(Debug)]
pub struct Renderer {
    stats: Vec<RepositoryStat>,
    language_summary: LanguageSummary,
    language_colors: NameTable,
    repository_summary: RepositorySummary,
    config: Config,
}

impl Renderer {
    #[verifier::type_invariant]
    spec fn consistent(&self) -> bool {
        let records = records_view(self.stats@);
        &&& renderable(records, self.config@)
        &&& kept_records(records, self.config@) == records
        &&& entries_view(self.language_summary.data@) == language_entries(
            records,
            self.config@,
            self.language_colors@,
        )
        &&& self.language_summary.total_size == counted_size(records, self.config@)
        &&& self.repository_summary.total_commit_count == activity_total(
            records,
            self.config@,
            CommitWindow::Lifetime,
        )
        &&& self.repository_summary.total_active_commit_count == activity_total(
            records,
            self.config@,
            CommitWindow::Recent,
        )
    }

    /// The records that the renderer holds.
    pub closed spec fn records(&self) -> Seq<RepositoryView> {
        records_view(self.stats@)
    }

    /// The configuration of the run.
    pub closed spec fn rules(&self) -> ConfigView {
        self.config@
    }

    /// The colour table of the run.
    pub closed spec fn colors(&self) -> Map<Seq<char>, Seq<char>> {
        self.language_colors@
    }

    /// The language entries of the run.
    pub closed spec fn languages(&self) -> Seq<EntryView> {
        entries_view(self.language_summary.data@)
    }

    /// The bytes of all language entries.
    pub closed spec fn total_size(&self) -> int {
        self.language_summary.total_size as int
    }

    /// The commits of a window, of all repositories that take part.
    pub closed spec fn commit_total(&self, window: CommitWindow) -> int {
        match window {
            CommitWindow::Lifetime => self.repository_summary.total_commit_count as int,
            CommitWindow::Recent => self.repository_summary.total_active_commit_count as int,
        }
    }

    /// Whether the summaries are those of the records held: no record held
    /// is ignored, a run can be made on the records, the language entries
    /// and their total are what aggregation gives for the records, and the
    /// commit totals are those of the records.
    pub open spec fn summaries_match(&self) -> bool {
        &&& kept_records(self.records(), self.rules()) == self.records()
        &&& renderable(self.records(), self.rules())
        &&& self.languages() == language_entries(self.records(), self.rules(), self.colors())
        &&& self.total_size() == counted_size(self.records(), self.rules())
        &&& self.commit_total(CommitWindow::Lifetime) == activity_total(
            self.records(),
            self.rules(),
            CommitWindow::Lifetime,
        )
        &&& self.commit_total(CommitWindow::Recent) == activity_total(
            self.records(),
            self.rules(),
            CommitWindow::Recent,
        )
    }

    /// The sources of the language panel.
    pub open spec fn top_language_sources(&self) -> Seq<SourceView> {
        language_sources(self.languages())
    }

    /// The sources of the panel of a commit window.
    pub open spec fn top_commit_sources(&self, window: CommitWindow) -> Seq<SourceView> {
        activity_sources(
            activity_entries(self.records(), self.rules(), window),
            window_fill(window),
        )
    }

    /// The language panel: the languages by their bytes.
    pub open spec fn top_languages(&self) -> PanelView {
        PanelView {
            title: "Top Languages"@,
            items: panel_items(
                self.top_language_sources(),
                ValueUnit::Kilobytes,
                self.total_size(),
                self.rules().max_count,
            ),
        }
    }

    /// The panel of a commit window: the repositories by their commits.
    pub open spec fn top_commits(&self, window: CommitWindow) -> PanelView {
        PanelView {
            title: window_title(window),
            items: panel_items(
                self.top_commit_sources(window),
                ValueUnit::Count,
                self.commit_total(window),
                self.rules().max_count,
            ),
        }
    }

    /// Whether the chart can be drawn: no panel has sources to show and
    /// nothing to measure them against.
    pub open spec fn can_draw(&self) -> bool {
        &&& has_shares(self.top_language_sources(), self.total_size())
        &&& has_shares(
            self.top_commit_sources(CommitWindow::Lifetime),
            self.commit_total(CommitWindow::Lifetime),
        )
        &&& has_shares(
            self.top_commit_sources(CommitWindow::Recent),
            self.commit_total(CommitWindow::Recent),
        )
    }

    /// Aggregates the records under the configuration: drops the ignored
    /// repositories, folds the languages of the others into the language
    /// summary, and adds up the commits of those that are public.
    pub fn new(
        stats: Vec<RepositoryStat>,
        language_colors: NameTable,
        config: Config,
    ) -> (renderer: Self)
        requires
            renderable(records_view(stats@), config@),
        ensures
            renderer.records() == kept_records(records_view(stats@), config@),
            renderer.rules() == config@,
            renderer.colors() == language_colors@,
            renderer.languages() == language_entries(
                records_view(stats@),
                config@,
                language_colors@,
            ),
            renderer.total_size() == counted_size(records_view(stats@), config@),
            renderer.commit_total(CommitWindow::Lifetime) == activity_total(
                records_view(stats@),
                config@,
                CommitWindow::Lifetime,
            ),
            renderer.commit_total(CommitWindow::Recent) == activity_total(
                records_view(stats@),
                config@,
                CommitWindow::Recent,
            ),
            renderer.summaries_match(),
    {
        let ghost given = records_view(stats@);
        let kept = retain_records(stats, &config);
        proof {
            let records = records_view(kept@);
            lemma_kept_records(given, config@);
            lemma_kept_records_idempotent(given, config@);
            lemma_kept_records_suffice(given, config@, language_colors@, CommitWindow::Lifetime);
            lemma_kept_records_suffice(given, config@, language_colors@, CommitWindow::Recent);
            lemma_kept_star_sum(given, config@);
            lemma_kept_star_sum(records, config@);
            assert forall|a: int| 0 <= a < records.len() implies (
            #[trigger] records[a]).total_commit_count >= 0 && records[a].period_commit_count
                >= 0 && records[a].stargazer_count >= 0 by {
                let from = choose|from: int| 0 <= from < given.len() && given[from] == records[a];
                assert(given[from].total_commit_count >= 0);
                assert(given[from].stargazer_count >= 0);
            }
            assert forall|a: int, b: int|
                0 <= a < records.len() && 0 <= b < records[a].languages.len() implies (
            #[trigger] records[a].languages[b]).size >= 0 by {
                let from = choose|from: int| 0 <= from < given.len() && given[from] == records[a];
                assert(given[from].languages[b].size >= 0);
            }
        }
        let language_summary = aggregate_languages(&kept, &config, &language_colors);
        let (_, lifetime) = collect_activity(&kept, &config, CommitWindow::Lifetime);
        let (_, recent) = collect_activity(&kept, &config, CommitWindow::Recent);
        let repository_summary = RepositorySummary {
            total_commit_count: lifetime,
            total_active_commit_count: recent,
        };
        Renderer { stats: kept, language_summary, language_colors, repository_summary, config }
    }

    /// The records that the renderer holds: those of the run that are not
    /// ignored.
    pub fn stats(&self) -> (stats: &Vec<RepositoryStat>)
        ensures
            records_view(stats@) == self.records(),
            self.summaries_match(),
    {
        proof {
            use_type_invariant(self);
        }
        &self.stats
    }

    /// The language summary of the run.
    pub fn language_summary(&self) -> (summary: &LanguageSummary)
        ensures
            entries_view(summary.data@) == self.languages(),
            summary.total_size == self.total_size(),
            summary.well_formed(),
            self.summaries_match(),
    {
        proof {
            use_type_invariant(self);
            lemma_language_entries(
                records_view(self.stats@),
                self.config@,
                self.language_colors@,
            );
        }
        &self.language_summary
    }

    /// The colour table of the run.
    pub fn language_colors(&self) -> (colors: &NameTable)
        ensures
            colors@ == self.colors(),
            self.summaries_match(),
    {
        proof {
            use_type_invariant(self);
        }
        &self.language_colors
    }

    /// The configuration of the run.
    pub fn config(&self) -> (config: &Config)
        ensures
            config@ == self.rules(),
            self.summaries_match(),
    {
        proof {
            use_type_invariant(self);
        }
        &self.config
    }

    /// The commit totals of the run.
    pub fn repository_summary(&self) -> (summary: &RepositorySummary)
        ensures
            summary.total_commit_count == self.commit_total(CommitWindow::Lifetime),
            summary.total_active_commit_count == self.commit_total(CommitWindow::Recent),
            self.summaries_match(),
    {
        proof {
            use_type_invariant(self);
        }
        &self.repository_summary
    }

    /// The stars of all records that the renderer holds.
    pub fn star_count(&self) -> (stars: u64)
        ensures
            stars == star_sum(self.records()),
            self.summaries_match(),
    {
        proof {
            use_type_invariant(self);
            lemma_kept_star_sum(records_view(self.stats@), self.config@);
        }
        let ghost all = records_view(self.stats@);
        let mut stars: i64 = 0;
        let mut i: usize = 0;
        assert(all.take(0) =~= Seq::<RepositoryView>::empty());
        while i < self.stats.len()
            invariant
                i <= self.stats.len(),
                all == records_view(self.stats@),
                stars_not_negative(all),
                star_sum(all) <= i64::MAX,
                stars == star_sum(all.take(i as int)),
                stars >= 0,
            decreases self.stats.len() - i,
        {
            proof {
                assert(all.take(i + 1).drop_last() =~= all.take(i as int));
                assert(all.take(i + 1).last() == self.stats@[i as int]@);
                assert(all[i as int].stargazer_count >= 0);
                lemma_star_sum_grows(all, i + 1);
            }
            stars = stars + self.stats[i].stargazer_count;
            i += 1;
        }
        assert(all.take(i as int) =~= all);
        stars as u64
    }

    /// The language panel, unless there are languages and no bytes to
    /// measure them against.
    pub fn create_top_langs_chart(&self) -> (chart: Result<ChartPanel, AppError>)
        ensures
            match chart {
                Ok(panel) => has_shares(self.top_language_sources(), self.total_size()) && panel@
                    == self.top_languages(),
                Err(error) => !has_shares(self.top_language_sources(), self.total_size())
                    && error == AppError::SvgOutputError,
            },
    {
        proof {
            use_type_invariant(self);
            lemma_language_entries(
                records_view(self.stats@),
                self.config@,
                self.language_colors@,
            );
        }
        let data = &self.language_summary.data;
        let ghost entries = entries_view(data@);
        let mut sources: Vec<PanelSource> = Vec::new();
        let mut i: usize = 0;
        while i < data.len()
            invariant
                i <= data.len(),
                entries == entries_view(data@),
                sources@.len() == i,
                forall|k: int|
                    0 <= k < i ==> (#[trigger] sources@[k])@ == language_sources(entries)[k],
            decreases data.len() - i,
        {
            let entry = &data[i];
            assert(entries[i as int] == entry@);
            sources.push(
                PanelSource {
                    name: entry.name.clone(),
                    metric: entry.size,
                    color: entry.color.clone(),
                },
            );
            i += 1;
        }
        assert(sources_view(sources@) =~= language_sources(entries));
        let total = self.language_summary.total_size;
        if sources.len() > 0 && total <= 0 {
            proof {
                lemma_entry_within_total(entries, 0);
            }
            return Err(AppError::SvgOutputError);
        }
        proof {
            assert forall|k: int| 0 <= k < sources@.len() implies 0 <= (#[trigger] sources_view(
                sources@,
            )[k]).metric <= total by {
                lemma_entry_within_total(entries, k);
            }
        }
        let max_count = self.config.languages_count;
        Ok(build_panel("Top Languages", &sources, ValueUnit::Kilobytes, total, max_count))
    }

    /// The panel of a commit window, unless there are repositories and no
    /// commits to measure them against.
    pub fn create_commits_chart(
        &self,
        window: CommitWindow,
    ) -> (chart: Result<ChartPanel, AppError>)
        ensures
            match chart {
                Ok(panel) => has_shares(self.top_commit_sources(window), self.commit_total(window))
                    && panel@ == self.top_commits(window),
                Err(error) => !has_shares(
                    self.top_commit_sources(window),
                    self.commit_total(window),
                ) && error == AppError::SvgOutputError,
            },
    {
        proof {
            use_type_invariant(self);
            lemma_activity_entries(records_view(self.stats@), self.config@, window);
        }
        let (entries, total) = collect_activity(&self.stats, &self.config, window);
        let ghost listed = activity_view(entries@);
        let ghost fill = window_fill(window);
        let mut sources: Vec<PanelSource> = Vec::new();
        let mut i: usize = 0;
        while i < entries.len()
            invariant
                i <= entries.len(),
                listed == activity_view(entries@),
                fill == window_fill(window),
                sources@.len() == i,
                forall|k: int|
                    0 <= k < i ==> (#[trigger] sources@[k])@ == activity_sources(listed, fill)[k],
            decreases entries.len() - i,
        {
            let entry = &entries[i];
            assert(listed[i as int] == entry@);
            let color = match window {
                CommitWindow::Lifetime => String::from_str(LIFETIME_FILL),
                CommitWindow::Recent => String::from_str(RECENT_FILL),
            };
            sources.push(PanelSource { name: entry.name.clone(), metric: entry.count, color });
            i += 1;
        }
        assert(sources_view(sources@) =~= activity_sources(listed, fill));
        if sources.len() > 0 && total <= 0 {
            proof {
                lemma_count_within_total(listed, 0);
            }
            return Err(AppError::SvgOutputError);
        }
        proof {
            assert forall|k: int| 0 <= k < sources@.len() implies 0 <= (#[trigger] sources_view(
                sources@,
            )[k]).metric <= total by {
                lemma_count_within_total(listed, k);
            }
        }
        let title = match window {
            CommitWindow::Lifetime => "Top Commits",
            CommitWindow::Recent => "Top Active Commits(1week)",
        };
        Ok(build_panel(title, &sources, ValueUnit::Count, total, self.config.languages_count))
    }

    /// The panel of the lifetime commits.
    pub fn create_top_commits_chart(&self) -> (chart: Result<ChartPanel, AppError>)
        ensures
            match chart {
                Ok(panel) => has_shares(
                    self.top_commit_sources(CommitWindow::Lifetime),
                    self.commit_total(CommitWindow::Lifetime),
                ) && panel@ == self.top_commits(CommitWindow::Lifetime),
                Err(error) => !has_shares(
                    self.top_commit_sources(CommitWindow::Lifetime),
                    self.commit_total(CommitWindow::Lifetime),
                ) && error == AppError::SvgOutputError,
            },
    {
        self.create_commits_chart(CommitWindow::Lifetime)
    }

    /// The panel of the commits of the recent window. A repository without
    /// recent commits is ranked with the others.
    pub fn create_top_active_commits_chart(&self) -> (chart: Result<ChartPanel, AppError>)
        ensures
            match chart {
                Ok(panel) => has_shares(
                    self.top_commit_sources(CommitWindow::Recent),
                    self.commit_total(CommitWindow::Recent),
                ) && panel@ == self.top_commits(CommitWindow::Recent),
                Err(error) => !has_shares(
                    self.top_commit_sources(CommitWindow::Recent),
                    self.commit_total(CommitWindow::Recent),
                ) && error == AppError::SvgOutputError,
            },
    {
        self.create_commits_chart(CommitWindow::Recent)
    }

    /// Draws the chart: the stars of the records held, the panels of the
    /// languages, the lifetime commits and the recent commits, and the
    /// footer with `date`. Fails if a panel has sources and a total of
    /// zero.
    pub fn render(&self, date: &str) -> (rendered: Result<Element, AppError>)
        ensures
            match rendered {
                Ok(document) => self.can_draw() && model_of(document) == document_model(
                    star_sum(self.records()) as nat,
                    seq![
                        self.top_languages(),
                        self.top_commits(CommitWindow::Lifetime),
                        self.top_commits(CommitWindow::Recent),
                    ],
                    date@,
                ),
                Err(error) => !self.can_draw() && error == AppError::SvgOutputError,
            },
    {
        let languages = match self.create_top_langs_chart() {
            Ok(panel) => panel,
            Err(error) => {
                return Err(error);
            },
        };
        let lifetime = match self.create_top_commits_chart() {
            Ok(panel) => panel,
            Err(error) => {
                return Err(error);
            },
        };
        let recent = match self.create_top_active_commits_chart() {
            Ok(panel) => panel,
            Err(error) => {
                return Err(error);
            },
        };
        let mut panels: Vec<ChartPanel> = Vec::new();
        panels.push(languages);
        panels.push(lifetime);
        panels.push(recent);
        assert(panels_view(panels@) =~= seq![
            self.top_languages(),
            self.top_commits(CommitWindow::Lifetime),
            self.top_commits(CommitWindow::Recent),
        ]);
        Ok(compose(self.star_count(), &panels, date))
    }
}

} // verus!
