//! Commit activity: the commits of every repository that is shown, over its
//! lifetime and in the recent window.

use vstd::prelude::*;
use crate::config::{Config, ConfigView};
use crate::graphql::{records_view, RepositoryStat, RepositoryView};
use crate::share::{share, share_of};

verus! {

/// Which commits are counted.
#[derive(Debug, Clone, Copy, PartialEq, Eq, Structural)]
pub enum CommitWindow {
    /// All commits of the default branch.
    Lifetime,
    /// The commits of the recent window.
    Recent,
}

/// The commits of one repository.
#[derive(Debug, Clone)]
pub struct ActivityEntry {
    pub name: String,
    pub count: i64,
}

/// An activity entry, as plain values.
pub struct ActivityView {
    pub name: Seq<char>,
    pub count: int,
}

impl View for ActivityEntry {
    type V = ActivityView;

    open spec fn view(&self) -> ActivityView {
        ActivityView { name: self.name@, count: self.count as int }
    }
}

/// The activity entries in a list, as plain values.
pub open spec fn activity_view(entries: Seq<ActivityEntry>) -> Seq<ActivityView> {
    Seq::new(entries.len(), |i: int| entries[i]@)
}

/// The commit activity of a run: for each window the repositories with
/// their commits, in input order, and the commits of all of them.
#[derive(Debug, Clone)]
pub struct ActivitySummary {
    pub lifetime: Vec<ActivityEntry>,
    pub recent: Vec<ActivityEntry>,
    pub lifetime_total: i64,
    pub recent_total: i64,
}

impl ActivitySummary {
    /// Whether the summary is sound: no count is negative, and the counts
    /// of each list add up to its total.
    pub open spec fn well_formed(&self) -> bool {
        &&& counts_not_negative(activity_view(self.lifetime@))
        &&& counts_not_negative(activity_view(self.recent@))
        &&& entries_total(activity_view(self.lifetime@)) == self.lifetime_total
        &&& entries_total(activity_view(self.recent@)) == self.recent_total
    }

    /// The share of an entry in the total of its window, in billionths of a
    /// percent. There is none where the total is zero.
    pub fn share(&self, window: CommitWindow, at: usize) -> (found: Option<u64>)
        requires
            self.well_formed(),
            window == CommitWindow::Lifetime ==> at < self.lifetime@.len(),
            window == CommitWindow::Recent ==> at < self.recent@.len(),
        ensures
            found == match window {
                CommitWindow::Lifetime => if self.lifetime_total == 0 {
                    None
                } else {
                    Some(
                        share_of(
                            self.lifetime@[at as int].count as int,
                            self.lifetime_total as int,
                        ) as u64,
                    )
                },
                CommitWindow::Recent => if self.recent_total == 0 {
                    None
                } else {
                    Some(
                        share_of(
                            self.recent@[at as int].count as int,
                            self.recent_total as int,
                        ) as u64,
                    )
                },
            },
    {
        match window {
            CommitWindow::Lifetime => {
                proof {
                    lemma_count_within_total(activity_view(self.lifetime@), at as int);
                }
                if self.lifetime_total == 0 {
                    None
                } else {
                    Some(share(self.lifetime[at].count, self.lifetime_total))
                }
            },
            CommitWindow::Recent => {
                proof {
                    lemma_count_within_total(activity_view(self.recent@), at as int);
                }
                if self.recent_total == 0 {
                    None
                } else {
                    Some(share(self.recent[at].count, self.recent_total))
                }
            },
        }
    }
}

/// The commits of a repository in a window.
pub open spec fn commit_count(record: RepositoryView, window: CommitWindow) -> int {
    match window {
        CommitWindow::Lifetime => record.total_commit_count,
        CommitWindow::Recent => record.period_commit_count,
    }
}

/// Whether a repository takes part in the activity summaries: it is public
/// and not ignored.
pub open spec fn shows_activity(config: ConfigView, record: RepositoryView) -> bool {
    !record.is_private && !config.ignored_repositories.contains(record.name)
}

/// The activity entries of a window: one for each repository that takes
/// part, in input order, whatever its count.
pub open spec fn activity_entries(
    records: Seq<RepositoryView>,
    config: ConfigView,
    window: CommitWindow,
) -> Seq<ActivityView>
    decreases records.len(),
{
    if records.len() == 0 {
        Seq::<ActivityView>::empty()
    } else {
        let before = activity_entries(records.drop_last(), config, window);
        let record = records.last();
        if shows_activity(config, record) {
            before.push(ActivityView { name: record.name, count: commit_count(record, window) })
        } else {
            before
        }
    }
}

/// The commits in a window of all repositories that take part.
pub open spec fn activity_total(
    records: Seq<RepositoryView>,
    config: ConfigView,
    window: CommitWindow,
) -> int
    decreases records.len(),
{
    if records.len() == 0 {
        0
    } else {
        activity_total(records.drop_last(), config, window) + if shows_activity(
            config,
            records.last(),
        ) {
            commit_count(records.last(), window)
        } else {
            0
        }
    }
}

/// The commits of all entries together.
pub open spec fn entries_total(entries: Seq<ActivityView>) -> int
    decreases entries.len(),
{
    if entries.len() == 0 {
        0
    } else {
        entries_total(entries.drop_last()) + entries.last().count
    }
}

/// Whether no repository has a negative commit count.
pub open spec fn commit_counts_not_negative(records: Seq<RepositoryView>) -> bool {
    forall|i: int|
        0 <= i < records.len() ==> (#[trigger] records[i]).total_commit_count >= 0
            && records[i].period_commit_count >= 0
}

/// Whether no entry has a negative count.
pub open spec fn counts_not_negative(entries: Seq<ActivityView>) -> bool {
    forall|i: int| 0 <= i < entries.len() ==> (#[trigger] entries[i]).count >= 0
}

/// The counts of the activity entries add up to the total of the window,
/// and none is negative where no commit count is.
pub proof fn lemma_activity_entries(
    records: Seq<RepositoryView>,
    config: ConfigView,
    window: CommitWindow,
)
    ensures
        entries_total(activity_entries(records, config, window)) == activity_total(
            records,
            config,
            window,
        ),
        activity_entries(records, config, window).len() <= records.len(),
        commit_counts_not_negative(records) ==> counts_not_negative(
            activity_entries(records, config, window),
        ),
    decreases records.len(),
{
    if records.len() > 0 {
        let shorter = records.drop_last();
        let record = records.last();
        lemma_activity_entries(shorter, config, window);
        let before = activity_entries(shorter, config, window);
        if commit_counts_not_negative(records) {
            assert forall|i: int| 0 <= i < shorter.len() implies (
            #[trigger] shorter[i]).total_commit_count >= 0 && shorter[i].period_commit_count
                >= 0 by {
                assert(shorter[i] == records[i]);
            }
            assert(records[records.len() - 1].total_commit_count >= 0);
        }
        if shows_activity(config, record) {
            let entry = ActivityView { name: record.name, count: commit_count(record, window) };
            assert(before.push(entry).drop_last() =~= before);
            if commit_counts_not_negative(records) {
                assert forall|i: int| 0 <= i < before.push(entry).len() implies (
                #[trigger] before.push(entry)[i]).count >= 0 by {
                    if i < before.len() {
                        assert(before[i].count >= 0);
                    }
                }
            }
        }
    }
}

/// The total of the first records does not exceed that of all records,
/// where no commit count is negative.
pub proof fn lemma_activity_total_grows(
    records: Seq<RepositoryView>,
    config: ConfigView,
    window: CommitWindow,
    i: int,
)
    requires
        commit_counts_not_negative(records),
        0 <= i <= records.len(),
    ensures
        0 <= activity_total(records.take(i), config, window) <= activity_total(
            records,
            config,
            window,
        ),
    decreases records.len(),
{
    if records.len() == 0 {
        assert(records.take(i) =~= records);
    } else {
        let shorter = records.drop_last();
        assert forall|k: int| 0 <= k < shorter.len() implies (
        #[trigger] shorter[k]).total_commit_count >= 0 && shorter[k].period_commit_count >= 0 by {
            assert(shorter[k] == records[k]);
        }
        assert(records[records.len() - 1].total_commit_count >= 0);
        if i == records.len() {
            lemma_activity_total_grows(shorter, config, window, i - 1);
            assert(records.take(i) =~= records);
        } else {
            lemma_activity_total_grows(shorter, config, window, i);
            assert(shorter.take(i) =~= records.take(i));
        }
    }
}

/// Every entry is at most the sum of all, where none is negative.
pub proof fn lemma_count_within_total(entries: Seq<ActivityView>, at: int)
    requires
        counts_not_negative(entries),
        0 <= at < entries.len(),
    ensures
        0 <= entries[at].count <= entries_total(entries),
        0 <= entries_total(entries.drop_last()),
    decreases entries.len(),
{
    let shorter = entries.drop_last();
    assert forall|i: int| 0 <= i < shorter.len() implies (#[trigger] shorter[i]).count >= 0 by {
        assert(shorter[i] == entries[i]);
    }
    if shorter.len() > 0 {
        lemma_count_within_total(shorter, 0);
    }
    if at < entries.len() - 1 {
        lemma_count_within_total(shorter, at);
    }
    assert(entries.last().count >= 0);
}

/// The activity entries of one window and their total.
pub fn collect_activity(
    records: &Vec<RepositoryStat>,
    config: &Config,
    window: CommitWindow,
) -> (found: (Vec<ActivityEntry>, i64))
    requires
        commit_counts_not_negative(records_view(records@)),
        activity_total(records_view(records@), config@, window) <= i64::MAX,
    ensures
        activity_view(found.0@) == activity_entries(records_view(records@), config@, window),
        found.1 == activity_total(records_view(records@), config@, window),
{
    let ghost all = records_view(records@);
    let mut entries: Vec<ActivityEntry> = Vec::new();
    let mut total: i64 = 0;
    let mut i: usize = 0;
    assert(all.take(0) =~= Seq::<RepositoryView>::empty());
    assert(activity_view(entries@) =~= Seq::<ActivityView>::empty());
    while i < records.len()
        invariant
            i <= records.len(),
            all == records_view(records@),
            commit_counts_not_negative(all),
            activity_total(all, config@, window) <= i64::MAX,
            activity_view(entries@) == activity_entries(all.take(i as int), config@, window),
            total == activity_total(all.take(i as int), config@, window),
        decreases records.len() - i,
    {
        let record = &records[i];
        proof {
            assert(all.take(i + 1).drop_last() =~= all.take(i as int));
            assert(all.take(i + 1).last() == record@);
            assert(all[i as int] == record@);
            lemma_activity_total_grows(all, config@, window, i + 1);
            lemma_activity_total_grows(all, config@, window, i as int);
        }
        if !record.is_private && !config.ignores_repository(&record.name) {
            let count = match window {
                CommitWindow::Lifetime => record.total_commit_count,
                CommitWindow::Recent => record.period_commit_count,
            };
            let ghost before = activity_view(entries@);
            entries.push(ActivityEntry { name: record.name.clone(), count });
            total = total + count;
            assert(activity_view(entries@) =~= before.push(
                ActivityView { name: record@.name, count: commit_count(record@, window) },
            ));
        }
        i += 1;
    }
    assert(all.take(i as int) =~= all);
    (entries, total)
}

/// Whether `summary` is the activity summary of these records under this
/// configuration.
pub open spec fn is_activity_summary(
    summary: ActivitySummary,
    records: Seq<RepositoryView>,
    config: ConfigView,
) -> bool {
    &&& activity_view(summary.lifetime@) == activity_entries(
        records,
        config,
        CommitWindow::Lifetime,
    )
    &&& activity_view(summary.recent@) == activity_entries(records, config, CommitWindow::Recent)
    &&& summary.lifetime_total == activity_total(records, config, CommitWindow::Lifetime)
    &&& summary.recent_total == activity_total(records, config, CommitWindow::Recent)
}

/// The activity summary is a function of the records and the
/// configuration: two summaries of the same input agree in both lists,
/// entry by entry, and in both totals.
pub proof fn lemma_activity_summaries_agree(
    first: ActivitySummary,
    second: ActivitySummary,
    records: Seq<RepositoryView>,
    config: ConfigView,
)
    requires
        is_activity_summary(first, records, config),
        is_activity_summary(second, records, config),
    ensures
        activity_view(first.lifetime@) == activity_view(second.lifetime@),
        activity_view(first.recent@) == activity_view(second.recent@),
        first.lifetime_total == second.lifetime_total,
        first.recent_total == second.recent_total,
{
}

/// The commit activity of the repositories that are public and not
/// ignored. A repository without commits in a window is listed with a
/// count of zero.
pub fn aggregate_activity(
    records: &Vec<RepositoryStat>,
    config: &Config,
) -> (summary: ActivitySummary)
    requires
        commit_counts_not_negative(records_view(records@)),
        activity_total(records_view(records@), config@, CommitWindow::Lifetime) <= i64::MAX,
        activity_total(records_view(records@), config@, CommitWindow::Recent) <= i64::MAX,
    ensures
        is_activity_summary(summary, records_view(records@), config@),
        summary.well_formed(),
{
    proof {
        lemma_activity_entries(records_view(records@), config@, CommitWindow::Lifetime);
        lemma_activity_entries(records_view(records@), config@, CommitWindow::Recent);
    }
    let (lifetime, lifetime_total) = collect_activity(records, config, CommitWindow::Lifetime);
    let (recent, recent_total) = collect_activity(records, config, CommitWindow::Recent);
    ActivitySummary { lifetime, recent, lifetime_total, recent_total }
}

} // verus!
