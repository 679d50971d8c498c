//! Which records can be aggregated: nothing in them is negative, and the
//! totals of a run fit the machine's integers.

use vstd::prelude::*;
use crate::activity::{
    activity_total, commit_counts_not_negative, lemma_activity_total_grows, CommitWindow,
};
use crate::aggregate::{
    counted_language_size, counted_size, kept_records, language_sizes_not_negative,
    languages_not_negative, lemma_counted_language_size_grows, lemma_counted_size_grows,
    star_sum, stars_not_negative,
};
use crate::config::{Config, ConfigView};
use crate::graphql::{
    languages_view, records_view, LanguageView, RepositoryLanguage, RepositoryStat,
    RepositoryView,
};

verus! {

/// The stars of the records that are not ignored.
pub open spec fn kept_star_sum(records: Seq<RepositoryView>, config: ConfigView) -> int
    decreases records.len(),
{
    if records.len() == 0 {
        0
    } else {
        kept_star_sum(records.drop_last(), config) + if config.ignored_repositories.contains(
            records.last().name,
        ) {
            0
        } else {
            records.last().stargazer_count
        }
    }
}

/// Whether the sizes, commit counts and star counts of all records are
/// not negative.
pub open spec fn nothing_negative(records: Seq<RepositoryView>) -> bool {
    &&& language_sizes_not_negative(records)
    &&& commit_counts_not_negative(records)
    &&& stars_not_negative(records)
}

/// Whether the totals of a run fit a signed 64-bit integer.
pub open spec fn totals_fit(records: Seq<RepositoryView>, config: ConfigView) -> bool {
    &&& counted_size(records, config) <= i64::MAX
    &&& activity_total(records, config, CommitWindow::Lifetime) <= i64::MAX
    &&& activity_total(records, config, CommitWindow::Recent) <= i64::MAX
    &&& kept_star_sum(records, config) <= i64::MAX
}

/// Whether a run can be made on these records under this configuration.
pub open spec fn renderable(records: Seq<RepositoryView>, config: ConfigView) -> bool {
    nothing_negative(records) && totals_fit(records, config)
}

/// The stars of the records that are not ignored are the stars of the kept
/// records.
pub proof fn lemma_kept_star_sum(records: Seq<RepositoryView>, config: ConfigView)
    ensures
        kept_star_sum(records, config) == star_sum(kept_records(records, config)),
    decreases records.len(),
{
    if records.len() > 0 {
        lemma_kept_star_sum(records.drop_last(), config);
        if !config.ignored_repositories.contains(records.last().name) {
            let kept = kept_records(records, config);
            assert(kept.drop_last() =~= kept_records(records.drop_last(), config));
        }
    }
}

/// The kept stars of the first records do not exceed those of all records,
/// where no star count is negative.
pub proof fn lemma_kept_star_sum_grows(records: Seq<RepositoryView>, config: ConfigView, i: int)
    requires
        stars_not_negative(records),
        0 <= i <= records.len(),
    ensures
        0 <= kept_star_sum(records.take(i), config) <= kept_star_sum(records, config),
    decreases records.len(),
{
    if records.len() == 0 {
        assert(records.take(i) =~= records);
    } else {
        let shorter = records.drop_last();
        assert forall|k: int| 0 <= k < shorter.len() implies (#[trigger] shorter[k]).stargazer_count
            >= 0 by {
            assert(shorter[k] == records[k]);
        }
        assert(records[records.len() - 1].stargazer_count >= 0);
        if i == records.len() {
            lemma_kept_star_sum_grows(shorter, config, i - 1);
            assert(records.take(i) =~= records);
        } else {
            lemma_kept_star_sum_grows(shorter, config, i);
            assert(shorter.take(i) =~= records.take(i));
        }
    }
}

/// Whether no language in the list has a negative size.
fn languages_are_not_negative(languages: &Vec<RepositoryLanguage>) -> (ok: bool)
    ensures
        ok == languages_not_negative(languages_view(languages@)),
{
    let mut j: usize = 0;
    while j < languages.len()
        invariant
            j <= languages.len(),
            forall|b: int| 0 <= b < j ==> (#[trigger] languages_view(languages@)[b]).size >= 0,
        decreases languages.len() - j,
    {
        if languages[j].size < 0 {
            assert(languages_view(languages@)[j as int].size < 0);
            return false;
        }
        j += 1;
    }
    true
}

/// Whether nothing in the records is negative.
pub fn records_not_negative(records: &Vec<RepositoryStat>) -> (ok: bool)
    ensures
        ok == nothing_negative(records_view(records@)),
{
    let ghost all = records_view(records@);
    let mut i: usize = 0;
    while i < records.len()
        invariant
            i <= records.len(),
            all == records_view(records@),
            forall|a: int, b: int|
                0 <= a < i && 0 <= b < all[a].languages.len() ==> (
                #[trigger] all[a].languages[b]).size >= 0,
            forall|a: int|
                0 <= a < i ==> (#[trigger] all[a]).total_commit_count >= 0
                    && all[a].period_commit_count >= 0,
            forall|a: int| 0 <= a < i ==> (#[trigger] all[a]).stargazer_count >= 0,
        decreases records.len() - i,
    {
        let record = &records[i];
        assert(all[i as int] == record@);
        if record.total_commit_count < 0 || record.period_commit_count < 0 {
            assert(!commit_counts_not_negative(all));
            return false;
        }
        if record.stargazer_count < 0 {
            assert(!stars_not_negative(all));
            return false;
        }
        if !languages_are_not_negative(&record.languages) {
            let ghost languages = languages_view(record.languages@);
            let ghost b = choose|b: int| 0 <= b < languages.len() && languages[b].size < 0;
            assert(all[i as int].languages[b].size < 0);
            assert(!language_sizes_not_negative(all));
            return false;
        }
        i += 1;
    }
    true
}

/// The counted bytes of one repository's languages, if they stay within
/// `room`.
fn counted_languages_within(
    languages: &Vec<RepositoryLanguage>,
    config: &Config,
    room: i64,
) -> (sum: Option<i64>)
    requires
        languages_not_negative(languages_view(languages@)),
        room >= 0,
    ensures
        sum is Some <==> counted_language_size(languages_view(languages@), config@) <= room,
        sum is Some ==> sum->0 == counted_language_size(languages_view(languages@), config@),
{
    let ghost all = languages_view(languages@);
    let mut total: i64 = 0;
    let mut j: usize = 0;
    assert(all.take(0) =~= Seq::<LanguageView>::empty());
    while j < languages.len()
        invariant
            j <= languages.len(),
            all == languages_view(languages@),
            languages_not_negative(all),
            total == counted_language_size(all.take(j as int), config@),
            0 <= total <= room,
        decreases languages.len() - j,
    {
        let language = &languages[j];
        proof {
            assert(all.take(j + 1).drop_last() =~= all.take(j as int));
            assert(all.take(j + 1).last() == language@);
            assert(all[j as int].size >= 0);
            lemma_counted_language_size_grows(all, config@, j + 1);
        }
        if !config.ignores_language(&language.name) {
            if language.size > room - total {
                return None;
            }
            total = total + language.size;
        }
        j += 1;
    }
    assert(all.take(j as int) =~= all);
    Some(total)
}

/// Whether the totals of a run on these records fit.
pub fn records_fit(records: &Vec<RepositoryStat>, config: &Config) -> (ok: bool)
    requires
        nothing_negative(records_view(records@)),
    ensures
        ok == totals_fit(records_view(records@), config@),
{
    let ghost all = records_view(records@);
    let mut size: i64 = 0;
    let mut lifetime: i64 = 0;
    let mut recent: i64 = 0;
    let mut stars: i64 = 0;
    let mut i: usize = 0;
    assert(all.take(0) =~= Seq::<RepositoryView>::empty());
    while i < records.len()
        invariant
            i <= records.len(),
            all == records_view(records@),
            nothing_negative(all),
            size == counted_size(all.take(i as int), config@),
            lifetime == activity_total(all.take(i as int), config@, CommitWindow::Lifetime),
            recent == activity_total(all.take(i as int), config@, CommitWindow::Recent),
            stars == kept_star_sum(all.take(i as int), config@),
            size >= 0 && lifetime >= 0 && recent >= 0 && stars >= 0,
        decreases records.len() - i,
    {
        let record = &records[i];
        let ghost languages = record@.languages;
        proof {
            assert(all.take(i + 1).drop_last() =~= all.take(i as int));
            assert(all.take(i + 1).last() == record@);
            assert(all[i as int] == record@);
            lemma_counted_size_grows(all, config@, i + 1);
            lemma_activity_total_grows(all, config@, CommitWindow::Lifetime, i + 1);
            lemma_activity_total_grows(all, config@, CommitWindow::Recent, i + 1);
            lemma_kept_star_sum_grows(all, config@, i + 1);
            assert forall|b: int| 0 <= b < languages.len() implies (#[trigger] languages[b]).size
                >= 0 by {
                assert(all[i as int].languages[b].size >= 0);
            }
            lemma_counted_language_size_grows(languages, config@, languages.len() as int);
            assert(languages.take(languages.len() as int) =~= languages);
        }
        if !config.ignores_repository(&record.name) {
            match counted_languages_within(&record.languages, config, i64::MAX - size) {
                Some(counted) => {
                    size = size + counted;
                },
                None => {
                    return false;
                },
            }
            if record.stargazer_count > i64::MAX - stars {
                return false;
            }
            stars = stars + record.stargazer_count;
            if !record.is_private {
                if record.total_commit_count > i64::MAX - lifetime {
                    return false;
                }
                lifetime = lifetime + record.total_commit_count;
                if record.period_commit_count > i64::MAX - recent {
                    return false;
                }
                recent = recent + record.period_commit_count;
            }
        }
        i += 1;
    }
    assert(all.take(i as int) =~= all);
    true
}

/// Whether a run can be made on these records under this configuration.
pub fn can_render(records: &Vec<RepositoryStat>, config: &Config) -> (ok: bool)
    ensures
        ok == renderable(records_view(records@), config@),
{
    records_not_negative(records) && records_fit(records, config)
}

} // verus!
