//! Folding repository records into the language summary and the commit
//! totals.

use vstd::prelude::*;
use crate::activity::{activity_entries, activity_total, CommitWindow};
use crate::config::{Config, ConfigView};
use crate::graphql::{
    languages_view, records_view, LanguageView, RepositoryStat, RepositoryView, DEFAULT_COLOR,
};
use crate::names::NameTable;
use crate::renderer::{entries_view, EntryView, LanguageSummary, LanguageSummaryValue};

verus! {

/// The colour of a language: what the colour table gives for its canonical
/// name, or the default colour.
pub open spec fn resolved_color(
    config: ConfigView,
    colors: Map<Seq<char>, Seq<char>>,
    name: Seq<char>,
) -> Seq<char> {
    let canonical = config.canonical_name(name);
    if colors.contains_key(canonical) {
        colors[canonical]
    } else {
        DEFAULT_COLOR@
    }
}

/// The position of the first entry called `name`, or the length of the list
/// if there is none.
pub open spec fn first_named(entries: Seq<EntryView>, name: Seq<char>) -> int
    decreases entries.len(),
{
    if entries.len() == 0 {
        0
    } else if entries.first().name == name {
        0
    } else {
        1 + first_named(entries.drop_first(), name)
    }
}

/// The entries after `size` bytes of the language shown as `name` were
/// added: the entry of that name grows and keeps its colour, or, if there
/// is none yet, a new entry with `color` is put at the end.
pub open spec fn merged(
    entries: Seq<EntryView>,
    name: Seq<char>,
    color: Seq<char>,
    size: int,
) -> Seq<EntryView> {
    let at = first_named(entries, name);
    if at < entries.len() {
        entries.update(at, EntryView { size: entries[at].size + size, ..entries[at] })
    } else {
        entries.push(EntryView { name, color, size })
    }
}

/// The entries after the languages of one repository were added to
/// `entries`, each but the ignored ones.
pub open spec fn with_languages(
    entries: Seq<EntryView>,
    languages: Seq<LanguageView>,
    config: ConfigView,
    colors: Map<Seq<char>, Seq<char>>,
) -> Seq<EntryView>
    decreases languages.len(),
{
    if languages.len() == 0 {
        entries
    } else {
        let before = with_languages(entries, languages.drop_last(), config, colors);
        let language = languages.last();
        if config.ignored_languages.contains(language.name) {
            before
        } else {
            merged(
                before,
                config.display_name(language.name),
                resolved_color(config, colors, language.name),
                language.size,
            )
        }
    }
}

/// The language entries of a run: the languages of every repository but
/// the ignored ones, added in input order.
pub open spec fn language_entries(
    records: Seq<RepositoryView>,
    config: ConfigView,
    colors: Map<Seq<char>, Seq<char>>,
) -> Seq<EntryView>
    decreases records.len(),
{
    if records.len() == 0 {
        Seq::<EntryView>::empty()
    } else {
        let before = language_entries(records.drop_last(), config, colors);
        let record = records.last();
        if config.ignored_repositories.contains(record.name) {
            before
        } else {
            with_languages(before, record.languages, config, colors)
        }
    }
}

/// The bytes of the languages of one repository, without the ignored
/// languages.
pub open spec fn counted_language_size(languages: Seq<LanguageView>, config: ConfigView) -> int
    decreases languages.len(),
{
    if languages.len() == 0 {
        0
    } else {
        counted_language_size(languages.drop_last(), config) + if config.ignored_languages.contains(
            languages.last().name,
        ) {
            0
        } else {
            languages.last().size
        }
    }
}

/// The bytes of all languages that count: those of repositories that are
/// not ignored, without the ignored languages.
pub open spec fn counted_size(records: Seq<RepositoryView>, config: ConfigView) -> int
    decreases records.len(),
{
    if records.len() == 0 {
        0
    } else {
        counted_size(records.drop_last(), config) + if config.ignored_repositories.contains(
            records.last().name,
        ) {
            0
        } else {
            counted_language_size(records.last().languages, config)
        }
    }
}

/// The bytes of all entries together.
pub open spec fn entries_size(entries: Seq<EntryView>) -> int
    decreases entries.len(),
{
    if entries.len() == 0 {
        0
    } else {
        entries_size(entries.drop_last()) + entries.last().size
    }
}

/// Whether no two entries have the same name.
pub open spec fn distinct_names(entries: Seq<EntryView>) -> bool {
    forall|i: int, j: int|
        0 <= i < j < entries.len() ==> (#[trigger] entries[i]).name != (#[trigger] entries[j]).name
}

/// Whether no entry has a negative size.
pub open spec fn sizes_not_negative(entries: Seq<EntryView>) -> bool {
    forall|i: int| 0 <= i < entries.len() ==> (#[trigger] entries[i]).size >= 0
}

/// Whether no language of any repository has a negative size.
pub open spec fn language_sizes_not_negative(records: Seq<RepositoryView>) -> bool {
    forall|i: int, j: int|
        0 <= i < records.len() && 0 <= j < records[i].languages.len() ==> (
        #[trigger] records[i].languages[j]).size >= 0
}

/// `first_named` finds the first entry of that name, if there is one.
pub proof fn lemma_first_named(entries: Seq<EntryView>, name: Seq<char>)
    ensures
        0 <= first_named(entries, name) <= entries.len(),
        first_named(entries, name) < entries.len() ==> entries[first_named(entries, name)].name
            == name,
        forall|k: int| 0 <= k < first_named(entries, name) ==> (#[trigger] entries[k]).name != name,
    decreases entries.len(),
{
    if entries.len() > 0 && entries.first().name != name {
        let rest = entries.drop_first();
        lemma_first_named(rest, name);
        assert forall|k: int| 0 <= k < first_named(entries, name) implies (
        #[trigger] entries[k]).name != name by {
            if k > 0 {
                assert(entries[k] == rest[k - 1]);
            }
        }
    }
}

/// Replacing one entry changes the sum by the difference of the sizes.
pub proof fn lemma_entries_size_update(entries: Seq<EntryView>, at: int, entry: EntryView)
    requires
        0 <= at < entries.len(),
    ensures
        entries_size(entries.update(at, entry)) == entries_size(entries) - entries[at].size
            + entry.size,
    decreases entries.len(),
{
    let updated = entries.update(at, entry);
    if at == entries.len() - 1 {
        assert(updated.drop_last() =~= entries.drop_last());
    } else {
        assert(updated.drop_last() =~= entries.drop_last().update(at, entry));
        lemma_entries_size_update(entries.drop_last(), at, entry);
    }
}

/// Every entry is at most the sum of all, where none is negative.
pub proof fn lemma_entry_within_total(entries: Seq<EntryView>, at: int)
    requires
        sizes_not_negative(entries),
        0 <= at < entries.len(),
    ensures
        0 <= entries[at].size <= entries_size(entries),
        0 <= entries_size(entries.drop_last()),
    decreases entries.len(),
{
    let shorter = entries.drop_last();
    assert forall|i: int| 0 <= i < shorter.len() implies (#[trigger] shorter[i]).size >= 0 by {
        assert(shorter[i] == entries[i]);
    }
    if shorter.len() > 0 {
        lemma_entry_within_total(shorter, 0);
    }
    if at < entries.len() - 1 {
        lemma_entry_within_total(shorter, at);
    }
    assert(entries.last().size >= 0);
}

/// The sum of entries of which none is negative is not negative.
pub proof fn lemma_entry_sum_not_negative(entries: Seq<EntryView>)
    requires
        sizes_not_negative(entries),
    ensures
        0 <= entries_size(entries),
{
    if entries.len() > 0 {
        lemma_entry_within_total(entries, 0);
    }
}

/// The bytes of the first entries do not exceed those of all entries,
/// where none is negative.
pub proof fn lemma_entries_size_grows(entries: Seq<EntryView>, i: int)
    requires
        sizes_not_negative(entries),
        0 <= i <= entries.len(),
    ensures
        0 <= entries_size(entries.take(i)) <= entries_size(entries),
    decreases entries.len(),
{
    if entries.len() == 0 {
        assert(entries.take(i) =~= entries);
    } else {
        let shorter = entries.drop_last();
        assert forall|k: int| 0 <= k < shorter.len() implies (#[trigger] shorter[k]).size >= 0 by {
            assert(shorter[k] == entries[k]);
        }
        assert(entries[entries.len() - 1].size >= 0);
        if i == entries.len() {
            lemma_entries_size_grows(shorter, i - 1);
            assert(entries.take(i) =~= entries);
        } else {
            lemma_entries_size_grows(shorter, i);
            assert(shorter.take(i) =~= entries.take(i));
        }
    }
}

/// Adding bytes of a language adds them to the sum of the entries, and
/// keeps names distinct and sizes non-negative.
pub proof fn lemma_merged(entries: Seq<EntryView>, name: Seq<char>, color: Seq<char>, size: int)
    ensures
        entries_size(merged(entries, name, color, size)) == entries_size(entries) + size,
        distinct_names(entries) ==> distinct_names(merged(entries, name, color, size)),
        sizes_not_negative(entries) && size >= 0 ==> sizes_not_negative(
            merged(entries, name, color, size),
        ),
{
    lemma_first_named(entries, name);
    let at = first_named(entries, name);
    let after = merged(entries, name, color, size);
    if at < entries.len() {
        lemma_entries_size_update(
            entries,
            at,
            EntryView { size: entries[at].size + size, ..entries[at] },
        );
        if distinct_names(entries) {
            assert forall|i: int, j: int| 0 <= i < j < after.len() implies (
            #[trigger] after[i]).name != (#[trigger] after[j]).name by {
                assert(after[i].name == entries[i].name);
                assert(after[j].name == entries[j].name);
            }
        }
    } else {
        assert(after.drop_last() =~= entries);
        if distinct_names(entries) {
            assert forall|i: int, j: int| 0 <= i < j < after.len() implies (
            #[trigger] after[i]).name != (#[trigger] after[j]).name by {
                assert(after[i] == entries[i]);
                if j < entries.len() {
                    assert(after[j] == entries[j]);
                }
            }
        }
    }
    if sizes_not_negative(entries) && size >= 0 {
        assert forall|i: int| 0 <= i < after.len() implies (#[trigger] after[i]).size >= 0 by {
            if i < entries.len() {
                assert(entries[i].size >= 0);
            }
        }
    }
}

/// Adds `size` bytes of the language shown as `name` to the entries.
pub fn merge_language(
    data: &mut Vec<LanguageSummaryValue>,
    name: String,
    color: String,
    size: i64,
)
    requires
        sizes_not_negative(entries_view(old(data)@)),
        size >= 0,
        entries_size(entries_view(old(data)@)) + size <= i64::MAX,
    ensures
        entries_view(final(data)@) == merged(entries_view(old(data)@), name@, color@, size as int),
{
    let ghost before = entries_view(data@);
    let mut at: usize = 0;
    assert(before.skip(0) =~= before);
    while at < data.len() && data[at].name != name
        invariant
            at <= data.len(),
            before == entries_view(data@),
            first_named(before, name@) == at + first_named(before.skip(at as int), name@),
        decreases data.len() - at,
    {
        proof {
            let rest = before.skip(at as int);
            assert(rest.first() == before[at as int]);
            assert(rest.drop_first() =~= before.skip(at + 1));
        }
        at += 1;
    }
    proof {
        let rest = before.skip(at as int);
        if at < data.len() {
            assert(rest.first() == before[at as int]);
        }
        assert(first_named(before, name@) == at);
    }
    if at < data.len() {
        proof {
            lemma_entry_within_total(before, at as int);
        }
        let entry = data.remove(at);
        let grown = LanguageSummaryValue {
            name: entry.name,
            color: entry.color,
            size: entry.size + size,
        };
        data.insert(at, grown);
        assert(entries_view(data@) =~= merged(before, name@, color@, size as int));
    } else {
        data.push(LanguageSummaryValue { name, color, size });
        assert(entries_view(data@) =~= merged(before, name@, color@, size as int));
    }
}

/// Whether no language in the list has a negative size.
pub open spec fn languages_not_negative(languages: Seq<LanguageView>) -> bool {
    forall|j: int| 0 <= j < languages.len() ==> (#[trigger] languages[j]).size >= 0
}

/// Adding the languages of a repository adds their counted bytes to the
/// sum of the entries, and keeps names distinct and sizes non-negative.
pub proof fn lemma_with_languages(
    entries: Seq<EntryView>,
    languages: Seq<LanguageView>,
    config: ConfigView,
    colors: Map<Seq<char>, Seq<char>>,
)
    ensures
        entries_size(with_languages(entries, languages, config, colors)) == entries_size(entries)
            + counted_language_size(languages, config),
        distinct_names(entries) ==> distinct_names(
            with_languages(entries, languages, config, colors),
        ),
        sizes_not_negative(entries) && languages_not_negative(languages) ==> sizes_not_negative(
            with_languages(entries, languages, config, colors),
        ),
    decreases languages.len(),
{
    if languages.len() > 0 {
        let shorter = languages.drop_last();
        let language = languages.last();
        lemma_with_languages(entries, shorter, config, colors);
        let before = with_languages(entries, shorter, config, colors);
        if languages_not_negative(languages) {
            assert forall|j: int| 0 <= j < shorter.len() implies (#[trigger] shorter[j]).size
                >= 0 by {
                assert(shorter[j] == languages[j]);
            }
            assert(languages[languages.len() - 1].size >= 0);
        }
        if !config.ignored_languages.contains(language.name) {
            lemma_merged(
                before,
                config.display_name(language.name),
                resolved_color(config, colors, language.name),
                language.size,
            );
        }
    }
}

/// The counted bytes of a repository's first languages do not exceed those
/// of all its languages, where no size is negative.
pub proof fn lemma_counted_language_size_grows(
    languages: Seq<LanguageView>,
    config: ConfigView,
    j: int,
)
    requires
        languages_not_negative(languages),
        0 <= j <= languages.len(),
    ensures
        0 <= counted_language_size(languages.take(j), config) <= counted_language_size(
            languages,
            config,
        ),
    decreases languages.len(),
{
    if languages.len() == 0 {
        assert(languages.take(j) =~= languages);
    } else {
        let shorter = languages.drop_last();
        assert forall|k: int| 0 <= k < shorter.len() implies (#[trigger] shorter[k]).size >= 0 by {
            assert(shorter[k] == languages[k]);
        }
        assert(languages[languages.len() - 1].size >= 0);
        if j == languages.len() {
            lemma_counted_language_size_grows(shorter, config, j - 1);
            assert(languages.take(j) =~= languages);
        } else {
            lemma_counted_language_size_grows(shorter, config, j);
            assert(shorter.take(j) =~= languages.take(j));
        }
    }
}

/// The counted bytes of the first records do not exceed those of all
/// records, where no size is negative.
pub proof fn lemma_counted_size_grows(records: Seq<RepositoryView>, config: ConfigView, i: int)
    requires
        language_sizes_not_negative(records),
        0 <= i <= records.len(),
    ensures
        0 <= counted_size(records.take(i), config) <= counted_size(records, config),
    decreases records.len(),
{
    if records.len() == 0 {
        assert(records.take(i) =~= records);
    } else {
        let shorter = records.drop_last();
        let record = records.last();
        assert forall|a: int, b: int|
            0 <= a < shorter.len() && 0 <= b < shorter[a].languages.len() implies (
        #[trigger] shorter[a].languages[b]).size >= 0 by {
            assert(shorter[a] == records[a]);
        }
        assert forall|b: int| 0 <= b < record.languages.len() implies (
        #[trigger] record.languages[b]).size >= 0 by {
            assert(records[records.len() - 1].languages[b].size >= 0);
        }
        lemma_counted_language_size_grows(record.languages, config, record.languages.len() as int);
        assert(record.languages.take(record.languages.len() as int) =~= record.languages);
        if i == records.len() {
            assert(records.take(i) =~= records);
            lemma_counted_size_grows(shorter, config, i - 1);
        } else {
            lemma_counted_size_grows(shorter, config, i);
            assert(shorter.take(i) =~= records.take(i));
        }
    }
}

/// The entries of a run have distinct names, and their sizes add up to the
/// counted bytes of the records; no entry is negative where no language
/// size is.
pub proof fn lemma_language_entries(
    records: Seq<RepositoryView>,
    config: ConfigView,
    colors: Map<Seq<char>, Seq<char>>,
)
    ensures
        entries_size(language_entries(records, config, colors)) == counted_size(records, config),
        distinct_names(language_entries(records, config, colors)),
        language_sizes_not_negative(records) ==> sizes_not_negative(
            language_entries(records, config, colors),
        ),
    decreases records.len(),
{
    if records.len() > 0 {
        let shorter = records.drop_last();
        let record = records.last();
        lemma_language_entries(shorter, config, colors);
        let before = language_entries(shorter, config, colors);
        if language_sizes_not_negative(records) {
            assert forall|a: int, b: int|
                0 <= a < shorter.len() && 0 <= b < shorter[a].languages.len() implies (
            #[trigger] shorter[a].languages[b]).size >= 0 by {
                assert(shorter[a] == records[a]);
            }
            assert forall|b: int| 0 <= b < record.languages.len() implies (
            #[trigger] record.languages[b]).size >= 0 by {
                assert(records[records.len() - 1].languages[b].size >= 0);
            }
        }
        if !config.ignored_repositories.contains(record.name) {
            lemma_with_languages(before, record.languages, config, colors);
        }
    }
}

/// Whether `summary` is the language summary of these records under this
/// configuration and colour table.
pub open spec fn is_language_summary(
    summary: LanguageSummary,
    records: Seq<RepositoryView>,
    config: ConfigView,
    colors: Map<Seq<char>, Seq<char>>,
) -> bool {
    &&& entries_view(summary.data@) == language_entries(records, config, colors)
    &&& summary.total_size == counted_size(records, config)
}

/// The language summary is a function of the records, the configuration
/// and the colour table: two summaries of the same input agree in their
/// entries, name by name, colour by colour and size by size, in the order
/// of the entries, and in their totals.
pub proof fn lemma_language_summaries_agree(
    first: LanguageSummary,
    second: LanguageSummary,
    records: Seq<RepositoryView>,
    config: ConfigView,
    colors: Map<Seq<char>, Seq<char>>,
)
    requires
        is_language_summary(first, records, config, colors),
        is_language_summary(second, records, config, colors),
    ensures
        entries_view(first.data@) == entries_view(second.data@),
        first.total_size == second.total_size,
{
}

/// The colour of a language.
pub fn resolve_color(config: &Config, colors: &NameTable, name: &String) -> (color: String)
    ensures
        color@ == resolved_color(config@, colors@, name@),
{
    let canonical = config.canonical_name(name);
    match colors.get(&canonical) {
        Some(found) => found.clone(),
        None => String::from_str(DEFAULT_COLOR),
    }
}

/// Folds the languages of all repositories into one entry for each name
/// that is shown, and adds up their bytes.
///
/// A repository whose name is ignored is skipped whole. A language is
/// skipped if the name under which the repository lists it is ignored.
/// Otherwise its colour is looked up under its canonical name, and its
/// bytes are added to the entry of its display name. The first language met
/// under a display name gives the entry its colour.
pub fn aggregate_languages(
    records: &Vec<RepositoryStat>,
    config: &Config,
    colors: &NameTable,
) -> (summary: LanguageSummary)
    requires
        language_sizes_not_negative(records_view(records@)),
        counted_size(records_view(records@), config@) <= i64::MAX,
    ensures
        is_language_summary(summary, records_view(records@), config@, colors@),
        summary.well_formed(),
{
    let ghost all = records_view(records@);
    proof {
        lemma_language_entries(all, config@, colors@);
    }
    let mut data: Vec<LanguageSummaryValue> = Vec::new();
    let mut total: i64 = 0;
    let mut i: usize = 0;
    assert(all.take(0) =~= Seq::<RepositoryView>::empty());
    assert(entries_view(data@) =~= Seq::<EntryView>::empty());
    while i < records.len()
        invariant
            i <= records.len(),
            all == records_view(records@),
            language_sizes_not_negative(all),
            counted_size(all, config@) <= i64::MAX,
            entries_view(data@) == language_entries(all.take(i as int), config@, colors@),
            total == counted_size(all.take(i as int), config@),
        decreases records.len() - i,
    {
        let record = &records[i];
        let ghost done = all.take(i as int);
        let ghost languages = record@.languages;
        proof {
            assert(all.take(i + 1).drop_last() =~= done);
            assert(all.take(i + 1).last() == record@);
            assert(all[i as int] == record@);
            lemma_counted_size_grows(all, config@, i + 1);
            assert forall|b: int| 0 <= b < languages.len() implies (#[trigger] languages[b]).size
                >= 0 by {
                assert(all[i as int].languages[b].size >= 0);
            }
        }
        if !config.ignores_repository(&record.name) {
            let mut j: usize = 0;
            assert(languages.take(0) =~= Seq::<LanguageView>::empty());
            while j < record.languages.len()
                invariant
                    j <= record.languages.len(),
                    languages == languages_view(record.languages@),
                    languages_not_negative(languages),
                    entries_view(data@) == with_languages(
                        language_entries(done, config@, colors@),
                        languages.take(j as int),
                        config@,
                        colors@,
                    ),
                    total == counted_size(done, config@) + counted_language_size(
                        languages.take(j as int),
                        config@,
                    ),
                    counted_size(done, config@) + counted_language_size(languages, config@)
                        <= i64::MAX,
                    language_sizes_not_negative(done),
                decreases record.languages.len() - j,
            {
                let language = &record.languages[j];
                proof {
                    assert(languages.take(j + 1).drop_last() =~= languages.take(j as int));
                    assert(languages.take(j + 1).last() == language@);
                    lemma_counted_language_size_grows(languages, config@, j + 1);
                    lemma_language_entries(done, config@, colors@);
                    lemma_with_languages(
                        language_entries(done, config@, colors@),
                        languages.take(j as int),
                        config@,
                        colors@,
                    );
                    assert forall|b: int| 0 <= b < languages.take(j as int).len() implies (
                    #[trigger] languages.take(j as int)[b]).size >= 0 by {
                        assert(languages.take(j as int)[b] == languages[b]);
                    }
                    assert(languages[j as int].size >= 0);
                }
                if !config.ignores_language(&language.name) {
                    let shown = config.display_name(&language.name);
                    let color = resolve_color(config, colors, &language.name);
                    merge_language(&mut data, shown, color, language.size);
                    total = total + language.size;
                }
                j += 1;
            }
            assert(languages.take(j as int) =~= languages);
        }
        i += 1;
    }
    assert(all.take(i as int) =~= all);
    LanguageSummary { total_size: total, data }
}

/// The records that are not ignored, in input order.
pub open spec fn kept_records(
    records: Seq<RepositoryView>,
    config: ConfigView,
) -> Seq<RepositoryView>
    decreases records.len(),
{
    if records.len() == 0 {
        Seq::<RepositoryView>::empty()
    } else {
        let before = kept_records(records.drop_last(), config);
        if config.ignored_repositories.contains(records.last().name) {
            before
        } else {
            before.push(records.last())
        }
    }
}

/// Drops the repositories whose name is ignored.
pub fn retain_records(stats: Vec<RepositoryStat>, config: &Config) -> (kept: Vec<RepositoryStat>)
    ensures
        records_view(kept@) == kept_records(records_view(stats@), config@),
{
    let ghost all = records_view(stats@);
    let mut kept: Vec<RepositoryStat> = Vec::new();
    assert(all.take(0) =~= Seq::<RepositoryView>::empty());
    assert(records_view(kept@) =~= Seq::<RepositoryView>::empty());
    for record in it: stats.into_iter()
        invariant
            it.seq() == stats@,
            all == records_view(stats@),
            records_view(kept@) == kept_records(all.take(it.index() as int), config@),
    {
        let ghost i = it.index() as int;
        let ghost before = records_view(kept@);
        proof {
            assert(all.take(i + 1).drop_last() =~= all.take(i));
            assert(all.take(i + 1).last() == record@);
        }
        if !config.ignores_repository(&record.name) {
            kept.push(record);
            assert(records_view(kept@) =~= before.push(record@));
        }
    }
    assert(all.take(all.len() as int) =~= all);
    kept
}

/// The stars of all records together.
pub open spec fn star_sum(records: Seq<RepositoryView>) -> int
    decreases records.len(),
{
    if records.len() == 0 {
        0
    } else {
        star_sum(records.drop_last()) + records.last().stargazer_count
    }
}

/// Whether no repository has a negative star count.
pub open spec fn stars_not_negative(records: Seq<RepositoryView>) -> bool {
    forall|i: int| 0 <= i < records.len() ==> (#[trigger] records[i]).stargazer_count >= 0
}

/// The stars of the first records do not exceed those of all records,
/// where no star count is negative.
pub proof fn lemma_star_sum_grows(records: Seq<RepositoryView>, i: int)
    requires
        stars_not_negative(records),
        0 <= i <= records.len(),
    ensures
        0 <= star_sum(records.take(i)) <= star_sum(records),
    decreases records.len(),
{
    if records.len() == 0 {
        assert(records.take(i) =~= records);
    } else {
        let shorter = records.drop_last();
        assert forall|k: int| 0 <= k < shorter.len() implies (#[trigger] shorter[k]).stargazer_count
            >= 0 by {
            assert(shorter[k] == records[k]);
        }
        assert(records[records.len() - 1].stargazer_count >= 0);
        if i == records.len() {
            lemma_star_sum_grows(shorter, i - 1);
            assert(records.take(i) =~= records);
        } else {
            lemma_star_sum_grows(shorter, i);
            assert(shorter.take(i) =~= records.take(i));
        }
    }
}

/// The kept records are records of the input, so what holds of every
/// record holds of every kept one; and none of them is ignored.
pub proof fn lemma_kept_records(records: Seq<RepositoryView>, config: ConfigView)
    ensures
        kept_records(records, config).len() <= records.len(),
        forall|k: int|
            0 <= k < kept_records(records, config).len() ==> records.contains(
                #[trigger] kept_records(records, config)[k],
            ) && !config.ignored_repositories.contains(kept_records(records, config)[k].name),
    decreases records.len(),
{
    if records.len() > 0 {
        let shorter = records.drop_last();
        lemma_kept_records(shorter, config);
        let kept = kept_records(records, config);
        assert forall|k: int| 0 <= k < kept.len() implies records.contains(#[trigger] kept[k])
            && !config.ignored_repositories.contains(kept[k].name) by {
            if k < kept_records(shorter, config).len() {
                let found = kept_records(shorter, config)[k];
                assert(shorter.contains(found));
                let at = choose|at: int| 0 <= at < shorter.len() && shorter[at] == found;
                assert(records[at] == found);
            } else {
                assert(records[records.len() - 1] == kept[k]);
            }
        }
    }
}

/// A repository whose name is ignored contributes nothing: without it the
/// language entries, the counted bytes, the activity entries and total of
/// either window, and the kept records with their stars are the same.
pub proof fn lemma_ignored_repository_contributes_nothing(
    records: Seq<RepositoryView>,
    config: ConfigView,
    colors: Map<Seq<char>, Seq<char>>,
    window: CommitWindow,
    at: int,
)
    requires
        0 <= at < records.len(),
        config.ignored_repositories.contains(records[at].name),
    ensures
        language_entries(records.remove(at), config, colors) == language_entries(
            records,
            config,
            colors,
        ),
        counted_size(records.remove(at), config) == counted_size(records, config),
        activity_entries(records.remove(at), config, window) == activity_entries(
            records,
            config,
            window,
        ),
        activity_total(records.remove(at), config, window) == activity_total(
            records,
            config,
            window,
        ),
        kept_records(records.remove(at), config) == kept_records(records, config),
        star_sum(kept_records(records.remove(at), config)) == star_sum(
            kept_records(records, config),
        ),
    decreases records.len(),
{
    let without = records.remove(at);
    if at == records.len() - 1 {
        assert(without =~= records.drop_last());
    } else {
        assert(without.drop_last() =~= records.drop_last().remove(at));
        assert(without.last() == records.last());
        lemma_ignored_repository_contributes_nothing(
            records.drop_last(),
            config,
            colors,
            window,
            at,
        );
    }
}

/// The language entries, the counted bytes and the activity of a run are
/// those of its kept records.
pub proof fn lemma_kept_records_suffice(
    records: Seq<RepositoryView>,
    config: ConfigView,
    colors: Map<Seq<char>, Seq<char>>,
    window: CommitWindow,
)
    ensures
        language_entries(kept_records(records, config), config, colors) == language_entries(
            records,
            config,
            colors,
        ),
        counted_size(kept_records(records, config), config) == counted_size(records, config),
        activity_entries(kept_records(records, config), config, window) == activity_entries(
            records,
            config,
            window,
        ),
        activity_total(kept_records(records, config), config, window) == activity_total(
            records,
            config,
            window,
        ),
    decreases records.len(),
{
    if records.len() > 0 {
        let shorter = records.drop_last();
        lemma_kept_records_suffice(shorter, config, colors, window);
        if !config.ignored_repositories.contains(records.last().name) {
            let kept = kept_records(records, config);
            assert(kept.drop_last() =~= kept_records(shorter, config));
            assert(kept.last() == records.last());
        }
    }
}

/// Among the kept records none is ignored, so keeping them again changes
/// nothing.
pub proof fn lemma_kept_records_idempotent(records: Seq<RepositoryView>, config: ConfigView)
    ensures
        kept_records(kept_records(records, config), config) == kept_records(records, config),
    decreases records.len(),
{
    if records.len() > 0 {
        lemma_kept_records_idempotent(records.drop_last(), config);
        if !config.ignored_repositories.contains(records.last().name) {
            let kept = kept_records(records, config);
            assert(kept.drop_last() =~= kept_records(records.drop_last(), config));
        }
    }
}

} // verus!
