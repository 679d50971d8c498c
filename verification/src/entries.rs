//! What the language entries of a run say of its records, name by name:
//! the entry of a display name holds the bytes of all languages shown
//! under that name, and the colour of the first of them.

use vstd::prelude::*;
use crate::aggregate::{
    first_named, language_entries, lemma_first_named, merged, resolved_color, with_languages,
};
use crate::config::ConfigView;
use crate::graphql::{LanguageView, RepositoryView};
use crate::renderer::EntryView;

verus! {

/// Whether a language of a repository is shown under `shown`: it is not
/// ignored, and `shown` is its display name.
pub open spec fn shown_under(config: ConfigView, language: LanguageView, shown: Seq<char>) -> bool {
    !config.ignored_languages.contains(language.name) && config.display_name(language.name)
        == shown
}

/// The bytes of the languages in the list that are shown under `shown`.
pub open spec fn language_size_under(
    languages: Seq<LanguageView>,
    config: ConfigView,
    shown: Seq<char>,
) -> int
    decreases languages.len(),
{
    if languages.len() == 0 {
        0
    } else {
        language_size_under(languages.drop_last(), config, shown) + if shown_under(
            config,
            languages.last(),
            shown,
        ) {
            languages.last().size
        } else {
            0
        }
    }
}

/// The bytes of all languages shown under `shown`, in the repositories
/// that are not ignored.
pub open spec fn size_under(
    records: Seq<RepositoryView>,
    config: ConfigView,
    shown: Seq<char>,
) -> int
    decreases records.len(),
{
    if records.len() == 0 {
        0
    } else {
        size_under(records.drop_last(), config, shown) + if config.ignored_repositories.contains(
            records.last().name,
        ) {
            0
        } else {
            language_size_under(records.last().languages, config, shown)
        }
    }
}

/// The colour of the first language in the list that is shown under
/// `shown`, if there is one.
pub open spec fn first_color_among(
    languages: Seq<LanguageView>,
    config: ConfigView,
    colors: Map<Seq<char>, Seq<char>>,
    shown: Seq<char>,
) -> Option<Seq<char>>
    decreases languages.len(),
{
    if languages.len() == 0 {
        None
    } else {
        match first_color_among(languages.drop_last(), config, colors, shown) {
            Some(color) => Some(color),
            None => if shown_under(config, languages.last(), shown) {
                Some(resolved_color(config, colors, languages.last().name))
            } else {
                None
            },
        }
    }
}

/// The colour of the first language shown under `shown` in the
/// repositories that are not ignored, if there is one.
pub open spec fn first_color(
    records: Seq<RepositoryView>,
    config: ConfigView,
    colors: Map<Seq<char>, Seq<char>>,
    shown: Seq<char>,
) -> Option<Seq<char>>
    decreases records.len(),
{
    if records.len() == 0 {
        None
    } else {
        match first_color(records.drop_last(), config, colors, shown) {
            Some(color) => Some(color),
            None => if config.ignored_repositories.contains(records.last().name) {
                None
            } else {
                first_color_among(records.last().languages, config, colors, shown)
            },
        }
    }
}

/// The size of the entry called `shown`, or zero if there is none.
pub open spec fn entry_size(entries: Seq<EntryView>, shown: Seq<char>) -> int {
    let at = first_named(entries, shown);
    if at < entries.len() {
        entries[at].size
    } else {
        0
    }
}

/// The colour of the entry called `shown`, if there is one.
pub open spec fn entry_color(entries: Seq<EntryView>, shown: Seq<char>) -> Option<Seq<char>> {
    let at = first_named(entries, shown);
    if at < entries.len() {
        Some(entries[at].color)
    } else {
        None
    }
}

/// The first entry of a name stands where an entry has the name and none
/// before it has.
proof fn lemma_first_named_is(entries: Seq<EntryView>, name: Seq<char>, at: int)
    requires
        0 <= at <= entries.len(),
        at < entries.len() ==> entries[at].name == name,
        forall|k: int| 0 <= k < at ==> (#[trigger] entries[k]).name != name,
    ensures
        first_named(entries, name) == at,
{
    lemma_first_named(entries, name);
    let found = first_named(entries, name);
    if found < at {
        assert(entries[found].name != name);
    }
}

/// Adding bytes under a name adds them to the entry of that name, gives a
/// new entry the colour that comes with the bytes, and leaves the entries
/// of other names as they are.
pub proof fn lemma_merged_entry(
    entries: Seq<EntryView>,
    name: Seq<char>,
    color: Seq<char>,
    size: int,
    shown: Seq<char>,
)
    ensures
        entry_size(merged(entries, name, color, size), shown) == entry_size(entries, shown)
            + if name == shown {
            size
        } else {
            0
        },
        entry_color(merged(entries, name, color, size), shown) == match entry_color(
            entries,
            shown,
        ) {
            Some(kept) => Some(kept),
            None => if name == shown {
                Some(color)
            } else {
                None
            },
        },
{
    lemma_first_named(entries, name);
    lemma_first_named(entries, shown);
    let at = first_named(entries, name);
    let seen = first_named(entries, shown);
    let after = merged(entries, name, color, size);
    if at < entries.len() {
        assert forall|k: int| 0 <= k < seen implies (#[trigger] after[k]).name != shown by {
            assert(entries[k].name != shown);
        }
        lemma_first_named_is(after, shown, seen);
    } else if name == shown {
        assert forall|k: int| 0 <= k < entries.len() implies (#[trigger] after[k]).name
            != shown by {
            assert(entries[k].name != shown);
        }
        lemma_first_named_is(after, shown, entries.len() as int);
    } else {
        let to = if seen < entries.len() {
            seen
        } else {
            after.len() as int
        };
        assert forall|k: int| 0 <= k < to implies (#[trigger] after[k]).name != shown by {
            if k < entries.len() {
                assert(entries[k].name != shown);
            }
        }
        lemma_first_named_is(after, shown, to);
    }
}

/// After the languages of a repository were added, the entry of a name
/// has grown by their bytes under that name, and has kept its colour or
/// got that of the first of them.
pub proof fn lemma_with_languages_entry(
    entries: Seq<EntryView>,
    languages: Seq<LanguageView>,
    config: ConfigView,
    colors: Map<Seq<char>, Seq<char>>,
    shown: Seq<char>,
)
    ensures
        entry_size(with_languages(entries, languages, config, colors), shown) == entry_size(
            entries,
            shown,
        ) + language_size_under(languages, config, shown),
        entry_color(with_languages(entries, languages, config, colors), shown) == match entry_color(
            entries,
            shown,
        ) {
            Some(kept) => Some(kept),
            None => first_color_among(languages, config, colors, shown),
        },
    decreases languages.len(),
{
    if languages.len() > 0 {
        let language = languages.last();
        lemma_with_languages_entry(entries, languages.drop_last(), config, colors, shown);
        if !config.ignored_languages.contains(language.name) {
            lemma_merged_entry(
                with_languages(entries, languages.drop_last(), config, colors),
                config.display_name(language.name),
                resolved_color(config, colors, language.name),
                language.size,
                shown,
            );
        }
    }
}

/// The entry of a display name holds the bytes of all languages that are
/// shown under that name, and the colour of the first of them. A name
/// under which no language is shown has no entry.
pub proof fn lemma_language_entry(
    records: Seq<RepositoryView>,
    config: ConfigView,
    colors: Map<Seq<char>, Seq<char>>,
    shown: Seq<char>,
)
    ensures
        entry_size(language_entries(records, config, colors), shown) == size_under(
            records,
            config,
            shown,
        ),
        entry_color(language_entries(records, config, colors), shown) == first_color(
            records,
            config,
            colors,
            shown,
        ),
    decreases records.len(),
{
    if records.len() > 0 {
        lemma_language_entry(records.drop_last(), config, colors, shown);
        if !config.ignored_repositories.contains(records.last().name) {
            lemma_with_languages_entry(
                language_entries(records.drop_last(), config, colors),
                records.last().languages,
                config,
                colors,
                shown,
            );
        }
    }
}

} // verus!
