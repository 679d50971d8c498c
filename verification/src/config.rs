//! The rules that an aggregation run is made under.

use vstd::prelude::*;
use crate::names::{contains_name, name_set, NameTable};

verus! {

/// The rules of one run: what is left out, how language names are
/// canonicalised and relabelled, and how long a panel may be.
#[derive(Debug)]
pub struct Config {
    /// The largest number of items in a panel.
    pub languages_count: usize,
    /// Repositories that are left out of everything.
    pub ignore_repositories: Vec<String>,
    /// Languages that are left out of the language summary.
    pub ignore_languages: Vec<String>,
    /// From a language name to its canonical name.
    pub language_mapping: NameTable,
    /// From a canonical name to the name that is shown.
    pub rename_language: NameTable,
}

/// A configuration as sets and maps of names.
pub struct ConfigView {
    pub max_count: nat,
    pub ignored_repositories: Set<Seq<char>>,
    pub ignored_languages: Set<Seq<char>>,
    pub mapping: Map<Seq<char>, Seq<char>>,
    pub rename: Map<Seq<char>, Seq<char>>,
}

impl View for Config {
    type V = ConfigView;

    open spec fn view(&self) -> ConfigView {
        ConfigView {
            max_count: self.languages_count as nat,
            ignored_repositories: name_set(self.ignore_repositories@),
            ignored_languages: name_set(self.ignore_languages@),
            mapping: self.language_mapping@,
            rename: self.rename_language@,
        }
    }
}

impl ConfigView {
    /// The canonical name of a language: what the mapping gives, or the
    /// name itself.
    pub open spec fn canonical_name(self, name: Seq<char>) -> Seq<char> {
        if self.mapping.contains_key(name) {
            self.mapping[name]
        } else {
            name
        }
    }

    /// The name under which a language is shown: what the renaming gives
    /// for its canonical name, or the canonical name itself.
    pub open spec fn display_name(self, name: Seq<char>) -> Seq<char> {
        let canonical = self.canonical_name(name);
        if self.rename.contains_key(canonical) {
            self.rename[canonical]
        } else {
            canonical
        }
    }
}

impl Config {
    /// Whether a repository of this name is left out.
    pub fn ignores_repository(&self, name: &String) -> (ignored: bool)
        ensures
            ignored == self@.ignored_repositories.contains(name@),
    {
        contains_name(&self.ignore_repositories, name)
    }

    /// Whether a language of this name, as the repository lists it, is left
    /// out.
    pub fn ignores_language(&self, name: &String) -> (ignored: bool)
        ensures
            ignored == self@.ignored_languages.contains(name@),
    {
        contains_name(&self.ignore_languages, name)
    }

    /// The canonical name of a language.
    pub fn canonical_name(&self, name: &String) -> (canonical: String)
        ensures
            canonical@ == self@.canonical_name(name@),
    {
        match self.language_mapping.get(name) {
            Some(mapped) => mapped.clone(),
            None => name.clone(),
        }
    }

    /// The name under which a language is shown.
    pub fn display_name(&self, name: &String) -> (shown: String)
        ensures
            shown@ == self@.display_name(name@),
    {
        let canonical = self.canonical_name(name);
        match self.rename_language.get(&canonical) {
            Some(renamed) => renamed.clone(),
            None => canonical,
        }
    }
}

} // verus!
