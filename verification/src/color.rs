//! The colours of languages, as the reference table defines them.

use vstd::prelude::*;
use crate::names::NameTable;

verus! {

/// What the reference table says of one language: its colour, if it has
/// one.
#[derive(Debug)]
pub struct LanguageColor {
    pub color: Option<String>,
}

/// The colours that a list of definitions gives: one for each language
/// that has a colour. Where a language is defined twice, the later
/// definition with a colour decides.
pub open spec fn defined_colors(definitions: Seq<(String, LanguageColor)>) -> Map<
    Seq<char>,
    Seq<char>,
>
    decreases definitions.len(),
{
    if definitions.len() == 0 {
        Map::empty()
    } else {
        let before = defined_colors(definitions.drop_last());
        match definitions.last().1.color {
            Some(color) => before.insert(definitions.last().0@, color@),
            None => before,
        }
    }
}

/// The colour table of the languages that have a colour.
pub fn language_color_settings(definitions: &Vec<(String, LanguageColor)>) -> (colors: NameTable)
    ensures
        colors@ == defined_colors(definitions@),
{
    let mut colors = NameTable::new();
    let mut i: usize = 0;
    assert(definitions@.take(0) =~= Seq::empty());
    while i < definitions.len()
        invariant
            i <= definitions.len(),
            colors@ == defined_colors(definitions@.take(i as int)),
        decreases definitions.len() - i,
    {
        proof {
            assert(definitions@.take(i + 1).drop_last() =~= definitions@.take(i as int));
            assert(definitions@.take(i + 1).last() == definitions@[i as int]);
        }
        match &definitions[i].1.color {
            Some(color) => {
                colors.insert(definitions[i].0.clone(), color.clone());
            },
            None => {},
        }
        i += 1;
    }
    assert(definitions@.take(i as int) =~= definitions@);
    colors
}

} // verus!
