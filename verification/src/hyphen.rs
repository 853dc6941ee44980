//! Which dictionary divides the words of a language.

use vstd::prelude::*;

use crate::language::Language;

verus! {

/// A dictionary file, and whether the project's own corrections go with it.
#[derive(Debug, Clone, Copy)]
pub struct Dictionary {
    pub path: &'static str,
    pub curated: bool,
}

/// Only English and German are divided.
pub open spec fn divides(language: Language) -> bool {
    language == Language::English || language == Language::German
}

/// The dictionary for a language; none for one whose words are left whole.
pub fn dictionary_for(language: Language) -> (r: Option<Dictionary>)
    ensures
        match r {
            Some(d) => divides(language) && if language == Language::English {
                d.path@ == "/usr/java/lib/dictionaries/hyphen/hyph_en_US.dic"@ && d.curated
            } else {
                d.path@ == "/usr/java/lib/dictionaries/hyphen/hyph_de.dic"@ && !d.curated
            },
            None => !divides(language),
        },
{
    match language {
        Language::English => Some(
            Dictionary {
                path: "/usr/java/lib/dictionaries/hyphen/hyph_en_US.dic",
                curated: true,
            },
        ),
        Language::German => Some(
            Dictionary { path: "/usr/java/lib/dictionaries/hyphen/hyph_de.dic", curated: false },
        ),
        _ => None,
    }
}

/// Words are divided in the languages that are typed without an engine, and in no other.
pub proof fn words_are_divided_where_they_are_spelt(language: Language)
    ensures
        divides(language) <==> language.typed_through() is None,
{
}

} // verus!
