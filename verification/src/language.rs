//! The wordlist languages and their names.

use crate::error::SearchError;
use vstd::prelude::*;

verus! {

/// A BIP-39 wordlist language.
#[derive(Clone, Copy, Debug, PartialEq, Eq, Structural)]
pub enum Language {
    English,
    Portuguese,
    Spanish,
    French,
    Italian,
    Czech,
    Korean,
    Japanese,
    SimplifiedChinese,
    TraditionalChinese,
}

/// The language that a lower-case name stands for.
pub open spec fn language_named(name: Seq<char>) -> Option<Language> {
    if name == "english"@ {
        Some(Language::English)
    } else if name == "portuguese"@ {
        Some(Language::Portuguese)
    } else if name == "spanish"@ {
        Some(Language::Spanish)
    } else if name == "french"@ {
        Some(Language::French)
    } else if name == "italian"@ {
        Some(Language::Italian)
    } else if name == "czech"@ {
        Some(Language::Czech)
    } else if name == "korean"@ {
        Some(Language::Korean)
    } else if name == "japanese"@ {
        Some(Language::Japanese)
    } else if name == "chinese-simplified"@ {
        Some(Language::SimplifiedChinese)
    } else if name == "chinese-traditional"@ {
        Some(Language::TraditionalChinese)
    } else {
        None
    }
}

/// What `str::to_lowercase` returns for a text.
pub uninterp spec fn lowercase_of(text: Seq<char>) -> Seq<char>;

/// Calls `str::to_lowercase`. Trusted: the result is `lowercase_of` of the
/// text, a function of the text alone.
#[verifier::external_body]
fn to_lowercase(text: &str) -> (lower: String)
    ensures
        lower@ == lowercase_of(text@),
{
    text.to_lowercase()
}

/// The language with exactly this name, if there is one.
pub fn language_of_name(name: &str) -> (language: Option<Language>)
    ensures
        language == language_named(name@),
{
    let name = name.to_owned();
    if name == "english".to_owned() {
        Some(Language::English)
    } else if name == "portuguese".to_owned() {
        Some(Language::Portuguese)
    } else if name == "spanish".to_owned() {
        Some(Language::Spanish)
    } else if name == "french".to_owned() {
        Some(Language::French)
    } else if name == "italian".to_owned() {
        Some(Language::Italian)
    } else if name == "czech".to_owned() {
        Some(Language::Czech)
    } else if name == "korean".to_owned() {
        Some(Language::Korean)
    } else if name == "japanese".to_owned() {
        Some(Language::Japanese)
    } else if name == "chinese-simplified".to_owned() {
        Some(Language::SimplifiedChinese)
    } else if name == "chinese-traditional".to_owned() {
        Some(Language::TraditionalChinese)
    } else {
        None
    }
}

/// The language that a name stands for, whatever the case of its letters;
/// a name outside the supported set is an error.
pub fn parse_language(lang: &str) -> (language: Result<Language, SearchError>)
    ensures
        language == match language_named(lowercase_of(lang@)) {
            Some(found) => Ok::<Language, SearchError>(found),
            None => Err(SearchError::UnknownLanguage),
        },
{
    let lower = to_lowercase(lang);
    match language_of_name(lower.as_str()) {
        Some(found) => Ok(found),
        None => Err(SearchError::UnknownLanguage),
    }
}

} // verus!
