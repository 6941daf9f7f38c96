//! The languages in which IMDb can be asked to show its pages, through `Accept-Language`.

use vstd::prelude::*;

verus! {

/// A language that IMDb shows content in, named by its BCP 47 tag.
#[allow(non_camel_case_types)]
#[derive(Clone, Copy, Debug, PartialEq, Eq, Structural)]
pub enum Language {
    /// American English
    en_US,
    /// British English
    en_GB,
    /// Italian (Italy)
    it_IT,
    /// French (France)
    fr_FR,
    /// German (Germany)
    de_DE,
    /// Danish (Denmark)
    da_DK,
}

/// The BCP 47 tag of a language.
pub open spec fn language_tag(l: Language) -> Seq<char> {
    match l {
        Language::en_US => "en-US"@,
        Language::en_GB => "en-GB"@,
        Language::fr_FR => "fr-FR"@,
        Language::de_DE => "de-DE"@,
        Language::da_DK => "da-DK"@,
        Language::it_IT => "it-IT"@,
    }
}

/// The name of a language in English.
pub open spec fn language_name(l: Language) -> Seq<char> {
    match l {
        Language::en_US => "American English"@,
        Language::en_GB => "British English"@,
        Language::fr_FR => "French (France)"@,
        Language::de_DE => "German (Germany)"@,
        Language::da_DK => "Danish (Denmark)"@,
        Language::it_IT => "Italian (Italy)"@,
    }
}

impl Language {
    /// The value of the `Accept-Language` header that asks for this language: its tag.
    pub fn accept_language_header(&self) -> (r: String)
        ensures
            r@ == language_tag(*self),
    {
        let tag = match *self {
            Language::en_US => "en-US",
            Language::en_GB => "en-GB",
            Language::fr_FR => "fr-FR",
            Language::de_DE => "de-DE",
            Language::da_DK => "da-DK",
            Language::it_IT => "it-IT",
        };
        tag.to_owned()
    }

    /// The name of this language in English, such as `French (France)`.
    pub fn description(&self) -> (r: &'static str)
        ensures
            r@ == language_name(*self),
    {
        match *self {
            Language::en_US => "American English",
            Language::en_GB => "British English",
            Language::fr_FR => "French (France)",
            Language::de_DE => "German (Germany)",
            Language::da_DK => "Danish (Denmark)",
            Language::it_IT => "Italian (Italy)",
        }
    }

    /// The text of this language: its tag.
    pub fn to_text(&self) -> (r: String)
        ensures
            r@ == language_tag(*self),
    {
        self.accept_language_header()
    }
}

} // verus!
