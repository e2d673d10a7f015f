//! The closed set of display languages.

use vstd::prelude::*;
use crate::text::{lowercase_of, str_eq, to_lowercase};

verus! {

/// A display language of the site.
///
/// The display order is Korean, Japanese, English; English is the default.
#[derive(Clone, Copy, PartialEq, Eq, Structural, Hash, Debug)]
pub enum Lang {
    Ko,
    Ja,
    En,
}

impl Default for Lang {
    fn default() -> (r: Lang)
        ensures
            r == Lang::En,
    {
        Lang::En
    }
}

impl Lang {
    /// The lower-case two-letter code of the language.
    pub open spec fn tag(self) -> Seq<char> {
        match self {
            Lang::Ko => "ko"@,
            Lang::Ja => "ja"@,
            Lang::En => "en"@,
        }
    }

    /// The language that a lower-case tag selects; English for every tag that is not listed.
    pub open spec fn of_tag(tag: Seq<char>) -> Lang {
        if tag == "ko"@ || tag == "ko-kr"@ || tag == "ko_kr"@ {
            Lang::Ko
        } else if tag == "ja"@ || tag == "ja-jp"@ || tag == "ja_jp"@ {
            Lang::Ja
        } else {
            Lang::En
        }
    }

    /// The language of a two-letter file-name suffix, if it is one of the three codes.
    pub open spec fn of_suffix(suffix: Seq<char>) -> Option<Lang> {
        if suffix == "ko"@ {
            Some(Lang::Ko)
        } else if suffix == "ja"@ {
            Some(Lang::Ja)
        } else if suffix == "en"@ {
            Some(Lang::En)
        } else {
            None
        }
    }

    /// All languages, in display order.
    pub open spec fn display_order() -> Seq<Lang> {
        seq![Lang::Ko, Lang::Ja, Lang::En]
    }

    /// The lower-case two-letter code, as used in file names and cookies.
    pub fn as_str(self) -> (s: &'static str)
        ensures
            s@ == self.tag(),
    {
        match self {
            Lang::Ko => "ko",
            Lang::Ja => "ja",
            Lang::En => "en",
        }
    }

    /// The lower-case two-letter code as an owned string.
    pub fn to_string(&self) -> (s: String)
        ensures
            s@ == self.tag(),
    {
        self.as_str().to_owned()
    }

    /// The language selected by a tag that is already in lower case.
    pub fn from_tag(tag: &str) -> (r: Lang)
        ensures
            r == Lang::of_tag(tag@),
    {
        if str_eq(tag, "ko") || str_eq(tag, "ko-kr") || str_eq(tag, "ko_kr") {
            Lang::Ko
        } else if str_eq(tag, "ja") || str_eq(tag, "ja-jp") || str_eq(tag, "ja_jp") {
            Lang::Ja
        } else {
            Lang::En
        }
    }

    /// The language selected by a tag in any letter case; unknown tags select English.
    pub fn parse(s: &str) -> (r: Lang)
        ensures
            r == Lang::of_tag(lowercase_of(s@)),
    {
        let lower = to_lowercase(s);
        Lang::from_tag(lower.as_str())
    }

    /// The language named by a file-name suffix, which must be exactly `ko`, `ja` or `en`.
    pub fn from_suffix(suffix: &str) -> (r: Option<Lang>)
        ensures
            r == Lang::of_suffix(suffix@),
    {
        if str_eq(suffix, "ko") {
            Some(Lang::Ko)
        } else if str_eq(suffix, "ja") {
            Some(Lang::Ja)
        } else if str_eq(suffix, "en") {
            Some(Lang::En)
        } else {
            None
        }
    }

    /// The upper-case code shown in the language switcher.
    pub fn code(self) -> (s: &'static str)
        ensures
            s@ == (match self {
                Lang::Ko => "KO"@,
                Lang::Ja => "JA"@,
                Lang::En => "EN"@,
            }),
    {
        match self {
            Lang::Ko => "KO",
            Lang::Ja => "JA",
            Lang::En => "EN",
        }
    }

    /// The name of the language in the language itself.
    pub fn label(self) -> (s: &'static str)
        ensures
            s@ == (match self {
                Lang::Ko => "한국어"@,
                Lang::Ja => "日本語"@,
                Lang::En => "English"@,
            }),
    {
        match self {
            Lang::Ko => "한국어",
            Lang::Ja => "日本語",
            Lang::En => "English",
        }
    }

    /// All languages, in display order.
    pub fn all() -> (r: [Lang; 3])
        ensures
            r@ == Lang::display_order(),
    {
        let r = [Lang::Ko, Lang::Ja, Lang::En];
        assert(r@ =~= Lang::display_order());
        r
    }

    /// Whether two languages are the same.
    pub fn same(self, other: Lang) -> (r: bool)
        ensures
            r == (self == other),
    {
        self == other
    }
}

} // verus!
