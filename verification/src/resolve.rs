//! Resolving what a file's name says of a post: its kind, its language, its
//! translation key and its slug.

use vstd::prelude::*;
use crate::lang::Lang;
use crate::post::{Post, PostModel, PostType};
use crate::text::{chars_of, lowercase_of, opt_text, str_eq, string_of, to_lowercase};

verus! {

/// The position of the last `.` among the first `n` characters of `s`, or -1 if there is none.
pub open spec fn last_dot(s: Seq<char>, n: int) -> int
    decreases n,
{
    if n <= 0 {
        -1
    } else if s[n - 1] == '.' {
        n - 1
    } else {
        last_dot(s, n - 1)
    }
}

/// The stem and the extension of a file name.
///
/// The extension is what follows the last `.`; a name without a `.`, or whose
/// only `.` is its first character, has none.
pub open spec fn split_name(name: Seq<char>) -> (Seq<char>, Option<Seq<char>>) {
    let d = last_dot(name, name.len() as int);
    if d <= 0 {
        (name, None)
    } else {
        (name.subrange(0, d), Some(name.subrange(d + 1, name.len() as int)))
    }
}

/// Whether an extension marks a content file.
pub open spec fn is_content_extension(ext: Seq<char>) -> bool {
    ext == "md"@ || ext == "mdx"@
}

/// The stem of a content file's name, or `None` if the name is not that of a content file.
pub open spec fn content_stem_of(name: Seq<char>) -> Option<Seq<char>> {
    match split_name(name).1 {
        Some(ext) => if is_content_extension(ext) {
            Some(split_name(name).0)
        } else {
            None
        },
        None => None,
    }
}

/// The translation key and the language that the stem of a file name gives.
///
/// A stem that ends in a `.` and one of the codes `ko`, `ja`, `en` gives what
/// stands before that `.` and the language of the code. Every other stem gives
/// itself and no language.
pub open spec fn split_suffix(stem: Seq<char>) -> (Seq<char>, Option<Lang>) {
    let d = last_dot(stem, stem.len() as int);
    if d < 0 {
        (stem, None)
    } else {
        match Lang::of_suffix(stem.subrange(d + 1, stem.len() as int)) {
            Some(lang) => (stem.subrange(0, d), Some(lang)),
            None => (stem, None),
        }
    }
}

/// The translation key and the language of a post: those of the stem's suffix if
/// it has one, else the whole stem and the language of the metadata, else the
/// whole stem and the default language.
pub open spec fn resolved(stem: Seq<char>, explicit: Option<Seq<char>>) -> (Seq<char>, Lang) {
    match split_suffix(stem).1 {
        Some(lang) => (split_suffix(stem).0, lang),
        None => match explicit {
            Some(tag) => (stem, Lang::of_tag(lowercase_of(tag))),
            None => (stem, Lang::En),
        },
    }
}

/// The slug of a post: the explicit one if there is one, else the translation key.
pub open spec fn slug_for(explicit: Option<Seq<char>>, translation_key: Seq<char>) -> Seq<char> {
    match explicit {
        Some(slug) => slug,
        None => translation_key,
    }
}

/// The lemma behind `last_dot`: it is the position of a `.` with no `.` behind it.
pub proof fn lemma_last_dot(s: Seq<char>, n: int)
    requires
        0 <= n <= s.len(),
    ensures
        -1 <= last_dot(s, n) < n,
        last_dot(s, n) >= 0 ==> s[last_dot(s, n)] == '.',
        forall|j: int| last_dot(s, n) < j < n ==> s[j] != '.',
    decreases n,
{
    if n > 0 && s[n - 1] != '.' {
        lemma_last_dot(s, n - 1);
    }
}

/// A stem made of a base, a `.` and the code of a language gives the base and that language.
pub proof fn lemma_suffix_recognised(base: Seq<char>, lang: Lang)
    ensures
        split_suffix(base + seq!['.'] + lang.tag()) == (base, Some(lang)),
{
    reveal_strlit("ko");
    reveal_strlit("ja");
    reveal_strlit("en");
    let tag = lang.tag();
    let stem = base + seq!['.'] + tag;
    let n = stem.len() as int;
    assert(tag.len() == 2);
    assert(stem[n - 1] == tag[1] && stem[n - 2] == tag[0] && stem[n - 3] == '.');
    assert(tag[0] != '.' && tag[1] != '.');
    assert(last_dot(stem, n) == last_dot(stem, n - 1));
    assert(last_dot(stem, n - 1) == last_dot(stem, n - 2));
    assert(last_dot(stem, n - 2) == n - 3);
    assert(stem.subrange(n - 2, n) =~= tag);
    assert(stem.subrange(0, n - 3) =~= base);
    assert(Lang::of_suffix(tag) == Some(lang)) by {
        assert("ko"@[0] == 'k' && "ja"@[0] == 'j' && "en"@[0] == 'e');
    }
}

/// A stem that is not a base, a `.` and the code of a language gives itself and no language.
pub proof fn lemma_suffix_absent(stem: Seq<char>)
    requires
        forall|base: Seq<char>, lang: Lang| stem != #[trigger] (base + seq!['.'] + lang.tag()),
    ensures
        split_suffix(stem) == (stem, None::<Lang>),
{
    let n = stem.len() as int;
    let d = last_dot(stem, n);
    lemma_last_dot(stem, n);
    if d >= 0 {
        let suffix = stem.subrange(d + 1, n);
        if let Some(lang) = Lang::of_suffix(suffix) {
            assert(suffix == lang.tag());
            let base = stem.subrange(0, d);
            assert(stem =~= base + seq!['.'] + lang.tag());
        }
    }
}

/// The position of the last `.` of `chars`, if there is one.
fn find_last_dot(chars: &Vec<char>) -> (r: Option<usize>)
    ensures
        match r {
            Some(d) => d < chars.len() && d == last_dot(chars@, chars.len() as int),
            None => last_dot(chars@, chars.len() as int) == -1,
        },
{
    let mut n: usize = chars.len();
    while n > 0
        invariant
            n <= chars.len(),
            last_dot(chars@, chars.len() as int) == last_dot(chars@, n as int),
        decreases n,
    {
        if chars[n - 1] == '.' {
            return Some(n - 1);
        }
        n -= 1;
    }
    None
}

/// The stem of a content file's name: the name without its extension, if the
/// extension is `md` or `mdx`.
pub fn content_stem(file_name: &str) -> (r: Option<String>)
    ensures
        match r {
            Some(stem) => content_stem_of(file_name@) == Some(stem@),
            None => content_stem_of(file_name@) is None,
        },
{
    let chars = chars_of(file_name);
    match find_last_dot(&chars) {
        Some(d) => {
            if d == 0 {
                return None;
            }
            let ext = string_of(&chars, d + 1, chars.len());
            if str_eq(ext.as_str(), "md") || str_eq(ext.as_str(), "mdx") {
                Some(string_of(&chars, 0, d))
            } else {
                None
            }
        },
        None => None,
    }
}

/// The translation key and the language that the stem of a file name gives:
/// `("guide", Some(Ko))` for `guide.ko`, and `(stem, None)` for a stem without
/// a language suffix.
pub fn parse_lang_suffix(stem: &str) -> (r: (String, Option<Lang>))
    ensures
        (r.0@, r.1) == split_suffix(stem@),
{
    let chars = chars_of(stem);
    match find_last_dot(&chars) {
        Some(d) => {
            let suffix = string_of(&chars, d + 1, chars.len());
            match Lang::from_suffix(suffix.as_str()) {
                Some(lang) => (string_of(&chars, 0, d), Some(lang)),
                None => (stem.to_owned(), None),
            }
        },
        None => (stem.to_owned(), None),
    }
}

/// The translation key and the language of a post, from the stem of its file
/// name and the language tag of its metadata.
pub fn resolve_language(stem: &str, explicit: &Option<String>) -> (r: (String, Lang))
    ensures
        (r.0@, r.1) == resolved(stem@, opt_text(*explicit)),
{
    let (key, suffix) = parse_lang_suffix(stem);
    match suffix {
        Some(lang) => (key, lang),
        None => match explicit {
            Some(tag) => (key, Lang::parse(tag.as_str())),
            None => (key, Lang::En),
        },
    }
}

/// The slug of a post: the explicit one if there is one, else the translation key.
pub fn resolve_slug(explicit: &Option<String>, translation_key: &str) -> (r: String)
    ensures
        r@ == slug_for(opt_text(*explicit), translation_key@),
{
    match explicit {
        Some(slug) => slug.clone(),
        None => translation_key.to_owned(),
    }
}

/// The kind of the posts in a directory, by its name in any letter case:
/// `blog`, `review` or `diary`.
pub fn get_post_type(dir_name: &str) -> (r: Option<PostType>)
    ensures
        r == PostType::of_name(lowercase_of(dir_name@)),
{
    let lower = to_lowercase(dir_name);
    PostType::from_lower_name(lower.as_str())
}

impl Post {
    /// Sets the slug: the explicit slug of the metadata if there is one, else the
    /// translation key.
    pub fn generate_slug(&mut self)
        ensures
            final(self)@ == (PostModel {
                slug: slug_for(old(self)@.metadata.slug, old(self)@.translation_key),
                ..old(self)@
            }),
    {
        self.slug = resolve_slug(&self.metadata.slug, self.translation_key.as_str());
    }
}

} // verus!
