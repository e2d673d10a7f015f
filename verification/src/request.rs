//! What a request says: the language it asks for and the parameters of its query.

use vstd::prelude::*;
use crate::lang::Lang;
use crate::scan::{
    find_from, find_sep, first_occurrence, matches_at, next_sep, occurs_at, pieces,
    pieces_from, trim_bounds, trimmed,
};
use crate::text::{chars_of, lowercase_of, push_char, slice_of, str_eq, string_of, to_lowercase};

verus! {

/// One entry of an `Accept-Language` header.
#[derive(Debug)]
pub struct AcceptEntry {
    /// The language of the entry, if it is one of the site's.
    pub lang: Option<Lang>,
    /// The text of the entry's quality value, if it has one.
    pub quality: Option<String>,
}

/// The model of an `AcceptEntry`.
pub ghost struct AcceptModel {
    pub lang: Option<Lang>,
    pub quality: Option<Seq<char>>,
}

impl View for AcceptEntry {
    type V = AcceptModel;

    open spec fn view(&self) -> AcceptModel {
        AcceptModel {
            lang: self.lang,
            quality: match self.quality {
                Some(q) => Some(q@),
                None => None,
            },
        }
    }
}

/// The model of a list of entries.
pub open spec fn accept_view(entries: Seq<AcceptEntry>) -> Seq<AcceptModel> {
    entries.map_values(|e: AcceptEntry| e@)
}

/// The mark that introduces the quality value of an entry.
pub open spec fn quality_mark() -> Seq<char> {
    seq![';', 'q', '=']
}

/// The language tag of an entry: what stands before the quality value, trimmed.
pub open spec fn entry_tag(entry: Seq<char>) -> Seq<char> {
    let q = first_occurrence(entry, quality_mark(), 0);
    if q <= entry.len() {
        trimmed(entry.subrange(0, q))
    } else {
        entry
    }
}

/// The quality value of an entry: what stands behind `;q=`, trimmed.
pub open spec fn entry_quality(entry: Seq<char>) -> Option<Seq<char>> {
    let q = first_occurrence(entry, quality_mark(), 0);
    if q <= entry.len() {
        Some(trimmed(entry.subrange(q + 3, entry.len() as int)))
    } else {
        None
    }
}

/// The primary subtag of a language tag: what stands before its first `-`.
pub open spec fn primary_subtag(tag: Seq<char>) -> Seq<char> {
    tag.subrange(0, next_sep(tag, '-', 0))
}

/// What one piece of an `Accept-Language` header says.
pub open spec fn accept_entry(piece: Seq<char>) -> AcceptModel {
    let entry = trimmed(piece);
    AcceptModel {
        lang: Lang::of_suffix(lowercase_of(primary_subtag(entry_tag(entry)))),
        quality: entry_quality(entry),
    }
}

/// The entries of an `Accept-Language` header, which are separated by commas.
pub open spec fn accept_entries(header: Seq<char>) -> Seq<AcceptModel> {
    pieces(header, ',').map_values(|p: Seq<char>| accept_entry(p))
}

/// The size of a 32-bit IEEE 754 number, without its sign.
pub open spec fn magnitude(bits: u32) -> int {
    (bits % 0x8000_0000) as int
}

/// Whether the bits are those of a NaN.
pub open spec fn is_nan(bits: u32) -> bool {
    magnitude(bits) > 0x7F80_0000
}

/// An integer that orders the numbers as their values are ordered.
pub open spec fn float_key(bits: u32) -> int {
    if bits >= 0x8000_0000 {
        -magnitude(bits)
    } else {
        magnitude(bits)
    }
}

/// Whether the number with the bits `a` is greater than the one with the bits `b`.
///
/// A NaN is greater than nothing, and nothing is greater than a NaN.
pub open spec fn float_gt(a: u32, b: u32) -> bool {
    !is_nan(a) && !is_nan(b) && float_key(a) > float_key(b)
}

/// The bits of 1.0, the quality of an entry without a quality value.
pub const QUALITY_ONE: u32 = 0x3F80_0000;

/// The bits of 0.0, the quality of an entry whose quality value is no number.
pub const QUALITY_ZERO: u32 = 0;

/// The bits of -1.0, below every quality that selects a language.
pub const QUALITY_NONE: u32 = 0xBF80_0000;

/// The quality of an entry, given the bits of its quality value if it is a number.
pub open spec fn quality_of(entry: AcceptModel, parsed: Option<u32>) -> u32 {
    match entry.quality {
        None => QUALITY_ONE,
        Some(_) => match parsed {
            Some(bits) => bits,
            None => QUALITY_ZERO,
        },
    }
}

/// The best language among the first `n` entries, and its quality.
///
/// An entry wins over the entries before it only with a greater quality.
pub open spec fn best_among(entries: Seq<AcceptModel>, parsed: Seq<Option<u32>>, n: nat) -> (Lang, u32)
    decreases n,
{
    if n == 0 {
        (Lang::En, QUALITY_NONE)
    } else {
        let before = best_among(entries, parsed, (n - 1) as nat);
        let quality = quality_of(entries[n - 1], parsed[n - 1]);
        match entries[n - 1].lang {
            Some(lang) => if float_gt(quality, before.1) {
                (lang, quality)
            } else {
                before
            },
            None => before,
        }
    }
}

/// Whether the number with the bits `a` is greater than the one with the bits `b`.
pub fn quality_gt(a: u32, b: u32) -> (r: bool)
    ensures
        r == float_gt(a, b),
{
    let ma: u32 = a % 0x8000_0000;
    let mb: u32 = b % 0x8000_0000;
    if ma > 0x7F80_0000 || mb > 0x7F80_0000 {
        return false;
    }
    let ka: i64 = if a >= 0x8000_0000 {
        -(ma as i64)
    } else {
        ma as i64
    };
    let kb: i64 = if b >= 0x8000_0000 {
        -(mb as i64)
    } else {
        mb as i64
    };
    ka > kb
}

/// What one piece of an `Accept-Language` header says.
pub fn read_accept_entry(piece: &Vec<char>) -> (r: AcceptEntry)
    ensures
        r@ == accept_entry(piece@),
{
    let (a, b) = trim_bounds(piece, 0, piece.len());
    assert(piece@.subrange(0, piece.len() as int) =~= piece@);
    let entry = slice_of(piece, a, b);
    let mut mark: Vec<char> = Vec::new();
    mark.push(';');
    mark.push('q');
    mark.push('=');
    assert(mark@ =~= quality_mark());
    let (tag, quality) = match find_from(&entry, &mark, 0) {
        Some(q) => {
            let (ta, tb) = trim_bounds(&entry, 0, q);
            let (qa, qb) = trim_bounds(&entry, q + 3, entry.len());
            (slice_of(&entry, ta, tb), Some(string_of(&entry, qa, qb)))
        },
        None => (slice_of(&entry, 0, entry.len()), None),
    };
    proof {
        assert(entry@.subrange(0, entry.len() as int) =~= entry@);
        assert(tag@ == entry_tag(entry@));
    }
    let dash = find_sep(&tag, '-', 0);
    let primary = string_of(&tag, 0, dash);
    let lower = to_lowercase(primary.as_str());
    AcceptEntry { lang: Lang::from_suffix(lower.as_str()), quality }
}

impl Lang {
    /// The entries of an `Accept-Language` header, in order.
    pub fn accept_candidates(header_value: &str) -> (r: Vec<AcceptEntry>)
        ensures
            accept_view(r@) == accept_entries(header_value@),
    {
        let chars = chars_of(header_value);
        let ghost all = accept_entries(chars@);
        let mut out: Vec<AcceptEntry> = Vec::new();
        let mut from: usize = 0;
        loop
            invariant
                from <= chars.len(),
                chars@ == header_value@,
                all == accept_entries(chars@),
                accept_view(out@) + pieces_from(chars@, ',', from as int).map_values(
                    |p: Seq<char>| accept_entry(p),
                ) =~= all,
            decreases chars.len() - from,
        {
            let d = find_sep(&chars, ',', from);
            let piece = slice_of(&chars, from, d);
            let entry = read_accept_entry(&piece);
            let ghost before = accept_view(out@);
            let ghost rest = pieces_from(chars@, ',', from as int);
            out.push(entry);
            assert(accept_view(out@) =~= before.push(accept_entry(piece@)));
            if d >= chars.len() {
                assert(rest =~= seq![piece@]);
                assert(accept_view(out@) =~= all);
                return out;
            }
            proof {
                let tail = pieces_from(chars@, ',', d + 1);
                assert(rest =~= seq![piece@] + tail);
                assert(rest.map_values(|p: Seq<char>| accept_entry(p)) =~= seq![accept_entry(piece@)]
                    + tail.map_values(|p: Seq<char>| accept_entry(p)));
            }
            from = d + 1;
        }
    }

    /// The language that a list of entries asks for: the one with the greatest
    /// quality, the earlier of two with the same; English if no entry names a
    /// language of the site.
    ///
    /// `parsed` holds, for each entry, the bits of its quality value as a 32-bit
    /// IEEE 754 number, or `None` if the value is no number.
    pub fn best_accepted(entries: &Vec<AcceptEntry>, parsed: &Vec<Option<u32>>) -> (r: Lang)
        requires
            parsed.len() == entries.len(),
        ensures
            r == best_among(accept_view(entries@), parsed@, entries@.len()).0,
    {
        let mut best = Lang::En;
        let mut best_quality: u32 = QUALITY_NONE;
        let mut i: usize = 0;
        while i < entries.len()
            invariant
                i <= entries.len(),
                parsed.len() == entries.len(),
                (best, best_quality) == best_among(accept_view(entries@), parsed@, i as nat),
            decreases entries.len() - i,
        {
            assert(accept_view(entries@)[i as int] == entries[i as int]@);
            let quality = match entries[i].quality {
                None => QUALITY_ONE,
                Some(_) => match parsed[i] {
                    Some(bits) => bits,
                    None => QUALITY_ZERO,
                },
            };
            match entries[i].lang {
                Some(lang) => {
                    if quality_gt(quality, best_quality) {
                        best = lang;
                        best_quality = quality;
                    }
                },
                None => {},
            }
            i += 1;
        }
        best
    }
}

/// The name under which the language is kept in a cookie, with the `=` behind it.
pub open spec fn cookie_mark() -> Seq<char> {
    seq!['l', 'a', 'n', 'g', '=']
}

/// The language of the first of the cookies `cookies[from..]` that is named `lang`.
pub open spec fn cookie_lang_from(cookies: Seq<Seq<char>>, from: int) -> Option<Lang>
    decreases cookies.len() - from,
{
    if from < 0 || from >= cookies.len() {
        None
    } else {
        let cookie = trimmed(cookies[from]);
        if occurs_at(cookie, cookie_mark(), 0) {
            Some(Lang::of_tag(lowercase_of(trimmed(cookie.subrange(5, cookie.len() as int)))))
        } else {
            cookie_lang_from(cookies, from + 1)
        }
    }
}

/// The language that a `Cookie` header asks for: that of its first cookie named `lang`.
pub open spec fn cookie_lang(header: Seq<char>) -> Option<Lang> {
    cookie_lang_from(pieces(header, ';'), 0)
}

/// The language that a `Cookie` header asks for, if it holds a cookie named `lang`.
pub fn lang_from_cookie(cookie_header: &str) -> (r: Option<Lang>)
    ensures
        r == cookie_lang(cookie_header@),
{
    let chars = chars_of(cookie_header);
    let ghost all = pieces(chars@, ';');
    let mut mark: Vec<char> = Vec::new();
    mark.push('l');
    mark.push('a');
    mark.push('n');
    mark.push('g');
    mark.push('=');
    assert(mark@ =~= cookie_mark());
    let mut from: usize = 0;
    let ghost mut k: int = 0;
    loop
        invariant
            from <= chars.len(),
            chars@ == cookie_header@,
            mark@ == cookie_mark(),
            all == pieces(chars@, ';'),
            0 <= k <= all.len(),
            all.skip(k) =~= pieces_from(chars@, ';', from as int),
            cookie_lang_from(all, 0) == cookie_lang_from(all, k),
        decreases chars.len() - from,
    {
        let d = find_sep(&chars, ';', from);
        let piece = slice_of(&chars, from, d);
        let ghost rest = pieces_from(chars@, ';', from as int);
        proof {
            assert(rest.len() >= 1 && rest[0] == piece@);
            assert(all.skip(k)[0] == all[k]);
        }
        let (a, b) = trim_bounds(&piece, 0, piece.len());
        assert(piece@.subrange(0, piece.len() as int) =~= piece@);
        let cookie = slice_of(&piece, a, b);
        if matches_at(&cookie, &mark, 0) {
            let (va, vb) = trim_bounds(&cookie, 5, cookie.len());
            let value = string_of(&cookie, va, vb);
            return Some(Lang::parse(value.as_str()));
        }
        if d >= chars.len() {
            assert(rest =~= seq![piece@]);
            assert(all.len() == k + 1);
            assert(all[k] == piece@);
            assert(cookie_lang_from(all, k + 1) is None);
            assert(cookie_lang_from(all, k) is None);
            return None;
        }
        proof {
            let tail = pieces_from(chars@, ';', d + 1);
            assert(rest =~= seq![piece@] + tail);
            assert(all.skip(k + 1) =~= all.skip(k).skip(1));
            assert(all.skip(k).skip(1) =~= tail);
            k = k + 1;
        }
        from = d + 1;
    }
}

/// The language that a request asks for.
#[derive(Clone, Copy, Debug)]
pub struct LangExtractor(pub Lang);

impl LangExtractor {
    /// The language of a request: that of the `lang` cookie if there is one, else
    /// the one that the `Accept-Language` header asks for, else English.
    ///
    /// `cookie` is the `Cookie` header, `accepted` the language chosen from the
    /// `Accept-Language` header, each if the request has it.
    pub fn resolve(cookie: Option<&str>, accepted: Option<Lang>) -> (r: LangExtractor)
        ensures
            r.0 == (match cookie {
                Some(c) => match cookie_lang(c@) {
                    Some(lang) => lang,
                    None => match accepted {
                        Some(lang) => lang,
                        None => Lang::En,
                    },
                },
                None => match accepted {
                    Some(lang) => lang,
                    None => Lang::En,
                },
            }),
    {
        let from_cookie = match cookie {
            Some(c) => lang_from_cookie(c),
            None => None,
        };
        match from_cookie {
            Some(lang) => LangExtractor(lang),
            None => match accepted {
                Some(lang) => LangExtractor(lang),
                None => LangExtractor(Lang::En),
            },
        }
    }
}

/// Whether a `sort` parameter asks for ascending order: only the value `asc` does.
pub open spec fn asks_ascending(sort: Option<String>) -> bool {
    sort matches Some(s) && s@ == "asc"@
}

/// Whether a `sort` parameter asks for ascending order.
pub fn is_ascending(sort: &Option<String>) -> (r: bool)
    ensures
        r == asks_ascending(*sort),
{
    match sort {
        Some(s) => str_eq(s.as_str(), "asc"),
        None => false,
    }
}

/// The page that a `page` parameter asks for: the first if there is none.
pub fn page_or_first(page: Option<u32>) -> (r: u32)
    ensures
        r == (match page {
            Some(p) => p,
            None => 1u32,
        }),
{
    match page {
        Some(p) => p,
        None => 1,
    }
}

/// The query of the blog listing.
#[derive(Debug)]
pub struct BlogQuery {
    pub category: Option<String>,
    pub page: Option<u32>,
    pub sort: Option<String>,
}

/// The query of the review listing.
#[derive(Debug)]
pub struct ReviewQuery {
    pub category: Option<String>,
    pub page: Option<u32>,
    pub sort: Option<String>,
}

/// The query of the diary listing.
#[derive(Debug)]
pub struct DiaryQuery {
    pub category: Option<String>,
    pub page: Option<u32>,
    pub sort: Option<String>,
}

/// The query of the series listing.
#[derive(Debug)]
pub struct SeriesQuery {
    pub sort: Option<String>,
}

/// The query of the page of one series.
#[derive(Debug)]
pub struct SeriesDetailQuery {
    pub sort: Option<String>,
    pub page: Option<u32>,
}

/// The query of the guestbook.
#[derive(Debug)]
pub struct GuestbookQuery {
    pub sort: Option<String>,
    pub page: Option<u32>,
}

/// The query of the feed.
#[derive(Debug)]
pub struct FeedQuery {
    pub lang: Option<String>,
}

/// The query of a search.
#[derive(Debug)]
pub struct SearchQuery {
    pub q: String,
    pub lang: String,
}

/// The query that sets the language.
#[derive(Debug)]
pub struct SetLangQuery {
    pub lang: String,
}

impl BlogQuery {
    /// The page asked for.
    pub fn page(&self) -> (r: u32)
        ensures
            r == (match self.page {
                Some(p) => p,
                None => 1u32,
            }),
    {
        page_or_first(self.page)
    }

    /// Whether the oldest posts are asked for first.
    pub fn sort_asc(&self) -> (r: bool)
        ensures
            r == asks_ascending(self.sort),
    {
        is_ascending(&self.sort)
    }
}

impl ReviewQuery {
    /// The page asked for.
    pub fn page(&self) -> (r: u32)
        ensures
            r == (match self.page {
                Some(p) => p,
                None => 1u32,
            }),
    {
        page_or_first(self.page)
    }

    /// Whether the oldest posts are asked for first.
    pub fn sort_asc(&self) -> (r: bool)
        ensures
            r == asks_ascending(self.sort),
    {
        is_ascending(&self.sort)
    }
}

impl DiaryQuery {
    /// The page asked for.
    pub fn page(&self) -> (r: u32)
        ensures
            r == (match self.page {
                Some(p) => p,
                None => 1u32,
            }),
    {
        page_or_first(self.page)
    }

    /// Whether the oldest posts are asked for first.
    pub fn sort_asc(&self) -> (r: bool)
        ensures
            r == asks_ascending(self.sort),
    {
        is_ascending(&self.sort)
    }
}

impl SeriesQuery {
    /// Whether the series updated longest ago are asked for first.
    pub fn sort_asc(&self) -> (r: bool)
        ensures
            r == asks_ascending(self.sort),
    {
        is_ascending(&self.sort)
    }
}

impl SeriesDetailQuery {
    /// The page asked for.
    pub fn page(&self) -> (r: u32)
        ensures
            r == (match self.page {
                Some(p) => p,
                None => 1u32,
            }),
    {
        page_or_first(self.page)
    }

    /// Whether the posts are asked for in chain order.
    pub fn sort_asc(&self) -> (r: bool)
        ensures
            r == asks_ascending(self.sort),
    {
        is_ascending(&self.sort)
    }
}

impl GuestbookQuery {
    /// The page asked for.
    pub fn page(&self) -> (r: u32)
        ensures
            r == (match self.page {
                Some(p) => p,
                None => 1u32,
            }),
    {
        page_or_first(self.page)
    }

    /// Whether the oldest entries are asked for first.
    pub fn sort_asc(&self) -> (r: bool)
        ensures
            r == asks_ascending(self.sort),
    {
        is_ascending(&self.sort)
    }
}

impl FeedQuery {
    /// The language the feed is restricted to, if any.
    pub fn lang_filter(&self) -> (r: Option<Lang>)
        ensures
            r == (match self.lang {
                Some(tag) => Some(Lang::of_tag(lowercase_of(tag@))),
                None => None,
            }),
    {
        match &self.lang {
            Some(tag) => Some(Lang::parse(tag.as_str())),
            None => None,
        }
    }
}

impl SearchQuery {
    /// The language in which results are preferred.
    pub fn search_lang(&self) -> (r: Lang)
        ensures
            r == Lang::of_tag(lowercase_of(self.lang@)),
    {
        Lang::parse(self.lang.as_str())
    }
}

impl SetLangQuery {
    /// The language to set.
    pub fn target(&self) -> (r: Lang)
        ensures
            r == Lang::of_tag(lowercase_of(self.lang@)),
    {
        Lang::parse(self.lang.as_str())
    }
}

/// The position behind the last character of the first `n` of `s` that is not `/`.
pub open spec fn without_slashes(s: Seq<char>, n: int) -> int
    decreases n,
{
    if n <= 0 {
        0
    } else if s[n - 1] != '/' {
        n
    } else {
        without_slashes(s, n - 1)
    }
}

/// The address that a request for `path` is sent on to, if `path` ends in `/`
/// and is not the root: the path without the slashes at its end, with the query
/// behind it if there is one.
pub open spec fn redirect_target(path: Seq<char>, query: Option<Seq<char>>) -> Option<Seq<char>> {
    if path.len() > 1 && path.last() == '/' {
        let kept = path.subrange(0, without_slashes(path, path.len() as int));
        match query {
            Some(q) => Some(kept + seq!['?'] + q),
            None => Some(kept),
        }
    } else {
        None
    }
}

/// The address to which a request for a path with a trailing slash is redirected.
pub fn trailing_slash_target(path: &str, query: Option<&str>) -> (r: Option<String>)
    ensures
        (match r {
            Some(target) => Some(target@),
            None => None,
        }) == redirect_target(
            path@,
            match query {
                Some(q) => Some(q@),
                None => None,
            },
        ),
{
    let chars = chars_of(path);
    if chars.len() <= 1 || chars[chars.len() - 1] != '/' {
        return None;
    }
    let mut n: usize = chars.len();
    while n > 0 && chars[n - 1] == '/'
        invariant
            n <= chars.len(),
            without_slashes(chars@, chars.len() as int) == without_slashes(chars@, n as int),
        decreases n,
    {
        n -= 1;
    }
    let mut target = string_of(&chars, 0, n);
    match query {
        Some(q) => {
            push_char(&mut target, '?');
            target.append(q);
            Some(target)
        },
        None => Some(target),
    }
}

} // verus!
