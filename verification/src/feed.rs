//! The Atom feed and the sitemap of the site.

use std::fmt::Write;
use vstd::prelude::*;
use crate::anchor::{decimal, decimal_string};
use crate::lang::Lang;
use crate::post::{as_refs, catalog, pick_refs, refs, select, Post, PostModel, Timestamp};
use crate::query::{by_created, sort_by_created};
use crate::summary::{series_view, Series, SeriesModel};
use crate::sort::{keys_of, sort_positions, stable_order};
use crate::text::{html_escape, html_escaped, push_char, str_eq, texts};
use crate::dedup::{dedup, dedup_refs_by_translation};

verus! {

/// The number of entries that the feed holds at most.
pub const FEED_LIMIT: usize = 20;

/// What `chrono` writes for an instant in UTC with a `strftime` pattern: `None` if
/// the instant is outside the range of `chrono::DateTime` or the pattern is not valid.
pub uninterp spec fn utc_text(at: Timestamp, pattern: Seq<char>) -> Option<Seq<char>>;

/// Calls `chrono::DateTime::from_timestamp` and writes what `DateTime::format`
/// gives for the pattern into a string; `None` if there is no such instant or the
/// pattern cannot be written. The text is a function of the instant and the
/// pattern; it is named, not described.
#[verifier::external_body]
pub(crate) fn format_utc(at: Timestamp, pattern: &str) -> (r: Option<String>)
    ensures
        (match r {
            Some(text) => Some(text@),
            None => None,
        }) == utc_text(at, pattern@),
{
    let time = chrono::DateTime::from_timestamp(at.secs, at.nanos)?;
    let mut text = String::new();
    write!(text, "{}", time.format(pattern)).ok()?;
    Some(text)
}

/// The text of an instant in a pattern; empty if the instant cannot be written.
pub open spec fn date_text(at: Timestamp, pattern: Seq<char>) -> Seq<char> {
    match utc_text(at, pattern) {
        Some(text) => text,
        None => Seq::<char>::empty(),
    }
}

/// The text of an instant in UTC in a `strftime` pattern; empty if the instant
/// cannot be written.
pub fn format_date(at: Timestamp, pattern: &str) -> (r: String)
    ensures
        r@ == date_text(at, pattern@),
{
    match format_utc(at, pattern) {
        Some(text) => text,
        None => String::new(),
    }
}

/// The numeral of a count of seconds, with a `-` before it if the count is negative.
pub open spec fn seconds_numeral(secs: int) -> Seq<char> {
    if secs < 0 {
        seq!['-'] + decimal((-secs) as nat)
    } else {
        decimal(secs as nat)
    }
}

/// The numeral of a count of seconds.
pub fn seconds_string(secs: i64) -> (r: String)
    ensures
        r@ == seconds_numeral(secs as int),
{
    if secs < 0 {
        let mut r = String::new();
        push_char(&mut r, '-');
        let size: i128 = -(secs as i128);
        r.append(decimal_string(size as u64).as_str());
        assert(r@ =~= seconds_numeral(secs as int));
        r
    } else {
        decimal_string(secs as u64)
    }
}

/// `acc` with one more line: an opening, a content and a closing.
pub open spec fn line(acc: Seq<char>, open: Seq<char>, content: Seq<char>, close: Seq<char>) -> Seq<char> {
    acc + open + content + close
}

/// Appends one line: an opening, a content and a closing.
fn push_line(xml: &mut String, open: &str, content: &str, close: &str)
    ensures
        final(xml)@ == line(old(xml)@, open@, content@, close@),
{
    xml.append(open);
    xml.append(content);
    xml.append(close);
}

/// Whether a post passes the language filter of the feed.
pub open spec fn passes(p: PostModel, only: Option<Lang>) -> bool {
    only matches Some(lang) ==> p.lang == lang
}

/// `passes` as a predicate on posts.
pub open spec fn lang_filter(only: Option<Lang>) -> spec_fn(PostModel) -> bool {
    |p: PostModel| passes(p, only)
}

/// The language for which the feed picks among translations: the one it is
/// restricted to, or English.
pub open spec fn feed_lang(only: Option<Lang>) -> Lang {
    match only {
        Some(lang) => lang,
        None => Lang::En,
    }
}

/// The posts of the feed: those in the language asked for, if one is, one per
/// translation key, newest first, at most `FEED_LIMIT`.
pub open spec fn feed_posts(posts: Seq<PostModel>, only: Option<Lang>) -> Seq<PostModel> {
    let all = by_created(dedup(posts.filter(lang_filter(only)), feed_lang(only)), false);
    if all.len() <= FEED_LIMIT {
        all
    } else {
        all.take(FEED_LIMIT as int)
    }
}

/// The posts of the feed.
pub fn select_feed_posts<'a>(posts: &'a [Post], only: Option<Lang>) -> (r: Vec<&'a Post>)
    ensures
        refs(r@) == feed_posts(catalog(posts@), only),
        r.len() <= FEED_LIMIT,
{
    let ghost pred = lang_filter(only);
    let ghost model = catalog(posts@);
    let mut kept: Vec<&Post> = Vec::new();
    let mut i: usize = 0;
    while i < posts.len()
        invariant
            i <= posts.len(),
            model == catalog(posts@),
            pred == lang_filter(only),
            refs(kept@) == model.take(i as int).filter(pred),
        decreases posts.len() - i,
    {
        let p = &posts[i];
        let wanted = match only {
            Some(lang) => p.lang.same(lang),
            None => true,
        };
        proof {
            reveal(Seq::filter);
            assert(model.take(i + 1).drop_last() =~= model.take(i as int));
            assert(model.take(i + 1).last() == p@);
            assert(wanted == pred(p@));
        }
        let ghost before = refs(kept@);
        if wanted {
            kept.push(p);
            assert(refs(kept@) =~= before.push(p@));
        }
        i += 1;
    }
    assert(model.take(posts@.len() as int) =~= model);
    let lang = match only {
        Some(lang) => lang,
        None => Lang::En,
    };
    let unique = dedup_refs_by_translation(kept, lang);
    let mut sorted = sort_by_created(&unique, false);
    if sorted.len() > FEED_LIMIT {
        let ghost all = refs(sorted@);
        sorted.truncate(FEED_LIMIT);
        assert(refs(sorted@) =~= all.take(FEED_LIMIT as int));
    }
    sorted
}

/// The pattern of the timestamps of the feed.
pub open spec fn atom_pattern() -> Seq<char> {
    "%Y-%m-%dT%H:%M:%SZ"@
}

/// The pattern of the dates of the sitemap.
pub open spec fn day_pattern() -> Seq<char> {
    "%Y-%m-%d"@
}

/// The time of the feed's last update: that of its first entry, or the start of 2024.
pub open spec fn feed_updated(entries: Seq<PostModel>) -> Seq<char> {
    if entries.len() > 0 {
        date_text(entries[0].metadata.updated_at, atom_pattern())
    } else {
        "2024-01-01T00:00:00Z"@
    }
}

/// The entity tag of the feed: it changes with the update time of the first entry.
pub open spec fn feed_tag(entries: Seq<PostModel>) -> Seq<char> {
    if entries.len() > 0 {
        "\"feed-"@ + seconds_numeral(entries[0].metadata.updated_at.secs as int) + "\""@
    } else {
        "\"feed-0\""@
    }
}

/// The entity tag of the feed.
pub fn feed_etag(entries: &Vec<&Post>) -> (r: String)
    ensures
        r@ == feed_tag(refs(entries@)),
{
    if entries.len() > 0 {
        let mut r = "\"feed-".to_owned();
        r.append(seconds_string(entries[0].metadata.updated_at.secs).as_str());
        r.append("\"");
        r
    } else {
        "\"feed-0\"".to_owned()
    }
}

/// The head of the feed.
pub open spec fn feed_head(site_url: Seq<char>, description: Seq<char>, updated: Seq<char>) -> Seq<char> {
    let a = line(Seq::<char>::empty(), "<?xml version=\"1.0\" encoding=\"utf-8\"?>\n"@, ""@, ""@);
    let b = line(a, "<feed xmlns=\"http://www.w3.org/2005/Atom\">\n"@, ""@, ""@);
    let c = line(b, "  <title>"@, html_escaped("miniex.blog"@), "</title>\n"@);
    let d = line(c, "  <subtitle>"@, html_escaped(description), "</subtitle>\n"@);
    let e = line(d, "  <link href=\""@, site_url, "/feed.xml\" rel=\"self\" type=\"application/atom+xml\"/>\n"@);
    let f = line(e, "  <link href=\""@, site_url, "\" rel=\"alternate\" type=\"text/html\"/>\n"@);
    let g = line(f, "  <id>"@, site_url, "/</id>\n"@);
    let h = line(g, "  <updated>"@, updated, "</updated>\n"@);
    let i = line(h, "  <author>\n"@, "    <name>Han Damin</name>\n"@, "  </author>\n"@);
    i
}

/// `acc` with one category line for each of the first `n` tags.
pub open spec fn with_tags(acc: Seq<char>, tags: Seq<Seq<char>>, n: nat) -> Seq<char>
    decreases n,
{
    if n == 0 {
        acc
    } else {
        line(with_tags(acc, tags, (n - 1) as nat), "    <category term=\""@, html_escaped(tags[n - 1]), "\"/>\n"@)
    }
}

/// `acc` with the entry of one post.
pub open spec fn with_entry(acc: Seq<char>, p: PostModel, site_url: Seq<char>) -> Seq<char> {
    let a = line(acc, "  <entry>\n"@, ""@, ""@);
    let b = line(a, "    <title>"@, html_escaped(p.metadata.title), "</title>\n"@);
    let c = line(b, "    <link href=\""@, site_url + "/post/"@ + p.slug, "\" rel=\"alternate\" type=\"text/html\"/>\n"@);
    let d = line(c, "    <id>"@, site_url + "/post/"@ + p.slug, "</id>\n"@);
    let e = line(d, "    <published>"@, date_text(p.metadata.created_at, atom_pattern()), "</published>\n"@);
    let f = line(e, "    <updated>"@, date_text(p.metadata.updated_at, atom_pattern()), "</updated>\n"@);
    let g = line(f, "    <author>\n"@, ""@, ""@);
    let h = line(g, "      <name>"@, html_escaped(p.metadata.author), "</name>\n"@);
    let i = line(h, "    </author>\n"@, ""@, ""@);
    let j = line(i, "    <summary>"@, html_escaped(p.metadata.description), "</summary>\n"@);
    let k = line(j, "    <category term=\""@, html_escaped(p.post_type.lower_name()), "\"/>\n"@);
    let l = with_tags(k, p.metadata.tags, p.metadata.tags.len());
    line(l, "  </entry>\n"@, ""@, ""@)
}

/// `acc` with the entries of the first `n` posts.
pub open spec fn with_entries(acc: Seq<char>, entries: Seq<PostModel>, site_url: Seq<char>, n: nat) -> Seq<char>
    decreases n,
{
    if n == 0 {
        acc
    } else {
        with_entry(with_entries(acc, entries, site_url, (n - 1) as nat), entries[n - 1], site_url)
    }
}

/// The Atom feed of the entries.
pub open spec fn feed_document(entries: Seq<PostModel>, site_url: Seq<char>, description: Seq<char>) -> Seq<char> {
    line(
        with_entries(feed_head(site_url, description, feed_updated(entries)), entries, site_url, entries.len()),
        "</feed>\n"@,
        ""@,
        ""@,
    )
}

/// The address of a post.
fn post_url(site_url: &str, slug: &str) -> (r: String)
    ensures
        r@ == site_url@ + "/post/"@ + slug@,
{
    let mut r = site_url.to_owned();
    r.append("/post/");
    r.append(slug);
    r
}

/// Appends the entry of one post.
fn push_entry(xml: &mut String, p: &Post, site_url: &str)
    ensures
        final(xml)@ == with_entry(old(xml)@, p@, site_url@),
{
    let url = post_url(site_url, p.slug.as_str());
    push_line(xml, "  <entry>\n", "", "");
    push_line(xml, "    <title>", html_escape(p.metadata.title.as_str()).as_str(), "</title>\n");
    push_line(xml, "    <link href=\"", url.as_str(), "\" rel=\"alternate\" type=\"text/html\"/>\n");
    push_line(xml, "    <id>", url.as_str(), "</id>\n");
    push_line(
        xml,
        "    <published>",
        format_date(p.metadata.created_at, "%Y-%m-%dT%H:%M:%SZ").as_str(),
        "</published>\n",
    );
    push_line(
        xml,
        "    <updated>",
        format_date(p.metadata.updated_at, "%Y-%m-%dT%H:%M:%SZ").as_str(),
        "</updated>\n",
    );
    push_line(xml, "    <author>\n", "", "");
    push_line(xml, "      <name>", html_escape(p.metadata.author.as_str()).as_str(), "</name>\n");
    push_line(xml, "    </author>\n", "", "");
    push_line(xml, "    <summary>", html_escape(p.metadata.description.as_str()).as_str(), "</summary>\n");
    push_line(xml, "    <category term=\"", html_escape(p.post_type.as_lower_str()).as_str(), "\"/>\n");
    let ghost start = xml@;
    let ghost tags = texts(p.metadata.tags@);
    let mut i: usize = 0;
    while i < p.metadata.tags.len()
        invariant
            i <= p.metadata.tags.len(),
            tags == texts(p.metadata.tags@),
            xml@ == with_tags(start, tags, i as nat),
        decreases p.metadata.tags.len() - i,
    {
        assert(tags[i as int] == p.metadata.tags[i as int]@);
        push_line(xml, "    <category term=\"", html_escape(p.metadata.tags[i].as_str()).as_str(), "\"/>\n");
        i += 1;
    }
    push_line(xml, "  </entry>\n", "", "");
}

/// The Atom feed of the entries, for the site at `site_url` with the given description.
pub fn feed_xml(entries: &Vec<&Post>, site_url: &str, description: &str) -> (r: String)
    ensures
        r@ == feed_document(refs(entries@), site_url@, description@),
{
    let updated = if entries.len() > 0 {
        format_date(entries[0].metadata.updated_at, "%Y-%m-%dT%H:%M:%SZ")
    } else {
        "2024-01-01T00:00:00Z".to_owned()
    };
    let mut xml = String::new();
    push_line(&mut xml, "<?xml version=\"1.0\" encoding=\"utf-8\"?>\n", "", "");
    push_line(&mut xml, "<feed xmlns=\"http://www.w3.org/2005/Atom\">\n", "", "");
    push_line(&mut xml, "  <title>", html_escape("miniex.blog").as_str(), "</title>\n");
    push_line(&mut xml, "  <subtitle>", html_escape(description).as_str(), "</subtitle>\n");
    push_line(&mut xml, "  <link href=\"", site_url, "/feed.xml\" rel=\"self\" type=\"application/atom+xml\"/>\n");
    push_line(&mut xml, "  <link href=\"", site_url, "\" rel=\"alternate\" type=\"text/html\"/>\n");
    push_line(&mut xml, "  <id>", site_url, "/</id>\n");
    push_line(&mut xml, "  <updated>", updated.as_str(), "</updated>\n");
    push_line(&mut xml, "  <author>\n", "    <name>Han Damin</name>\n", "  </author>\n");
    let ghost head = xml@;
    let ghost model = refs(entries@);
    assert(head == feed_head(site_url@, description@, feed_updated(model)));
    let mut i: usize = 0;
    while i < entries.len()
        invariant
            i <= entries.len(),
            model == refs(entries@),
            xml@ == with_entries(head, model, site_url@, i as nat),
        decreases entries.len() - i,
    {
        assert(model[i as int] == entries[i as int]@);
        push_entry(&mut xml, entries[i], site_url);
        i += 1;
    }
    push_line(&mut xml, "</feed>\n", "", "");
    xml
}

/// The latest update among the first `n` posts, in seconds since the epoch; 0 if there is no post.
pub open spec fn latest_update(posts: Seq<PostModel>, n: nat) -> int
    decreases n,
{
    if n == 0 {
        0
    } else {
        let before = latest_update(posts, (n - 1) as nat);
        let secs = posts[n - 1].metadata.updated_at.secs as int;
        if n == 1 || secs > before {
            secs
        } else {
            before
        }
    }
}

/// The entity tag of the sitemap: it changes with the latest update of a post.
pub open spec fn sitemap_tag(posts: Seq<PostModel>) -> Seq<char> {
    "\"sitemap-"@ + seconds_numeral(latest_update(posts, posts.len())) + "\""@
}

/// The entity tag of the sitemap.
pub fn sitemap_etag(posts: &[Post]) -> (r: String)
    ensures
        r@ == sitemap_tag(catalog(posts@)),
{
    let ghost model = catalog(posts@);
    let mut latest: i64 = 0;
    let mut i: usize = 0;
    while i < posts.len()
        invariant
            i <= posts.len(),
            model == catalog(posts@),
            latest == latest_update(model, i as nat),
        decreases posts.len() - i,
    {
        let secs = posts[i].metadata.updated_at.secs;
        assert(model[i as int].metadata.updated_at.secs == secs);
        if i == 0 || secs > latest {
            latest = secs;
        }
        i += 1;
    }
    let mut r = "\"sitemap-".to_owned();
    r.append(seconds_string(latest).as_str());
    r.append("\"");
    r
}

/// `acc` with the entry of a page that changes weekly.
pub open spec fn with_page(acc: Seq<char>, site_url: Seq<char>, path: Seq<char>) -> Seq<char> {
    let a = line(acc, "  <url>\n"@, ""@, ""@);
    let b = line(a, "    <loc>"@, site_url + path, "</loc>\n"@);
    let c = line(b, "    <changefreq>weekly</changefreq>\n"@, ""@, ""@);
    line(c, "  </url>\n"@, ""@, ""@)
}

/// The head of the sitemap, with the entries of the fixed pages.
pub open spec fn sitemap_head(site_url: Seq<char>) -> Seq<char> {
    let a = line(Seq::<char>::empty(), "<?xml version=\"1.0\" encoding=\"utf-8\"?>\n"@, ""@, ""@);
    let b = line(a, "<urlset xmlns=\"http://www.sitemaps.org/schemas/sitemap/0.9\"\n"@, ""@, ""@);
    let c = line(b, "        xmlns:xhtml=\"http://www.w3.org/1999/xhtml\">\n"@, ""@, ""@);
    let d = with_page(c, site_url, "/"@);
    let e = with_page(d, site_url, "/blog"@);
    let f = with_page(e, site_url, "/review"@);
    let g = with_page(f, site_url, "/diary"@);
    let h = with_page(g, site_url, "/series"@);
    with_page(h, site_url, "/guestbook"@)
}

/// `acc` with the entry of the page of one series.
pub open spec fn with_series(acc: Seq<char>, s: SeriesModel, site_url: Seq<char>) -> Seq<char> {
    let a = line(acc, "  <url>\n"@, ""@, ""@);
    let b = line(a, "    <loc>"@, site_url + "/series/"@ + s.name, "</loc>\n"@);
    let c = line(b, "    <lastmod>"@, date_text(s.updated_at, day_pattern()), "</lastmod>\n"@);
    let d = line(c, "    <changefreq>weekly</changefreq>\n"@, ""@, ""@);
    line(d, "  </url>\n"@, ""@, ""@)
}

/// `acc` with the entries of the first `n` series.
pub open spec fn with_all_series(acc: Seq<char>, list: Seq<SeriesModel>, site_url: Seq<char>, n: nat) -> Seq<char>
    decreases n,
{
    if n == 0 {
        acc
    } else {
        with_series(with_all_series(acc, list, site_url, (n - 1) as nat), list[n - 1], site_url)
    }
}

/// The number of posts among the first `n` with the translation key `key`.
pub open spec fn variants(posts: Seq<PostModel>, key: Seq<char>, n: nat) -> nat
    decreases n,
{
    if n == 0 {
        0
    } else {
        variants(posts, key, (n - 1) as nat) + if posts[n - 1].translation_key == key {
            1nat
        } else {
            0nat
        }
    }
}

/// `acc` with a link to each of the first `n` posts that has the translation key `key`.
pub open spec fn with_alternates(
    acc: Seq<char>,
    posts: Seq<PostModel>,
    key: Seq<char>,
    site_url: Seq<char>,
    n: nat,
) -> Seq<char>
    decreases n,
{
    if n == 0 {
        acc
    } else {
        let before = with_alternates(acc, posts, key, site_url, (n - 1) as nat);
        let p = posts[n - 1];
        if p.translation_key == key {
            line(
                line(before, "    <xhtml:link rel=\"alternate\" hreflang=\""@, p.lang.tag(), "\" href=\""@),
                site_url,
                "/post/"@ + p.slug,
                "\"/>\n"@,
            )
        } else {
            before
        }
    }
}

/// `acc` with the entry of a post, and with links to all its translations if it has any.
pub open spec fn with_post(acc: Seq<char>, posts: Seq<PostModel>, p: PostModel, site_url: Seq<char>) -> Seq<char> {
    let a = line(acc, "  <url>\n"@, ""@, ""@);
    let b = line(a, "    <loc>"@, site_url + "/post/"@ + p.slug, "</loc>\n"@);
    let c = line(b, "    <lastmod>"@, date_text(p.metadata.updated_at, day_pattern()), "</lastmod>\n"@);
    let d = line(c, "    <changefreq>monthly</changefreq>\n"@, ""@, ""@);
    let e = if variants(posts, p.translation_key, posts.len()) > 1 {
        with_alternates(d, posts, p.translation_key, site_url, posts.len())
    } else {
        d
    };
    line(e, "  </url>\n"@, ""@, ""@)
}

/// Whether none of the first `i` posts of `sorted` has the translation key of the post at `i`.
pub open spec fn leads_its_key(sorted: Seq<PostModel>, i: int) -> bool {
    forall|j: int| 0 <= j < i ==> (#[trigger] sorted[j]).translation_key != sorted[i].translation_key
}

/// `acc` with the entries of those of the first `n` posts of `sorted` that lead their key.
pub open spec fn with_posts(
    acc: Seq<char>,
    posts: Seq<PostModel>,
    sorted: Seq<PostModel>,
    site_url: Seq<char>,
    n: nat,
) -> Seq<char>
    decreases n,
{
    if n == 0 {
        acc
    } else {
        let before = with_posts(acc, posts, sorted, site_url, (n - 1) as nat);
        if leads_its_key(sorted, n - 1) {
            with_post(before, posts, sorted[n - 1], site_url)
        } else {
            before
        }
    }
}

/// The keys that order posts by their last update, latest first.
pub open spec fn updated_keys(posts: Seq<PostModel>) -> Seq<int> {
    posts.map_values(|p: PostModel| -p.metadata.updated_at.key())
}

/// The posts in stable order of their last update, latest first.
pub open spec fn by_updated(posts: Seq<PostModel>) -> Seq<PostModel> {
    select(posts, stable_order(updated_keys(posts), posts.len()))
}

/// The sitemap: the fixed pages, the series, and for each translation key the
/// post that was updated last.
pub open spec fn sitemap_document(posts: Seq<PostModel>, list: Seq<SeriesModel>, site_url: Seq<char>) -> Seq<char> {
    let head = sitemap_head(site_url);
    let series = with_all_series(head, list, site_url, list.len());
    let all = with_posts(series, posts, by_updated(posts), site_url, posts.len());
    line(all, "</urlset>\n"@, ""@, ""@)
}

/// Appends the entry of a page that changes weekly.
fn push_page(xml: &mut String, site_url: &str, path: &str)
    ensures
        final(xml)@ == with_page(old(xml)@, site_url@, path@),
{
    let mut url = site_url.to_owned();
    url.append(path);
    push_line(xml, "  <url>\n", "", "");
    push_line(xml, "    <loc>", url.as_str(), "</loc>\n");
    push_line(xml, "    <changefreq>weekly</changefreq>\n", "", "");
    push_line(xml, "  </url>\n", "", "");
}

/// The number of posts with the translation key `key`.
fn count_variants(posts: &[Post], key: &str) -> (r: usize)
    ensures
        r == variants(catalog(posts@), key@, posts@.len()),
{
    let ghost model = catalog(posts@);
    let mut r: usize = 0;
    let mut i: usize = 0;
    while i < posts.len()
        invariant
            i <= posts.len(),
            model == catalog(posts@),
            r == variants(model, key@, i as nat),
            r <= i,
        decreases posts.len() - i,
    {
        assert(model[i as int].translation_key == posts[i as int].translation_key@);
        if str_eq(posts[i].translation_key.as_str(), key) {
            r += 1;
        }
        i += 1;
    }
    r
}

/// Appends the entry of a post.
fn push_post(xml: &mut String, posts: &[Post], p: &Post, site_url: &str)
    ensures
        final(xml)@ == with_post(old(xml)@, catalog(posts@), p@, site_url@),
{
    let ghost model = catalog(posts@);
    let url = post_url(site_url, p.slug.as_str());
    push_line(xml, "  <url>\n", "", "");
    push_line(xml, "    <loc>", url.as_str(), "</loc>\n");
    push_line(xml, "    <lastmod>", format_date(p.metadata.updated_at, "%Y-%m-%d").as_str(), "</lastmod>\n");
    push_line(xml, "    <changefreq>monthly</changefreq>\n", "", "");
    if count_variants(posts, p.translation_key.as_str()) > 1 {
        let ghost start = xml@;
        let mut i: usize = 0;
        while i < posts.len()
            invariant
                i <= posts.len(),
                model == catalog(posts@),
                xml@ == with_alternates(start, model, p@.translation_key, site_url@, i as nat),
            decreases posts.len() - i,
        {
            assert(model[i as int] == posts[i as int]@);
            if str_eq(posts[i].translation_key.as_str(), p.translation_key.as_str()) {
                let mut path = "/post/".to_owned();
                path.append(posts[i].slug.as_str());
                push_line(xml, "    <xhtml:link rel=\"alternate\" hreflang=\"", posts[i].lang.as_str(), "\" href=\"");
                push_line(xml, site_url, path.as_str(), "\"/>\n");
            }
            i += 1;
        }
    }
    push_line(xml, "  </url>\n", "", "");
}

/// Whether none of the first `i` posts of `sorted` has the translation key of the post at `i`.
fn is_leader(sorted: &Vec<&Post>, i: usize) -> (r: bool)
    requires
        i < sorted.len(),
    ensures
        r == leads_its_key(refs(sorted@), i as int),
{
    let ghost model = refs(sorted@);
    let mut j: usize = 0;
    while j < i
        invariant
            j <= i,
            i < sorted.len(),
            model == refs(sorted@),
            forall|k: int| 0 <= k < j ==> (#[trigger] model[k]).translation_key != model[i as int].translation_key,
        decreases i - j,
    {
        assert(model[j as int] == sorted[j as int]@ && model[i as int] == sorted[i as int]@);
        if str_eq(sorted[j].translation_key.as_str(), sorted[i].translation_key.as_str()) {
            return false;
        }
        j += 1;
    }
    true
}

/// The sitemap of the site at `site_url`: the fixed pages, the pages of the
/// series, and the pages of the posts.
pub fn sitemap_xml(posts: &[Post], series: &Vec<Series>, site_url: &str) -> (r: String)
    ensures
        r@ == sitemap_document(catalog(posts@), series_view(series@), site_url@),
{
    let ghost model = catalog(posts@);
    let ghost list = series_view(series@);
    let mut xml = String::new();
    push_line(&mut xml, "<?xml version=\"1.0\" encoding=\"utf-8\"?>\n", "", "");
    push_line(&mut xml, "<urlset xmlns=\"http://www.sitemaps.org/schemas/sitemap/0.9\"\n", "", "");
    push_line(&mut xml, "        xmlns:xhtml=\"http://www.w3.org/1999/xhtml\">\n", "", "");
    push_page(&mut xml, site_url, "/");
    push_page(&mut xml, site_url, "/blog");
    push_page(&mut xml, site_url, "/review");
    push_page(&mut xml, site_url, "/diary");
    push_page(&mut xml, site_url, "/series");
    push_page(&mut xml, site_url, "/guestbook");
    let ghost head = xml@;
    assert(head == sitemap_head(site_url@));
    let mut i: usize = 0;
    while i < series.len()
        invariant
            i <= series.len(),
            list == series_view(series@),
            xml@ == with_all_series(head, list, site_url@, i as nat),
        decreases series.len() - i,
    {
        assert(list[i as int] == series[i as int]@);
        let mut url = site_url.to_owned();
        url.append("/series/");
        url.append(series[i].name.as_str());
        push_line(&mut xml, "  <url>\n", "", "");
        push_line(&mut xml, "    <loc>", url.as_str(), "</loc>\n");
        push_line(&mut xml, "    <lastmod>", format_date(series[i].updated_at, "%Y-%m-%d").as_str(), "</lastmod>\n");
        push_line(&mut xml, "    <changefreq>weekly</changefreq>\n", "", "");
        push_line(&mut xml, "  </url>\n", "", "");
        i += 1;
    }
    let ghost with_series_done = xml@;
    let all = as_refs(posts);
    let mut keys: Vec<i128> = Vec::new();
    let mut i: usize = 0;
    while i < all.len()
        invariant
            i <= all.len(),
            keys.len() == i,
            refs(all@) == model,
            forall|j: int| 0 <= j < i ==> keys[j] as int == updated_keys(model)[j],
        decreases all.len() - i,
    {
        assert(model[i as int] == all[i as int]@);
        keys.push(-all[i].metadata.updated_at.sort_key());
        i += 1;
    }
    assert(keys_of(keys@) =~= updated_keys(model));
    let order = sort_positions(&keys);
    let sorted = pick_refs(&all, &order);
    let ghost by_update = refs(sorted@);
    assert(by_update == by_updated(model));
    let mut i: usize = 0;
    while i < sorted.len()
        invariant
            i <= sorted.len(),
            model == catalog(posts@),
            by_update == refs(sorted@),
            xml@ == with_posts(with_series_done, model, by_update, site_url@, i as nat),
        decreases sorted.len() - i,
    {
        assert(by_update[i as int] == sorted[i as int]@);
        if is_leader(&sorted, i) {
            push_post(&mut xml, posts, sorted[i], site_url);
        }
        i += 1;
    }
    assert(sorted.len() == posts.len());
    push_line(&mut xml, "</urlset>\n", "", "");
    xml
}

} // verus!
