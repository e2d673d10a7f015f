use blog::feed::{feed_etag, feed_xml, format_date, seconds_string, select_feed_posts, sitemap_etag, sitemap_xml};
use blog::lang::Lang;
use blog::post::{Post, PostMetadata, PostType, Timestamp};
use blog::summary::get_series;
use blog::translations::{copyright, Translations};

fn post(key: &str, lang: Lang, created: i64, updated: i64) -> Post {
    Post {
        post_type: PostType::Review,
        metadata: PostMetadata {
            title: format!("<{}>", key),
            description: "a & b".to_string(),
            author: "Han \"D\"".to_string(),
            tags: vec!["it's".to_string()],
            created_at: Timestamp { secs: created, nanos: 0 },
            updated_at: Timestamp { secs: updated, nanos: 0 },
            series: None,
            series_order: None,
            series_description: None,
            series_status: None,
            prev_post: None,
            next_post: None,
            og_image: None,
            lang: None,
            slug: None,
        },
        content: String::new(),
        slug: format!("{}-{}", key, lang.as_str()),
        toc: Vec::new(),
        reading_time_min: 1,
        lang,
        translation_key: key.to_string(),
    }
}

#[test]
fn dates_are_written_in_utc() {
    let at = Timestamp { secs: 1709253000, nanos: 0 };
    assert_eq!(format_date(at, "%Y-%m-%dT%H:%M:%SZ"), "2024-03-01T00:30:00Z");
    assert_eq!(format_date(at, "%Y-%m-%d"), "2024-03-01");
    assert_eq!(format_date(at, "%Y/%m/%d %H:%M"), "2024/03/01 00:30");
    assert_eq!(format_date(Timestamp { secs: -1, nanos: 0 }, "%Y-%m-%d %H:%M:%S"), "1969-12-31 23:59:59");
    assert_eq!(format_date(Timestamp { secs: i64::MAX, nanos: 0 }, "%Y"), "");
    assert_eq!(format_date(Timestamp { secs: 0, nanos: u32::MAX }, "%Y"), "");
    assert_eq!(format_date(at, "%Q"), "");
}

#[test]
fn seconds_are_written_in_decimal() {
    assert_eq!(seconds_string(0), "0");
    assert_eq!(seconds_string(1709253000), "1709253000");
    assert_eq!(seconds_string(-5), "-5");
    assert_eq!(seconds_string(i64::MIN), "-9223372036854775808");
    assert_eq!(seconds_string(i64::MAX), "9223372036854775807");
}

#[test]
fn the_feed_takes_one_post_per_key_newest_first() {
    let posts = vec![
        post("a", Lang::En, 10, 10),
        post("a", Lang::Ko, 20, 20),
        post("b", Lang::Ko, 30, 30),
        post("c", Lang::Ja, 5, 5),
    ];
    let slugs = |only| -> Vec<String> { select_feed_posts(&posts, only).iter().map(|p| p.slug.clone()).collect() };
    assert_eq!(slugs(None), vec!["b-ko", "a-en", "c-ja"]);
    assert_eq!(slugs(Some(Lang::Ko)), vec!["b-ko", "a-ko"]);
    assert_eq!(slugs(Some(Lang::En)), vec!["a-en"]);
    assert_eq!(slugs(Some(Lang::Ja)), vec!["c-ja"]);
    let mut many = Vec::new();
    for i in 0..25 {
        many.push(post(&format!("k{}", i), Lang::En, i, i));
    }
    let picked = select_feed_posts(&many, None);
    assert_eq!(picked.len(), 20);
    assert_eq!(picked[0].slug, "k24-en");
}

#[test]
fn the_feed_document() {
    let posts = vec![post("a", Lang::En, 1709253000, 1709256600)];
    let entries = select_feed_posts(&posts, None);
    assert_eq!(feed_etag(&entries), "\"feed-1709256600\"");
    let xml = feed_xml(&entries, "https://example.org", "Notes & more");
    let expected = "<?xml version=\"1.0\" encoding=\"utf-8\"?>\n\
<feed xmlns=\"http://www.w3.org/2005/Atom\">\n  <title>miniex.blog</title>\n  <subtitle>Notes &amp; more</subtitle>\n  <link href=\"https://example.org/feed.xml\" rel=\"self\" type=\"application/atom+xml\"/>\n  <link href=\"https://example.org\" rel=\"alternate\" type=\"text/html\"/>\n  <id>https://example.org/</id>\n  <updated>2024-03-01T01:30:00Z</updated>\n  <author>\n    <name>Han Damin</name>\n  </author>\n  <entry>\n    <title>&lt;a&gt;</title>\n    <link href=\"https://example.org/post/a-en\" rel=\"alternate\" type=\"text/html\"/>\n    <id>https://example.org/post/a-en</id>\n    <published>2024-03-01T00:30:00Z</published>\n    <updated>2024-03-01T01:30:00Z</updated>\n    <author>\n      <name>Han &quot;D&quot;</name>\n    </author>\n    <summary>a &amp; b</summary>\n    <category term=\"review\"/>\n    <category term=\"it&apos;s\"/>\n  </entry>\n</feed>\n";
    assert_eq!(xml, expected);
}

#[test]
fn the_empty_feed() {
    let entries = select_feed_posts(&[], None);
    assert_eq!(feed_etag(&entries), "\"feed-0\"");
    let xml = feed_xml(&entries, "u", "d");
    assert!(xml.contains("  <updated>2024-01-01T00:00:00Z</updated>\n"));
    assert!(xml.ends_with("  </author>\n</feed>\n"));
}

#[test]
fn the_sitemap_document() {
    let mut a = post("a", Lang::En, 1709253000, 1709253000);
    a.metadata.series = Some("S".to_string());
    let a_ko = post("a", Lang::Ko, 1709253000, 1709339400);
    let b = post("b", Lang::En, 1709253000, 1709253000);
    let posts = vec![a, a_ko, b];
    let series = get_series(&posts, Lang::En, false);
    assert_eq!(sitemap_etag(&posts), "\"sitemap-1709339400\"");
    let xml = sitemap_xml(&posts, &series, "https://e.org");
    let page = |path: &str| format!("  <url>\n    <loc>https://e.org{}</loc>\n    <changefreq>weekly</changefreq>\n  </url>\n", path);
    let mut expected = String::from("<?xml version=\"1.0\" encoding=\"utf-8\"?>\n<urlset xmlns=\"http://www.sitemaps.org/schemas/sitemap/0.9\"\n        xmlns:xhtml=\"http://www.w3.org/1999/xhtml\">\n");
    for path in ["/", "/blog", "/review", "/diary", "/series", "/guestbook"] {
        expected.push_str(&page(path));
    }
    expected.push_str("  <url>\n    <loc>https://e.org/series/S</loc>\n    <lastmod>2024-03-01</lastmod>\n    <changefreq>weekly</changefreq>\n  </url>\n");
    expected.push_str("  <url>\n    <loc>https://e.org/post/a-ko</loc>\n    <lastmod>2024-03-02</lastmod>\n    <changefreq>monthly</changefreq>\n    <xhtml:link rel=\"alternate\" hreflang=\"en\" href=\"https://e.org/post/a-en\"/>\n    <xhtml:link rel=\"alternate\" hreflang=\"ko\" href=\"https://e.org/post/a-ko\"/>\n  </url>\n");
    expected.push_str("  <url>\n    <loc>https://e.org/post/b-en</loc>\n    <lastmod>2024-03-01</lastmod>\n    <changefreq>monthly</changefreq>\n  </url>\n");
    expected.push_str("</urlset>\n");
    assert_eq!(xml, expected);
}

#[test]
fn the_sitemap_tag_follows_the_latest_update() {
    assert_eq!(sitemap_etag(&[]), "\"sitemap-0\"");
    assert_eq!(sitemap_etag(&[post("a", Lang::En, 0, -7)]), "\"sitemap--7\"");
    assert_eq!(sitemap_etag(&[post("a", Lang::En, 0, -7), post("b", Lang::En, 0, -9)]), "\"sitemap--7\"");
    assert_eq!(sitemap_etag(&[post("a", Lang::En, 0, 3), post("b", Lang::En, 0, 9)]), "\"sitemap-9\"");
}

#[test]
fn the_texts_of_the_site() {
    let en = Translations::in_year(Lang::En, 2031);
    assert_eq!(en.nav_posts, "Posts");
    assert_eq!(en.post_min_read, "min read");
    assert_eq!(en.rate_limit, "Too many requests. Please wait a moment.");
    assert_eq!(en.footer_copyright, "Copyright \u{a9} 2024 - 2031 All rights reserved by Han Damin");
    let ko = Translations::in_year(Lang::Ko, 2024);
    assert_eq!(ko.nav_posts, "글");
    assert_eq!(ko.series_part, "파트");
    assert_eq!(ko.post_not_found_message, "요청하신 페이지를 찾을 수 없습니다. 주소를 확인하시거나 홈으로 돌아가 주세요.");
    let ja = Translations::in_year(Lang::Ja, 2024);
    assert_eq!(ja.nav_posts, "記事");
    assert_eq!(ja.sort_least_updated, "更新が古い順");
    assert_eq!(Translations::en(1).nav_blog, "Blog");
    assert_eq!(Translations::ko(1).nav_blog, "블로그");
    assert_eq!(Translations::ja(1).nav_blog, "ブログ");
    assert_eq!(copyright(-44), "Copyright \u{a9} 2024 - -44 All rights reserved by Han Damin");
    assert_eq!(copyright(i32::MIN), "Copyright \u{a9} 2024 - -2147483648 All rights reserved by Han Damin");
}

#[test]
fn the_texts_of_today() {
    let now = Translations::for_lang(Lang::Ja);
    assert_eq!(now.nav_series, "シリーズ");
    assert!(now.footer_copyright.starts_with("Copyright \u{a9} 2024 - 2"));
    assert!(now.footer_copyright.ends_with(" All rights reserved by Han Damin"));
}
