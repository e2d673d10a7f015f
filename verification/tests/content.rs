use blog::anchor::{decimal_string, unique_anchor};
use blog::filters::{lower, replace, truncate};
use blog::front_matter::{FieldFault, ParseError};
use blog::lang::Lang;
use blog::loader::build_post;
use blog::markdown::{transform, Directive, Emit, MdToken, Mode, Transformer};
use blog::post::{PostType, TocEntry};
use blog::render::render_markdown;
use blog::resolve::{content_stem, get_post_type, parse_lang_suffix, resolve_language, resolve_slug};
use blog::text::{compare_text, html_escape, TextOrder};
use blog::words::{count_words, is_whitespace, reading_time};

const HEADER: &str = "---\ntitle: First steps\ndescription: How to begin\nauthor: Han\ntags:\n  - rust\n  - web\ncreated_at: 2024-03-01T09:30:00+09:00\nupdated_at: 2024-03-02T00:00:00Z\n";

fn file(extra: &str, body: &str) -> String {
    format!("{}{}---\n{}", HEADER, extra, body)
}

fn entry(id: &str) -> TocEntry {
    TocEntry { level: 2, text: id.to_string(), id: id.to_string() }
}

#[test]
fn suffix_gives_key_and_language() {
    assert_eq!(parse_lang_suffix("guide.ko"), ("guide".to_string(), Some(Lang::Ko)));
    assert_eq!(parse_lang_suffix("guide.ja"), ("guide".to_string(), Some(Lang::Ja)));
    assert_eq!(parse_lang_suffix("guide.en"), ("guide".to_string(), Some(Lang::En)));
    assert_eq!(parse_lang_suffix("a.b.ko"), ("a.b".to_string(), Some(Lang::Ko)));
    assert_eq!(parse_lang_suffix(".ko"), ("".to_string(), Some(Lang::Ko)));
}

#[test]
fn other_stems_give_themselves() {
    assert_eq!(parse_lang_suffix("intro"), ("intro".to_string(), None));
    assert_eq!(parse_lang_suffix("guide.fr"), ("guide.fr".to_string(), None));
    assert_eq!(parse_lang_suffix("guide.KO"), ("guide.KO".to_string(), None));
    assert_eq!(parse_lang_suffix("guide.kor"), ("guide.kor".to_string(), None));
    assert_eq!(parse_lang_suffix("guide."), ("guide.".to_string(), None));
    assert_eq!(parse_lang_suffix("ko"), ("ko".to_string(), None));
    assert_eq!(parse_lang_suffix(""), ("".to_string(), None));
}

#[test]
fn language_resolution_tiers() {
    assert_eq!(resolve_language("guide.ko", &Some("ja".to_string())), ("guide".to_string(), Lang::Ko));
    assert_eq!(resolve_language("guide", &Some("JA".to_string())), ("guide".to_string(), Lang::Ja));
    assert_eq!(resolve_language("guide", &Some("xx".to_string())), ("guide".to_string(), Lang::En));
    assert_eq!(resolve_language("guide", &None), ("guide".to_string(), Lang::En));
}

#[test]
fn slug_resolution() {
    assert_eq!(resolve_slug(&Some("custom".to_string()), "guide"), "custom");
    assert_eq!(resolve_slug(&None, "guide"), "guide");
}

#[test]
fn content_files_by_extension() {
    assert_eq!(content_stem("intro.md"), Some("intro".to_string()));
    assert_eq!(content_stem("intro.mdx"), Some("intro".to_string()));
    assert_eq!(content_stem("guide.ko.md"), Some("guide.ko".to_string()));
    assert_eq!(content_stem("intro.txt"), None);
    assert_eq!(content_stem("intro"), None);
    assert_eq!(content_stem(".md"), None);
    assert_eq!(content_stem("intro.MD"), None);
    assert_eq!(content_stem("intro.md.bak"), None);
}

#[test]
fn directory_names_give_kinds() {
    assert_eq!(get_post_type("blog"), Some(PostType::Blog));
    assert_eq!(get_post_type("Review"), Some(PostType::Review));
    assert_eq!(get_post_type("DIARY"), Some(PostType::Diary));
    assert_eq!(get_post_type("blogs"), None);
    assert_eq!(get_post_type(""), None);
    assert_eq!(PostType::from_lower_name("Blog"), None);
    assert_eq!(PostType::Blog.to_string(), "Blog");
    assert_eq!(PostType::Review.to_string(), "Review");
    assert_eq!(PostType::Diary.to_string(), "Diary");
    assert_eq!(PostType::Diary.as_lower_str(), "diary");
}

#[test]
fn reading_time_has_a_floor_of_one() {
    assert_eq!(reading_time(0), 1);
    assert_eq!(reading_time(1), 1);
    assert_eq!(reading_time(199), 1);
    assert_eq!(reading_time(200), 1);
    assert_eq!(reading_time(399), 1);
    assert_eq!(reading_time(400), 2);
    assert_eq!(reading_time(1000), 5);
    assert_eq!(reading_time(u32::MAX), 21474836);
}

#[test]
fn words_are_runs_between_white_space() {
    assert_eq!(count_words(""), 0);
    assert_eq!(count_words("   "), 0);
    assert_eq!(count_words("one"), 1);
    assert_eq!(count_words("  one  two\tthree\nfour "), 4);
    assert_eq!(count_words("a\u{3000}b\u{a0}c"), 3);
    assert_eq!(count_words("fn main() {}\n"), 3);
}

#[test]
fn white_space_is_what_std_says() {
    let mut n: u32 = 0;
    while n <= 0x10FFFF {
        if let Some(c) = char::from_u32(n) {
            assert_eq!(is_whitespace(c), c.is_whitespace(), "U+{:04X}", n);
        }
        n += 1;
    }
}

#[test]
fn word_count_is_what_std_says() {
    for text in ["", " a", "a b  c", "\t\tx\ny z\r\n", "한국어 日本語 English", "a\u{2003}b"] {
        assert_eq!(count_words(text), text.split_whitespace().count());
    }
}

#[test]
fn escaping_replaces_five_characters() {
    assert_eq!(html_escape("a & b"), "a &amp; b");
    assert_eq!(html_escape("<b>\"x\"</b>"), "&lt;b&gt;&quot;x&quot;&lt;/b&gt;");
    assert_eq!(html_escape("it's"), "it&apos;s");
    assert_eq!(html_escape("&lt;"), "&amp;lt;");
    assert_eq!(html_escape(""), "");
    assert_eq!(html_escape("plain 한"), "plain 한");
}

#[test]
fn numerals() {
    assert_eq!(decimal_string(0), "0");
    assert_eq!(decimal_string(u64::MAX), "18446744073709551615");
    assert_eq!(decimal_string(7), "7");
    assert_eq!(decimal_string(10), "10");
    assert_eq!(decimal_string(1234567890), "1234567890");
}

#[test]
fn anchors_take_the_first_free_counter() {
    let toc: Vec<TocEntry> = Vec::new();
    assert_eq!(unique_anchor("intro", &toc), "intro");
    let toc = vec![entry("intro")];
    assert_eq!(unique_anchor("intro", &toc), "intro-1");
    assert_eq!(unique_anchor("other", &toc), "other");
    let toc = vec![entry("intro"), entry("intro-1")];
    assert_eq!(unique_anchor("intro", &toc), "intro-2");
    let toc = vec![entry("intro"), entry("intro-2")];
    assert_eq!(unique_anchor("intro", &toc), "intro-1");
    let toc = vec![entry("a"), entry("a-1"), entry("a-1-1")];
    assert_eq!(unique_anchor("a-1", &toc), "a-1-2");
}

#[test]
fn duplicate_headings_get_counters_in_order() {
    let page = render_markdown("## Setup\n\n## Setup\n\n### Setup\n\n## Setup\n");
    let ids: Vec<&str> = page.toc.iter().map(|e| e.id.as_str()).collect();
    assert_eq!(ids, vec!["setup", "setup-1", "setup-2", "setup-3"]);
    let levels: Vec<u8> = page.toc.iter().map(|e| e.level).collect();
    assert_eq!(levels, vec![2, 2, 3, 2]);
    assert_eq!(
        page.html,
        "<h2 id=\"setup\">Setup</h2>\n<h2 id=\"setup-1\">Setup</h2>\n<h3 id=\"setup-2\">Setup</h3>\n<h2 id=\"setup-3\">Setup</h2>\n"
    );
}

#[test]
fn anchors_stay_distinct_when_a_slug_looks_like_a_counter() {
    let page = render_markdown("## A\n\n## A 1\n\n## A\n\n## A\n");
    let ids: Vec<&str> = page.toc.iter().map(|e| e.id.as_str()).collect();
    assert_eq!(ids, vec!["a", "a-1", "a-2", "a-3"]);
}

#[test]
fn a_page_is_rendered_with_its_constructs_rewritten() {
    let body = "# Title\n\nHello world\n\n## Section & Co\n\nSome ~~old~~ text\n\n### Sub `code`\n\n![alt & text](img.png?a=1&b=2)\n\n```graph\ny = x^2 < 3\n```\n\n```rust\nfn main() {}\n```\n\n#### Deep\n";
    let page = render_markdown(body);
    assert_eq!(
        page.html,
        "<h1>Title</h1>\n<p>Hello world</p>\n<h2 id=\"section-co\">Section &amp; Co</h2>\n<p>Some <del>old</del> text</p>\n<h3 id=\"sub-code\">Sub code</h3>\n<p><img src=\"img.png?a=1&amp;b=2\" alt=\"alt &amp; text\" loading=\"lazy\" /></p>\n<div class=\"graph-block\">y = x^2 &lt; 3\n</div>\n<pre><code class=\"language-rust\">fn main() {}\n</code></pre>\n<h4>Deep</h4>\n"
    );
    assert_eq!(page.toc.len(), 2);
    assert_eq!(page.toc[0].level, 2);
    assert_eq!(page.toc[0].text, "Section & Co");
    assert_eq!(page.toc[0].id, "section-co");
    assert_eq!(page.toc[1].level, 3);
    assert_eq!(page.toc[1].text, "Sub code");
    assert_eq!(page.toc[1].id, "sub-code");
    assert_eq!(page.reading_time_min, 1);
}

#[test]
fn directive_blocks_have_their_own_classes() {
    assert_eq!(render_markdown("```chart\n1,2\n```\n").html, "<div class=\"chart-block\">1,2\n</div>\n");
    assert_eq!(render_markdown("```plot3d\nz\n```\n").html, "<div class=\"plot3d-block\">z\n</div>\n");
    assert_eq!(
        render_markdown("```Graph\nz\n```\n").html,
        "<pre><code class=\"language-Graph\">z\n</code></pre>\n"
    );
    assert_eq!(Directive::from_tag("graph"), Some(Directive::Graph));
    assert_eq!(Directive::from_tag("graphs"), None);
    assert_eq!(Directive::Plot3d.css_class(), "plot3d-block");
}

#[test]
fn reading_time_counts_prose_only() {
    let mut body = String::new();
    for _ in 0..400 {
        body.push_str("word ");
    }
    assert_eq!(render_markdown(&body).reading_time_min, 2);
    let mut headings = String::new();
    for _ in 0..400 {
        headings.push_str("## many words in a heading here\n\n");
    }
    assert_eq!(render_markdown(&headings).reading_time_min, 1);
    let mut figure = String::from("```graph\n");
    for _ in 0..1000 {
        figure.push_str("word ");
    }
    figure.push_str("\n```\n");
    assert_eq!(render_markdown(&figure).reading_time_min, 1);
    assert_eq!(render_markdown("").reading_time_min, 1);
}

#[test]
fn the_state_machine_on_tokens() {
    let tokens = vec![
        MdToken::Text("one two".to_string()),
        MdToken::HeadingStart(1),
        MdToken::Text("three".to_string()),
        MdToken::HeadingEnd(1),
        MdToken::HeadingStart(2),
        MdToken::Text("Hello ".to_string()),
        MdToken::Other,
        MdToken::Code("World".to_string()),
        MdToken::HeadingEnd(2),
        MdToken::ImageStart("a\"b".to_string()),
        MdToken::Text("alt".to_string()),
        MdToken::ImageEnd,
        MdToken::FenceStart("chart".to_string()),
        MdToken::Text("x".to_string()),
        MdToken::Code("ignored".to_string()),
        MdToken::CodeBlockEnd,
        MdToken::FenceStart("rust".to_string()),
        MdToken::Text("let x;".to_string()),
        MdToken::CodeBlockEnd,
        MdToken::ImageEnd,
    ];
    let done = transform(&tokens);
    let shown: Vec<String> = done
        .emits
        .iter()
        .map(|e| match e {
            Emit::Keep => "keep".to_string(),
            Emit::Drop => "drop".to_string(),
            Emit::Html(h) => h.clone(),
        })
        .collect();
    assert_eq!(
        shown,
        vec![
            "keep",
            "keep",
            "keep",
            "keep",
            "drop",
            "drop",
            "drop",
            "drop",
            "<h2 id=\"hello-world\">Hello World</h2>\n",
            "drop",
            "drop",
            "<img src=\"a&quot;b\" alt=\"alt\" loading=\"lazy\" />",
            "drop",
            "drop",
            "drop",
            "<div class=\"chart-block\">x</div>\n",
            "keep",
            "keep",
            "keep",
            "keep",
        ]
    );
    assert_eq!(done.words, 5);
    assert_eq!(done.toc.len(), 1);
    assert_eq!(done.toc[0].text, "Hello World");
}

#[test]
fn the_state_machine_step_by_step() {
    let mut state = Transformer::new();
    assert_eq!(state.mode, Mode::Default);
    assert!(matches!(state.feed(&MdToken::HeadingStart(3)), Emit::Drop));
    assert_eq!(state.mode, Mode::InHeading(3));
    assert!(matches!(state.feed(&MdToken::ImageStart("x".to_string())), Emit::Drop));
    assert_eq!(state.mode, Mode::InHeading(3));
    assert!(matches!(state.feed(&MdToken::Text("T".to_string())), Emit::Drop));
    assert_eq!(state.buffer, "T");
    match state.feed(&MdToken::HeadingEnd(3)) {
        Emit::Html(h) => assert_eq!(h, "<h3 id=\"t\">T</h3>\n"),
        _ => panic!("no heading"),
    }
    assert_eq!(state.mode, Mode::Default);
    assert_eq!(state.buffer, "");
    assert!(matches!(state.feed(&MdToken::FenceStart("plot3d".to_string())), Emit::Drop));
    assert_eq!(state.mode, Mode::InDirective(Directive::Plot3d));
    assert!(matches!(state.feed(&MdToken::HeadingEnd(2)), Emit::Drop));
    assert_eq!(state.mode, Mode::InDirective(Directive::Plot3d));
    assert_eq!(state.words, 0);
}

#[test]
fn intro_loads_with_the_default_language() {
    let post = build_post("intro", PostType::Blog, &file("", "Hello\n")).unwrap();
    assert_eq!(post.lang, Lang::En);
    assert_eq!(post.translation_key, "intro");
    assert_eq!(post.slug, "intro");
    assert_eq!(post.post_type, PostType::Blog);
    assert_eq!(post.content, "<p>Hello</p>\n");
    assert_eq!(post.reading_time_min, 1);
    assert!(post.toc.is_empty());
}

#[test]
fn metadata_is_read_from_the_header() {
    let extra = "series: Guide\nseries_order: 2\nseries_description: All about it\nseries_status: completed\nprev_post: zero\nnext_post: two\nog_image: /img/a.png\nlang: ja\nslug: first\n";
    let post = build_post("one", PostType::Review, &file(extra, "## Top\n")).unwrap();
    let m = &post.metadata;
    assert_eq!(m.title, "First steps");
    assert_eq!(m.description, "How to begin");
    assert_eq!(m.author, "Han");
    assert_eq!(m.tags, vec!["rust".to_string(), "web".to_string()]);
    assert_eq!(m.created_at.secs, 1709253000);
    assert_eq!(m.created_at.nanos, 0);
    assert_eq!(m.updated_at.secs, 1709337600);
    assert_eq!(m.series.as_deref(), Some("Guide"));
    assert_eq!(m.series_order, Some(2));
    assert_eq!(m.series_description.as_deref(), Some("All about it"));
    assert_eq!(m.series_status.as_deref(), Some("completed"));
    assert_eq!(m.prev_post.as_deref(), Some("zero"));
    assert_eq!(m.next_post.as_deref(), Some("two"));
    assert_eq!(m.og_image.as_deref(), Some("/img/a.png"));
    assert_eq!(m.lang.as_deref(), Some("ja"));
    assert_eq!(m.slug.as_deref(), Some("first"));
    assert_eq!(post.lang, Lang::Ja);
    assert_eq!(post.translation_key, "one");
    assert_eq!(post.slug, "first");
    assert_eq!(post.toc.len(), 1);
    assert_eq!(post.toc[0].id, "top");
}

#[test]
fn the_suffix_of_the_file_name_wins_over_the_header() {
    let post = build_post("guide.ko", PostType::Blog, &file("lang: ja\n", "x")).unwrap();
    assert_eq!(post.lang, Lang::Ko);
    assert_eq!(post.translation_key, "guide");
    assert_eq!(post.slug, "guide");
}

#[test]
fn fractions_of_a_second_are_kept() {
    let raw = "---\ntitle: t\ndescription: d\nauthor: a\ntags: []\ncreated_at: \"2024-03-01T00:00:00.250Z\"\nupdated_at: \"1969-12-31T23:59:59Z\"\n---\n";
    let post = build_post("t", PostType::Diary, raw).unwrap();
    assert_eq!(post.metadata.created_at.nanos, 250_000_000);
    assert_eq!(post.metadata.updated_at.secs, -1);
    assert!(post.metadata.tags.is_empty());
}

fn fault_of(raw: &str) -> (String, FieldFault) {
    match build_post("x", PostType::Blog, raw) {
        Err(ParseError::MetadataParseError { field, fault }) => (field, fault),
        Err(ParseError::MissingFrontMatter) => panic!("no front matter"),
        Ok(_) => panic!("loaded"),
    }
}

#[test]
fn a_file_without_a_header_is_refused() {
    assert!(matches!(build_post("x", PostType::Blog, "just text"), Err(ParseError::MissingFrontMatter)));
    assert!(matches!(build_post("x", PostType::Blog, ""), Err(ParseError::MissingFrontMatter)));
    assert!(matches!(build_post("x", PostType::Blog, "---\n---\nbody"), Err(ParseError::MissingFrontMatter)));
}

#[test]
fn missing_fields_are_named() {
    let all = ["title", "description", "author", "tags", "created_at", "updated_at"];
    for missing in all {
        let mut raw = String::from("---\n");
        for field in all {
            if field == missing {
                continue;
            }
            match field {
                "tags" => raw.push_str("tags: [a]\n"),
                "created_at" | "updated_at" => raw.push_str(&format!("{}: 2024-01-01T00:00:00Z\n", field)),
                _ => raw.push_str(&format!("{}: text\n", field)),
            }
        }
        raw.push_str("---\nbody");
        assert_eq!(fault_of(&raw), (missing.to_string(), FieldFault::Missing));
    }
}

#[test]
fn the_first_fault_is_reported() {
    let raw = "---\ndescription: 5\nauthor: a\n---\n";
    assert_eq!(fault_of(raw), ("title".to_string(), FieldFault::Missing));
    let raw = "---\ntitle: t\ndescription: 5\n---\n";
    assert_eq!(fault_of(raw), ("description".to_string(), FieldFault::WrongType));
}

#[test]
fn malformed_fields_are_named() {
    assert_eq!(fault_of(&file("series_order: first\n", "")), ("series_order".to_string(), FieldFault::WrongType));
    assert_eq!(fault_of(&file("series: 3\n", "")), ("series".to_string(), FieldFault::WrongType));
    assert_eq!(fault_of(&file("slug: [a]\n", "")), ("slug".to_string(), FieldFault::WrongType));
    let raw = "---\ntitle: t\ndescription: d\nauthor: a\ntags: [a, 3]\ncreated_at: 2024-01-01T00:00:00Z\nupdated_at: 2024-01-01T00:00:00Z\n---\n";
    assert_eq!(fault_of(raw), ("tags".to_string(), FieldFault::WrongType));
    let raw = "---\ntitle: t\ndescription: d\nauthor: a\ntags: rust\ncreated_at: 2024-01-01T00:00:00Z\nupdated_at: 2024-01-01T00:00:00Z\n---\n";
    assert_eq!(fault_of(raw), ("tags".to_string(), FieldFault::WrongType));
}

#[test]
fn timestamps_need_a_utc_offset() {
    let raw = "---\ntitle: t\ndescription: d\nauthor: a\ntags: []\ncreated_at: 2024-01-01T00:00:00\nupdated_at: 2024-01-01T00:00:00Z\n---\n";
    assert_eq!(fault_of(raw), ("created_at".to_string(), FieldFault::Timestamp));
    let raw = "---\ntitle: t\ndescription: d\nauthor: a\ntags: []\ncreated_at: 2024-01-01T00:00:00Z\nupdated_at: 2024-01-01\n---\n";
    assert_eq!(fault_of(raw), ("updated_at".to_string(), FieldFault::Timestamp));
    let raw = "---\ntitle: t\ndescription: d\nauthor: a\ntags: []\ncreated_at: 2024-01-01T00:00:00Z\nupdated_at: 20240101\n---\n";
    assert_eq!(fault_of(raw), ("updated_at".to_string(), FieldFault::WrongType));
}

#[test]
fn null_counts_as_absent() {
    let post = build_post("x", PostType::Blog, &file("series: ~\nslug: null\n", "")).unwrap();
    assert_eq!(post.metadata.series, None);
    assert_eq!(post.metadata.slug, None);
}

#[test]
fn text_filters() {
    assert_eq!(truncate("hello world", 5), "hello...");
    assert_eq!(truncate("hello", 5), "hello");
    assert_eq!(truncate("한국어 문장", 3), "한국어...");
    assert_eq!(truncate("abc", 0), "...");
    assert_eq!(truncate("", 0), "");
    assert_eq!(lower("HeLLo Straße İ"), "HeLLo Straße İ".to_lowercase());
    assert_eq!(lower("ABC"), "abc");
}

#[test]
fn replace_is_what_std_does() {
    let cases = [
        ("hello world", "o", "0"),
        ("aaaa", "aa", "b"),
        ("aaa", "aa", "b"),
        ("abc", "", "-"),
        ("", "", "-"),
        ("", "a", "b"),
        ("abc", "abcd", "x"),
        ("abcabc", "abc", ""),
        ("a-b-c", "-", "--"),
        ("한국어", "국", "gug"),
        ("xyz", "z", "zz"),
    ];
    for (s, from, to) in cases {
        assert_eq!(replace(s, from, to), s.replace(from, to), "{:?} {:?} {:?}", s, from, to);
    }
    assert_eq!(replace("2024-01-02", "-", "/"), "2024/01/02");
}

#[test]
fn dictionary_order_is_what_std_says() {
    let words = ["", "a", "ab", "b", "B", "aa", "한", "z", "é", "\u{10FFFF}", "a\u{0}"];
    for a in words {
        for b in words {
            let expected = match a.cmp(b) {
                std::cmp::Ordering::Less => TextOrder::Before,
                std::cmp::Ordering::Equal => TextOrder::Same,
                std::cmp::Ordering::Greater => TextOrder::After,
            };
            assert_eq!(compare_text(a, b), expected, "{:?} {:?}", a, b);
        }
    }
}

#[test]
fn inline_markup_in_headings_is_flattened() {
    let page = render_markdown("## Hello *big* **world** [link](http://x) ![pic](p.png)\n");
    assert_eq!(page.toc.len(), 1);
    assert_eq!(page.toc[0].text, "Hello big world link pic");
    assert_eq!(page.toc[0].id, "hello-big-world-link-pic");
    assert_eq!(page.html, "<h2 id=\"hello-big-world-link-pic\">Hello big world link pic</h2>\n");
}

#[test]
fn nested_images_are_not_supported_but_accepted() {
    let page = render_markdown("![outer ![inner](b.png) tail](a.png)\n");
    assert_eq!(page.html, "<p><img src=\"a.png\" alt=\"outer inner\" loading=\"lazy\" /> tail</p>\n");
}

#[test]
fn headings_with_the_same_slug_but_other_text() {
    let page = render_markdown("## C++\n\n## C\n\n### c!\n\n## 한글\n\n## !!!\n\n## ???\n");
    let ids: Vec<&str> = page.toc.iter().map(|e| e.id.as_str()).collect();
    assert_eq!(ids, vec!["c", "c-1", "c-2", "hangeul", "", "-1"]);
}
