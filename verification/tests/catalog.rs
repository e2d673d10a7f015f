use blog::lang::Lang;
use blog::loader::{DirEntry, LoadError, Loader, Task};
use blog::front_matter::ParseError;
use blog::post::{Post, PostMetadata, PostType, Timestamp};
use blog::query::{
    get_available_translations, get_posts_by_category, get_recent_posts, has_translation, sort_by_created,
};
use blog::nav::{find_post, get_series_nav_info};
use blog::series::{get_posts_by_series, get_series_names, link_series, predecessor, successor};
use blog::summary::get_series;
use blog::sort::sort_positions;
use blog::dedup::{dedup_by_translation, dedup_positions, dedup_refs_by_translation};

fn at(secs: i64) -> Timestamp {
    Timestamp { secs, nanos: 0 }
}

fn post(key: &str, lang: Lang, created: i64) -> Post {
    let slug = if lang == Lang::En { key.to_string() } else { format!("{}-{}", key, lang.as_str()) };
    Post {
        post_type: PostType::Blog,
        metadata: PostMetadata {
            title: format!("Title of {}", slug),
            description: String::new(),
            author: "han".to_string(),
            tags: Vec::new(),
            created_at: at(created),
            updated_at: at(created),
            series: None,
            series_order: None,
            series_description: None,
            series_status: None,
            prev_post: None,
            next_post: None,
            og_image: None,
            lang: None,
            slug: None,
        },
        content: String::new(),
        slug,
        toc: Vec::new(),
        reading_time_min: 1,
        lang,
        translation_key: key.to_string(),
    }
}

fn in_series(mut p: Post, series: &str, order: Option<i64>) -> Post {
    p.metadata.series = Some(series.to_string());
    p.metadata.series_order = order;
    p
}

fn slugs(posts: &[Post]) -> Vec<&str> {
    posts.iter().map(|p| p.slug.as_str()).collect()
}

#[test]
fn stable_order_of_positions() {
    assert_eq!(sort_positions(&vec![]), Vec::<usize>::new());
    assert_eq!(sort_positions(&vec![5]), vec![0]);
    assert_eq!(sort_positions(&vec![3, 1, 2]), vec![1, 2, 0]);
    assert_eq!(sort_positions(&vec![2, 1, 2, 1, 2]), vec![1, 3, 0, 2, 4]);
    assert_eq!(sort_positions(&vec![i128::MAX, i128::MIN, 0]), vec![1, 2, 0]);
}

#[test]
fn one_post_per_translation_key() {
    let posts = vec![
        post("a", Lang::En, 1),
        post("b", Lang::Ko, 2),
        post("a", Lang::Ko, 3),
        post("a", Lang::Ja, 4),
        post("c", Lang::Ja, 5),
        post("b", Lang::En, 6),
    ];
    let ko = dedup_by_translation(posts.clone(), Lang::Ko);
    assert_eq!(slugs(&ko), vec!["a-ko", "b-ko", "c-ja"]);
    let ja = dedup_by_translation(posts.clone(), Lang::Ja);
    assert_eq!(slugs(&ja), vec!["a-ja", "b-ko", "c-ja"]);
    let en = dedup_by_translation(posts.clone(), Lang::En);
    assert_eq!(slugs(&en), vec!["a", "b", "c-ja"]);
    let refs: Vec<&Post> = posts.iter().collect();
    assert_eq!(dedup_positions(&refs, Lang::Ko), vec![2, 1, 4]);
    let kept = dedup_refs_by_translation(refs, Lang::En);
    assert_eq!(kept.len(), 3);
    assert_eq!(kept[1].slug, "b");
    assert!(dedup_by_translation(Vec::new(), Lang::En).is_empty());
}

#[test]
fn the_first_variant_in_the_language_is_kept() {
    let mut second = post("a", Lang::Ko, 2);
    second.slug = "a-ko-2".to_string();
    let posts = vec![post("a", Lang::En, 1), post("a", Lang::Ko, 3), second];
    assert_eq!(slugs(&dedup_by_translation(posts, Lang::Ko)), vec!["a-ko"]);
}

#[test]
fn guide_in_two_languages() {
    let posts = vec![
        in_series(post("guide", Lang::En, 1), "Guide", None),
        in_series(post("guide", Lang::Ko, 2), "Guide", None),
    ];
    assert_eq!(slugs(&dedup_by_translation(posts.clone(), Lang::Ko)), vec!["guide-ko"]);
    assert_eq!(slugs(&dedup_by_translation(posts.clone(), Lang::Ja)), vec!["guide"]);
    let swapped = vec![posts[1].clone(), posts[0].clone()];
    assert_eq!(slugs(&dedup_by_translation(swapped, Lang::Ja)), vec!["guide-ko"]);
    assert_eq!(slugs(&get_posts_by_series(&posts, "Guide", Lang::Ko, true)), vec!["guide-ko"]);
    assert_eq!(slugs(&get_recent_posts(&posts, Lang::Ko)), vec!["guide-ko"]);
}

#[test]
fn recent_posts_are_five_newest_first() {
    let posts = vec![
        post("a", Lang::En, 10),
        post("b", Lang::En, 70),
        post("c", Lang::En, 30),
        post("d", Lang::En, 50),
        post("e", Lang::En, 20),
        post("f", Lang::En, 60),
        post("g", Lang::En, 40),
        post("b", Lang::Ko, 5),
    ];
    assert_eq!(slugs(&get_recent_posts(&posts, Lang::En)), vec!["b", "f", "d", "g", "c"]);
    assert_eq!(slugs(&get_recent_posts(&posts, Lang::Ko)), vec!["f", "d", "g", "c", "e"]);
    assert_eq!(slugs(&get_recent_posts(&posts[..2], Lang::En)), vec!["b", "a"]);
    assert!(get_recent_posts(&[], Lang::En).is_empty());
}

#[test]
fn equal_creation_times_keep_catalog_order() {
    let posts = vec![post("a", Lang::En, 1), post("b", Lang::En, 1), post("c", Lang::En, 2), post("d", Lang::En, 1)];
    assert_eq!(slugs(&get_recent_posts(&posts, Lang::En)), vec!["c", "a", "b", "d"]);
    let refs: Vec<&Post> = posts.iter().collect();
    let up: Vec<&str> = sort_by_created(&refs, true).iter().map(|p| p.slug.as_str()).collect();
    assert_eq!(up, vec!["a", "b", "d", "c"]);
}

#[test]
fn nanoseconds_order_posts_within_a_second() {
    let mut a = post("a", Lang::En, 1);
    a.metadata.created_at = Timestamp { secs: 1, nanos: 5 };
    let mut b = post("b", Lang::En, 1);
    b.metadata.created_at = Timestamp { secs: 1, nanos: 900_000_000 };
    let mut c = post("c", Lang::En, 0);
    c.metadata.created_at = Timestamp { secs: 0, nanos: u32::MAX };
    let mut d = post("d", Lang::En, -1);
    d.metadata.created_at = Timestamp { secs: i64::MIN, nanos: 0 };
    let mut e = post("e", Lang::En, 0);
    e.metadata.created_at = Timestamp { secs: i64::MAX, nanos: 1 };
    assert_eq!(slugs(&get_recent_posts(&[a, b, c, d, e], Lang::En)), vec!["e", "b", "a", "c", "d"]);
    assert!(Timestamp { secs: 1, nanos: 0 }.is_after(Timestamp { secs: 0, nanos: u32::MAX }));
    assert!(!at(1).is_after(at(1)));
    assert_eq!(Timestamp { secs: -1, nanos: 7 }.sort_key(), -4294967296 + 7);
}

#[test]
fn posts_by_category_and_tag() {
    let mut a = post("a", Lang::En, 1);
    a.metadata.tags = vec!["rust".to_string(), "web".to_string()];
    let mut b = post("b", Lang::En, 2);
    b.metadata.tags = vec!["web".to_string()];
    let mut c = post("c", Lang::En, 3);
    c.post_type = PostType::Diary;
    c.metadata.tags = vec!["rust".to_string()];
    let mut a_ko = post("a", Lang::Ko, 4);
    a_ko.metadata.tags = vec!["web".to_string()];
    let posts = vec![a, b, c, a_ko];
    assert_eq!(slugs(&get_posts_by_category(&posts, PostType::Blog, None, Lang::En, false)), vec!["b", "a"]);
    assert_eq!(slugs(&get_posts_by_category(&posts, PostType::Blog, None, Lang::En, true)), vec!["a", "b"]);
    assert_eq!(slugs(&get_posts_by_category(&posts, PostType::Blog, None, Lang::Ko, false)), vec!["a-ko", "b"]);
    assert_eq!(slugs(&get_posts_by_category(&posts, PostType::Blog, Some("rust"), Lang::Ko, false)), vec!["a"]);
    assert_eq!(slugs(&get_posts_by_category(&posts, PostType::Blog, Some("web"), Lang::Ko, true)), vec!["b", "a-ko"]);
    assert_eq!(slugs(&get_posts_by_category(&posts, PostType::Diary, Some("rust"), Lang::En, false)), vec!["c"]);
    assert!(get_posts_by_category(&posts, PostType::Review, None, Lang::En, false).is_empty());
    assert!(get_posts_by_category(&posts, PostType::Blog, Some("Rust"), Lang::En, false).is_empty());
}

#[test]
fn available_translations_in_display_order() {
    let posts = vec![post("a", Lang::En, 1), post("a", Lang::Ko, 2), post("b", Lang::Ja, 3), post("a", Lang::En, 4)];
    assert_eq!(get_available_translations(&posts, "a"), vec![Lang::Ko, Lang::En]);
    assert_eq!(get_available_translations(&posts, "b"), vec![Lang::Ja]);
    assert!(get_available_translations(&posts, "c").is_empty());
    assert!(has_translation(&posts, "a", Lang::Ko));
    assert!(!has_translation(&posts, "a", Lang::Ja));
}

fn chain() -> Vec<Post> {
    vec![
        in_series(post("three", Lang::En, 10), "S", Some(3)),
        in_series(post("one", Lang::En, 30), "S", Some(1)),
        post("loose", Lang::En, 5),
        in_series(post("two", Lang::En, 20), "S", Some(2)),
        in_series(post("one", Lang::Ko, 31), "S", Some(1)),
        in_series(post("two", Lang::Ko, 21), "S", Some(2)),
        in_series(post("else", Lang::En, 1), "T", Some(1)),
    ]
}

#[test]
fn series_links_follow_the_explicit_order() {
    let mut posts = chain();
    link_series(&mut posts);
    let links: Vec<(Option<&str>, Option<&str>)> =
        posts.iter().map(|p| (p.metadata.prev_post.as_deref(), p.metadata.next_post.as_deref())).collect();
    assert_eq!(
        links,
        vec![
            (Some("two"), None),
            (None, Some("two")),
            (None, None),
            (Some("one"), Some("three")),
            (None, Some("two-ko")),
            (Some("one-ko"), None),
            (None, None),
        ]
    );
}

#[test]
fn explicit_links_are_kept() {
    let mut posts = chain();
    posts[3].metadata.prev_post = Some("elsewhere".to_string());
    posts[1].metadata.next_post = Some("".to_string());
    link_series(&mut posts);
    assert_eq!(posts[3].metadata.prev_post.as_deref(), Some("elsewhere"));
    assert_eq!(posts[3].metadata.next_post.as_deref(), Some("three"));
    assert_eq!(posts[1].metadata.next_post.as_deref(), Some(""));
    assert_eq!(posts[0].metadata.prev_post.as_deref(), Some("two"));
    let mut again = posts.clone();
    link_series(&mut again);
    assert_eq!(again[3].metadata.prev_post.as_deref(), Some("elsewhere"));
    assert_eq!(again[0].metadata.prev_post.as_deref(), Some("two"));
}

#[test]
fn posts_without_order_follow_by_creation_time() {
    let mut posts = vec![
        in_series(post("late", Lang::En, 30), "S", None),
        in_series(post("second", Lang::En, 99), "S", Some(2)),
        in_series(post("early", Lang::En, 10), "S", None),
        in_series(post("first", Lang::En, 50), "S", Some(-7)),
        in_series(post("twin", Lang::En, 10), "S", None),
        in_series(post("max", Lang::En, 0), "S", Some(i64::MAX)),
    ];
    posts[5].metadata.created_at = Timestamp { secs: i64::MIN, nanos: 0 };
    assert_eq!(predecessor(&posts, 3), None);
    assert_eq!(successor(&posts, 3), Some(1));
    assert_eq!(successor(&posts, 1), Some(5));
    assert_eq!(successor(&posts, 5), Some(2));
    assert_eq!(successor(&posts, 2), Some(4));
    assert_eq!(successor(&posts, 4), Some(0));
    assert_eq!(successor(&posts, 0), None);
    assert_eq!(predecessor(&posts, 0), Some(4));
    assert_eq!(predecessor(&posts, 2), Some(5));
    assert_eq!(
        slugs(&get_posts_by_series(&posts, "S", Lang::En, true)),
        vec!["first", "second", "max", "early", "twin", "late"]
    );
    assert_eq!(
        slugs(&get_posts_by_series(&posts, "S", Lang::En, false)),
        vec!["late", "early", "twin", "max", "second", "first"]
    );
    assert!(get_posts_by_series(&posts, "s", Lang::En, true).is_empty());
}

#[test]
fn series_names_are_sorted_and_distinct() {
    let posts = vec![
        in_series(post("a", Lang::En, 1), "beta", None),
        in_series(post("b", Lang::En, 2), "Alpha", None),
        post("c", Lang::En, 3),
        in_series(post("d", Lang::En, 4), "beta", None),
        in_series(post("e", Lang::En, 5), "alpha", None),
        in_series(post("f", Lang::En, 6), "", None),
        in_series(post("g", Lang::En, 7), "한글", None),
    ];
    assert_eq!(get_series_names(&posts), vec!["", "Alpha", "alpha", "beta", "한글"]);
    assert!(get_series_names(&[]).is_empty());
}

#[test]
fn series_are_summed_up() {
    let mut a = in_series(post("a", Lang::En, 1), "S", None);
    a.metadata.updated_at = at(100);
    a.metadata.series_description = Some("".to_string());
    let mut b = in_series(post("b", Lang::En, 2), "T", None);
    b.metadata.updated_at = at(300);
    b.metadata.author = "kim".to_string();
    b.metadata.series_status = Some("completed".to_string());
    let mut c = in_series(post("c", Lang::En, 3), "S", None);
    c.metadata.updated_at = at(200);
    c.metadata.author = "lee".to_string();
    c.metadata.series_description = Some("About S".to_string());
    c.metadata.series_status = Some("ongoing".to_string());
    let mut d = in_series(post("d", Lang::En, 4), "S", None);
    d.metadata.updated_at = at(150);
    d.metadata.series_description = Some("Later".to_string());
    d.metadata.series_status = Some("completed".to_string());
    let mut a_ko = in_series(post("a", Lang::Ko, 5), "S", None);
    a_ko.metadata.updated_at = at(900);
    a_ko.metadata.author = "park".to_string();
    let posts = vec![a, b, post("x", Lang::En, 9), c, d, a_ko];

    let list = get_series(&posts, Lang::En, false);
    assert_eq!(list.len(), 2);
    assert_eq!(list[0].name, "S");
    assert_eq!(list[0].post_count, 4);
    assert_eq!(list[0].authors, vec!["han".to_string(), "lee".to_string(), "park".to_string()]);
    assert_eq!(list[0].description.as_deref(), Some("About S"));
    assert_eq!(list[0].status.as_deref(), Some("ongoing"));
    assert_eq!(list[0].updated_at, at(900));
    assert_eq!(list[1].name, "T");
    assert_eq!(list[1].post_count, 1);
    assert_eq!(list[1].authors, vec!["kim".to_string()]);
    assert_eq!(list[1].status.as_deref(), Some("completed"));
    assert_eq!(list[1].description, None);
    assert_eq!(list[1].updated_at, at(300));

    let up = get_series(&posts, Lang::En, true);
    assert_eq!(up[0].name, "T");
    assert_eq!(up[1].name, "S");

    for lang in [Lang::Ko, Lang::Ja, Lang::En] {
        let same = get_series(&posts, lang, false);
        assert_eq!(same.len(), 2);
        assert_eq!(same[0].name, "S");
        assert_eq!(same[0].updated_at, at(900));
        assert_eq!(same[0].authors, vec!["han".to_string(), "lee".to_string(), "park".to_string()]);
        assert_eq!(same[0].post_count, 4);
    }
    assert!(get_series(&[], Lang::En, false).is_empty());
}

#[test]
fn navigation_within_a_series() {
    let mut posts = chain();
    link_series(&mut posts);
    let two = get_series_nav_info(&posts, &posts[3]).unwrap();
    assert_eq!(two.series_name, "S");
    assert_eq!(two.position, 2);
    assert_eq!(two.total, 3);
    assert_eq!(two.prev_slug.as_deref(), Some("one"));
    assert_eq!(two.prev_title.as_deref(), Some("Title of one"));
    assert_eq!(two.next_slug.as_deref(), Some("three"));
    assert_eq!(two.next_title.as_deref(), Some("Title of three"));
    let one_ko = get_series_nav_info(&posts, &posts[4]).unwrap();
    assert_eq!(one_ko.position, 1);
    assert_eq!(one_ko.total, 2);
    assert_eq!(one_ko.prev_slug, None);
    assert_eq!(one_ko.prev_title, None);
    assert_eq!(one_ko.next_title.as_deref(), Some("Title of two-ko"));
    assert!(get_series_nav_info(&posts, &posts[2]).is_none());
    assert!(get_series_nav_info(&posts, &post("stranger", Lang::En, 1)).is_none());
}

#[test]
fn links_that_lead_nowhere_have_no_title() {
    let mut posts = chain();
    posts[3].metadata.prev_post = Some("gone".to_string());
    posts[3].metadata.next_post = Some("one-ko".to_string());
    link_series(&mut posts);
    let two = get_series_nav_info(&posts, &posts[3]).unwrap();
    assert_eq!(two.prev_slug.as_deref(), Some("gone"));
    assert_eq!(two.prev_title, None);
    assert_eq!(two.next_slug.as_deref(), Some("one-ko"));
    assert_eq!(two.next_title.as_deref(), Some("Title of one-ko"));
}

#[test]
fn posts_are_found_by_slug_and_language() {
    let mut posts = chain();
    posts[4].slug = "one".to_string();
    assert_eq!(find_post(&posts, "one", Some(Lang::Ko)), Some(4));
    assert_eq!(find_post(&posts, "one", Some(Lang::En)), Some(1));
    assert_eq!(find_post(&posts, "one", Some(Lang::Ja)), None);
    assert_eq!(find_post(&posts, "one", None), Some(1));
    assert_eq!(find_post(&posts, "none", None), None);
    assert_eq!(blog::nav::find_for_reader(&posts, "one", Lang::Ko), Some(4));
    assert_eq!(blog::nav::find_for_reader(&posts, "one", Lang::Ja), Some(1));
    assert_eq!(blog::nav::find_for_reader(&posts, "none", Lang::Ja), None);
}

const GUIDE_EN: &str = "---\ntitle: Guide\ndescription: d\nauthor: a\ntags: []\ncreated_at: 2024-01-01T00:00:00Z\nupdated_at: 2024-01-01T00:00:00Z\nseries: Guide\n---\nEnglish\n";
const GUIDE_KO: &str = "---\ntitle: 안내\ndescription: d\nauthor: a\ntags: []\ncreated_at: 2024-01-02T00:00:00Z\nupdated_at: 2024-01-02T00:00:00Z\nseries: Guide\n---\n한국어\n";
const INTRO: &str = "---\ntitle: Intro\ndescription: d\nauthor: a\ntags: []\ncreated_at: 2024-01-03T00:00:00Z\nupdated_at: 2024-01-03T00:00:00Z\n---\nHello\n";

fn listing(names: &[(&str, bool)]) -> Vec<DirEntry> {
    names.iter().map(|(name, is_dir)| DirEntry { name: name.to_string(), is_dir: *is_dir }).collect()
}

fn walk(loader: &mut Loader) -> Result<Vec<String>, LoadError> {
    let mut seen = Vec::new();
    while let Some(task) = loader.next() {
        match task {
            Task::List { path, category } => {
                seen.push(format!("list {}", path));
                let entries = match path.as_str() {
                    "contents" => listing(&[("notes", true), ("Blog", true), ("readme.md", false), ("diary", true)]),
                    "contents/notes" => listing(&[("review", true), ("todo.md", false)]),
                    "contents/notes/review" => listing(&[("intro.md", false)]),
                    "contents/Blog" => listing(&[
                        ("guide.en.md", false),
                        ("drafts", true),
                        ("guide.ko.mdx", false),
                        ("image.png", false),
                    ]),
                    "contents/diary" => listing(&[]),
                    _ => panic!("unexpected directory {}", path),
                };
                loader.listed(&path, category, &entries);
            }
            Task::Read { path, stem, post_type } => {
                seen.push(format!("read {}", path));
                let raw = match path.as_str() {
                    "contents/notes/review/intro.md" => INTRO,
                    "contents/Blog/guide.en.md" => GUIDE_EN,
                    "contents/Blog/guide.ko.mdx" => GUIDE_KO,
                    _ => panic!("unexpected file {}", path),
                };
                loader.loaded(&path, &stem, post_type, raw)?;
            }
        }
    }
    Ok(seen)
}

#[test]
fn the_content_tree_is_walked_in_order() {
    let mut loader = Loader::new("contents");
    let seen = walk(&mut loader).unwrap();
    assert_eq!(
        seen,
        vec![
            "list contents",
            "list contents/Blog",
            "read contents/Blog/guide.en.md",
            "read contents/Blog/guide.ko.mdx",
            "list contents/diary",
            "list contents/notes",
            "list contents/notes/review",
            "read contents/notes/review/intro.md",
        ]
    );
    let posts = loader.finish();
    assert_eq!(slugs(&posts), vec!["guide", "guide", "intro"]);
    assert_eq!(posts[2].post_type, PostType::Review);
    assert_eq!(posts[2].lang, Lang::En);
    assert_eq!(posts[2].translation_key, "intro");
    assert_eq!(posts[0].post_type, PostType::Blog);
    assert_eq!(posts[0].lang, Lang::En);
    assert_eq!(posts[1].lang, Lang::Ko);
    assert_eq!(posts[1].translation_key, "guide");
    assert_eq!(posts[1].content, "<p>한국어</p>\n");
    assert_eq!(posts[0].metadata.next_post, None);
    assert_eq!(posts[1].metadata.prev_post, None);
    let ko = dedup_by_translation(posts.clone(), Lang::Ko);
    assert_eq!(ko.len(), 2);
    assert_eq!(ko[0].lang, Lang::Ko);
    let ja = dedup_by_translation(posts, Lang::Ja);
    assert_eq!(ja[0].lang, Lang::En);
}

#[test]
fn a_malformed_file_ends_the_load() {
    let mut loader = Loader::new("root");
    assert!(matches!(loader.next(), Some(Task::List { .. })));
    loader.listed("root", None, &listing(&[("blog", true)]));
    match loader.next() {
        Some(Task::List { path, category }) => {
            assert_eq!(path, "root/blog");
            assert_eq!(category, Some(PostType::Blog));
        }
        _ => panic!("no listing"),
    }
    loader.listed("root/blog", Some(PostType::Blog), &listing(&[("b.md", false), ("a.md", false)]));
    match loader.next() {
        Some(Task::Read { path, stem, post_type }) => {
            assert_eq!((path.as_str(), stem.as_str(), post_type), ("root/blog/a.md", "a", PostType::Blog));
        }
        _ => panic!("no file"),
    }
    assert!(loader.loaded("root/blog/a.md", "a", PostType::Blog, INTRO).is_ok());
    match loader.loaded("root/blog/b.md", "b", PostType::Blog, "no header") {
        Err(LoadError::ContentError { path, cause }) => {
            assert_eq!(path, "root/blog/b.md");
            assert!(matches!(cause, ParseError::MissingFrontMatter));
        }
        _ => panic!("loaded"),
    }
    assert_eq!(loader.posts.len(), 1);
    assert_eq!(loader.pending.len(), 1);
    match Loader::unreadable("root/blog") {
        LoadError::IoError { path } => assert_eq!(path, "root/blog"),
        _ => panic!("not an i/o error"),
    }
}

#[test]
fn slugs_are_generated_from_the_metadata() {
    let mut p = post("key", Lang::Ko, 1);
    p.generate_slug();
    assert_eq!(p.slug, "key");
    p.metadata.slug = Some("chosen".to_string());
    p.generate_slug();
    assert_eq!(p.slug, "chosen");
}

#[test]
fn listings_are_taken_in_dictionary_order() {
    use_order(&["b", "a", "B", "", "ab", "a", "한", "z"], &[3, 2, 1, 5, 4, 0, 7, 6]);
    use_order(&[], &[]);
    use_order(&["same", "same", "same"], &[0, 1, 2]);
}

fn use_order(names: &[&str], expected: &[usize]) {
    let entries: Vec<DirEntry> = names.iter().map(|n| DirEntry { name: n.to_string(), is_dir: false }).collect();
    assert_eq!(blog::loader::order_by_name(&entries), expected.to_vec());
}

#[test]
fn slugs_are_unique_within_a_language() {
    let mut a_ko = post("a", Lang::Ko, 1);
    a_ko.slug = "a".to_string();
    assert!(blog::post::has_unique_slugs(&[post("a", Lang::En, 1), a_ko, post("b", Lang::En, 2)]));
    assert!(!blog::post::has_unique_slugs(&[post("a", Lang::En, 1), post("b", Lang::En, 2), post("a", Lang::En, 3)]));
    assert!(blog::post::has_unique_slugs(&[]));
}

#[test]
fn series_are_found_and_sorted() {
    let mut a = in_series(post("a", Lang::En, 1), "S", None);
    a.metadata.updated_at = at(5);
    let mut b = in_series(post("b", Lang::En, 2), "T", None);
    b.metadata.updated_at = at(5);
    let mut c = in_series(post("c", Lang::En, 3), "U", None);
    c.metadata.updated_at = at(1);
    let list = get_series(&[a, b, c], Lang::En, false);
    let names: Vec<&str> = list.iter().map(|s| s.name.as_str()).collect();
    assert_eq!(names, vec!["S", "T", "U"]);
    assert_eq!(blog::summary::find_series(&list, "T"), Some(1));
    assert_eq!(blog::summary::find_series(&list, "t"), None);
    let up = blog::summary::sort_series(&list, true);
    let names: Vec<&str> = up.iter().map(|s| s.name.as_str()).collect();
    assert_eq!(names, vec!["U", "S", "T"]);
}

#[test]
fn series_are_summed_up_across_languages() {
    let mut en = in_series(post("k", Lang::En, 1), "S", None);
    en.metadata.author = "a".to_string();
    en.metadata.updated_at = at(1);
    let mut ko = in_series(post("k", Lang::Ko, 2), "S", None);
    ko.metadata.author = "b".to_string();
    ko.metadata.updated_at = at(2);
    ko.metadata.series_description = Some("설명".to_string());
    let list = get_series(&[en.clone(), ko.clone()], Lang::En, false);
    assert_eq!(list.len(), 1);
    assert_eq!(list[0].authors, vec!["a".to_string(), "b".to_string()]);
    assert_eq!(list[0].updated_at, at(2));
    assert_eq!(list[0].post_count, 2);
    assert_eq!(list[0].description.as_deref(), Some("설명"));
    assert_eq!(list[0].status, None);

    let other = in_series(ko, "T", None);
    let list = get_series(&[en, other, post("loose", Lang::En, 3)], Lang::En, true);
    let names: Vec<&str> = list.iter().map(|s| s.name.as_str()).collect();
    assert_eq!(names, vec!["S", "T"]);
    assert_eq!(list[0].post_count, 1);
    assert_eq!(list[1].post_count, 1);
    assert_eq!(list[1].authors, vec!["b".to_string()]);
}
