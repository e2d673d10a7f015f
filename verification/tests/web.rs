use blog::lang::Lang;
use blog::page::{compute_page_numbers, paginate};
use blog::post::{Post, PostMetadata, PostType, Timestamp};
use blog::request::{
    is_ascending, trailing_slash_target, page_or_first, BlogQuery, DiaryQuery, FeedQuery, GuestbookQuery, ReviewQuery, SearchQuery,
    SeriesDetailQuery, SeriesQuery, SetLangQuery,
};
use blog::search::{category_tags, post_answers, search_posts};
use blog::site::Blog;

fn post(key: &str, lang: Lang, created: i64, title: &str, description: &str, tags: &[&str]) -> Post {
    Post {
        post_type: PostType::Blog,
        metadata: PostMetadata {
            title: title.to_string(),
            description: description.to_string(),
            author: "han".to_string(),
            tags: tags.iter().map(|t| t.to_string()).collect(),
            created_at: Timestamp { secs: created, nanos: 0 },
            updated_at: Timestamp { secs: created, nanos: 0 },
            series: None,
            series_order: None,
            series_description: None,
            series_status: None,
            prev_post: None,
            next_post: None,
            og_image: None,
            lang: None,
            slug: None,
        },
        content: String::new(),
        slug: format!("{}-{}", key, lang.as_str()),
        toc: Vec::new(),
        reading_time_min: 3,
        lang,
        translation_key: key.to_string(),
    }
}

#[test]
fn page_numbers_around_the_current_page() {
    assert_eq!(compute_page_numbers(1, 0), Vec::<u32>::new());
    assert_eq!(compute_page_numbers(1, 1), vec![1]);
    assert_eq!(compute_page_numbers(3, 5), vec![1, 2, 3, 4, 5]);
    assert_eq!(compute_page_numbers(1, 10), vec![1, 2, 3, 4, 5]);
    assert_eq!(compute_page_numbers(2, 10), vec![1, 2, 3, 4, 5]);
    assert_eq!(compute_page_numbers(3, 10), vec![1, 2, 3, 4, 5]);
    assert_eq!(compute_page_numbers(4, 10), vec![2, 3, 4, 5, 6]);
    assert_eq!(compute_page_numbers(7, 10), vec![5, 6, 7, 8, 9]);
    assert_eq!(compute_page_numbers(9, 10), vec![6, 7, 8, 9, 10]);
    assert_eq!(compute_page_numbers(10, 10), vec![6, 7, 8, 9, 10]);
    assert_eq!(compute_page_numbers(99, 10), vec![6, 7, 8, 9, 10]);
    assert_eq!(compute_page_numbers(0, 6), vec![1, 2, 3, 4, 5]);
    assert_eq!(
        compute_page_numbers(u32::MAX, u32::MAX),
        vec![u32::MAX - 4, u32::MAX - 3, u32::MAX - 2, u32::MAX - 1, u32::MAX]
    );
}

#[test]
fn a_listing_is_cut_into_pages() {
    let p = paginate(25, 1, 10);
    assert_eq!((p.current_page, p.total_pages, p.start, p.end), (1, 3, 0, 10));
    assert_eq!((p.prev_page, p.next_page), (None, Some(2)));
    assert_eq!(p.page_numbers, vec![1, 2, 3]);
    let p = paginate(25, 3, 10);
    assert_eq!((p.total_pages, p.start, p.end), (3, 20, 25));
    assert_eq!((p.prev_page, p.next_page), (Some(2), None));
    let p = paginate(25, 4, 10);
    assert_eq!((p.total_pages, p.start, p.end), (3, 25, 25));
    assert_eq!((p.prev_page, p.next_page), (Some(3), None));
    let p = paginate(0, 1, 10);
    assert_eq!((p.total_pages, p.start, p.end), (0, 0, 0));
    assert_eq!((p.prev_page, p.next_page), (None, None));
    assert!(p.page_numbers.is_empty());
    let p = paginate(30, 2, 10);
    assert_eq!((p.total_pages, p.start, p.end), (3, 10, 20));
    let p = paginate(7, 2, 6);
    assert_eq!((p.total_pages, p.start, p.end), (2, 6, 7));
    let p = paginate(usize::MAX, u32::MAX, u32::MAX);
    assert_eq!(p.total_pages, 4294967297u64.min(u32::MAX as u64) as u32);
    assert_eq!(p.start, (u32::MAX as usize - 1) * u32::MAX as usize);
    let p = paginate(usize::MAX, 1, 1);
    assert_eq!((p.total_pages, p.start, p.end), (u32::MAX, 0, 1));
    let p = paginate(0, 1, 10).at_least_one_page();
    assert_eq!((p.total_pages, p.prev_page, p.next_page), (1, None, None));
    assert_eq!(p.page_numbers, vec![1]);
    let p = paginate(11, 1, 10).at_least_one_page();
    assert_eq!((p.total_pages, p.next_page), (2, Some(2)));
    assert_eq!(p.page_numbers, vec![1, 2]);
}

#[test]
fn query_parameters() {
    assert_eq!(page_or_first(None), 1);
    assert_eq!(page_or_first(Some(7)), 7);
    assert!(is_ascending(&Some("asc".to_string())));
    assert!(!is_ascending(&Some("ASC".to_string())));
    assert!(!is_ascending(&Some("desc".to_string())));
    assert!(!is_ascending(&None));
    let q = BlogQuery { category: None, page: Some(4), sort: Some("asc".to_string()) };
    assert_eq!((q.page(), q.sort_asc()), (4, true));
    let q = ReviewQuery { category: Some("x".to_string()), page: None, sort: None };
    assert_eq!((q.page(), q.sort_asc()), (1, false));
    let q = DiaryQuery { category: None, page: Some(0), sort: Some("".to_string()) };
    assert_eq!((q.page(), q.sort_asc()), (0, false));
    assert!(SeriesQuery { sort: Some("asc".to_string()) }.sort_asc());
    let q = SeriesDetailQuery { sort: None, page: Some(2) };
    assert_eq!((q.page(), q.sort_asc()), (2, false));
    let q = GuestbookQuery { sort: Some("asc".to_string()), page: None };
    assert_eq!((q.page(), q.sort_asc()), (1, true));
    assert_eq!(FeedQuery { lang: None }.lang_filter(), None);
    assert_eq!(FeedQuery { lang: Some("KO".to_string()) }.lang_filter(), Some(Lang::Ko));
    assert_eq!(FeedQuery { lang: Some("xx".to_string()) }.lang_filter(), Some(Lang::En));
    assert_eq!(SearchQuery { q: "x".to_string(), lang: "ja-JP".to_string() }.search_lang(), Lang::Ja);
    assert_eq!(SetLangQuery { lang: "ko".to_string() }.target(), Lang::Ko);
}

#[test]
fn search_looks_at_titles_descriptions_and_tags() {
    let posts = vec![
        post("a", Lang::En, 1, "Learning Rust", "first steps", &["lang"]),
        post("b", Lang::En, 2, "Web", "about TRUST", &[]),
        post("c", Lang::En, 3, "Other", "nothing", &["Rustacean", "x"]),
        post("d", Lang::En, 4, "Other", "nothing", &["go"]),
        post("a", Lang::Ko, 5, "러스트 배우기 rust", "", &[]),
    ];
    let q: Vec<char> = "rust".chars().collect();
    assert!(post_answers(&posts[0], &q));
    assert!(post_answers(&posts[1], &q));
    assert!(post_answers(&posts[2], &q));
    assert!(!post_answers(&posts[3], &q));
    let found = search_posts(&posts, "RUST", Lang::En);
    let slugs: Vec<&str> = found.iter().map(|r| r.slug.as_str()).collect();
    assert_eq!(slugs, vec!["c-en", "b-en", "a-en"]);
    let found = search_posts(&posts, "rUst", Lang::Ko);
    let slugs: Vec<&str> = found.iter().map(|r| r.slug.as_str()).collect();
    assert_eq!(slugs, vec!["a-ko", "c-en", "b-en"]);
    let first = &found[0];
    assert_eq!(first.title, "러스트 배우기 rust");
    assert_eq!(first.post_type, "blog");
    assert_eq!(first.lang, "ko");
    assert_eq!(first.reading_time_min, 3);
    assert_eq!(first.created_at, Timestamp { secs: 5, nanos: 0 });
    assert!(search_posts(&posts, "zzz", Lang::En).is_empty());
    assert_eq!(search_posts(&posts, "", Lang::En).len(), 4);
    assert_eq!(search_posts(&posts, "배우기", Lang::En).len(), 1);
}

#[test]
fn search_gives_at_most_twenty() {
    let mut posts = Vec::new();
    for i in 0..30 {
        posts.push(post(&format!("k{}", i), Lang::En, i, "same title", "", &[]));
    }
    let found = search_posts(&posts, "title", Lang::En);
    assert_eq!(found.len(), 20);
    assert_eq!(found[0].slug, "k29-en");
    assert_eq!(found[19].slug, "k10-en");
}

#[test]
fn tags_of_a_kind_are_listed_once() {
    let mut diary = post("d", Lang::En, 1, "t", "d", &["private", "rust"]);
    diary.post_type = PostType::Diary;
    let posts = vec![
        post("a", Lang::En, 1, "t", "d", &["rust", "web", "rust"]),
        diary,
        post("b", Lang::En, 2, "t", "d", &["web", "db"]),
    ];
    assert_eq!(category_tags(&posts, PostType::Blog), vec!["rust", "web", "db"]);
    assert_eq!(category_tags(&posts, PostType::Diary), vec!["private", "rust"]);
    assert!(category_tags(&posts, PostType::Review).is_empty());
}

#[test]
fn page_heads_are_built_step_by_step() {
    let blank = Blog::new();
    assert_eq!((blank.title.as_str(), blank.description.as_str(), blank.url.as_str(), blank.og_type.as_str()), ("", "", "", ""));
    let page = Blog::new().set_title("miniex").set_description("notes").set_url("https://example.org").set_og_type("article");
    assert_eq!(page.title, "miniex");
    assert_eq!(page.description, "notes");
    assert_eq!(page.url, "https://example.org");
    assert_eq!(page.og_type, "article");
    let retitled = page.set_title("other");
    assert_eq!(retitled.title, "other");
    assert_eq!(retitled.description, "notes");
    assert_eq!(Blog::default().title, "");
}

#[test]
fn trailing_slashes_are_redirected_away() {
    assert_eq!(trailing_slash_target("/blog/", None), Some("/blog".to_string()));
    assert_eq!(trailing_slash_target("/blog///", Some("page=2")), Some("/blog?page=2".to_string()));
    assert_eq!(trailing_slash_target("//", None), Some("".to_string()));
    assert_eq!(trailing_slash_target("/", None), None);
    assert_eq!(trailing_slash_target("/blog", Some("a/")), None);
    assert_eq!(trailing_slash_target("", None), None);
}
