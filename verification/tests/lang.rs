use blog::lang::Lang;
use blog::request::{lang_from_cookie, AcceptEntry, LangExtractor};

fn from_accept_language(header_value: &str) -> Lang {
    let entries: Vec<AcceptEntry> = Lang::accept_candidates(header_value);
    let parsed: Vec<Option<u32>> = entries
        .iter()
        .map(|e| e.quality.as_ref().and_then(|q| q.parse::<f32>().ok()).map(|q| q.to_bits()))
        .collect();
    Lang::best_accepted(&entries, &parsed)
}

#[test]
fn test_lang_parse_ko() {
    assert_eq!(Lang::parse("ko"), Lang::Ko);
}

#[test]
fn test_lang_parse_ko_kr() {
    assert_eq!(Lang::parse("ko-KR"), Lang::Ko);
}

#[test]
fn test_lang_parse_ko_kr_underscore() {
    assert_eq!(Lang::parse("ko_kr"), Lang::Ko);
}

#[test]
fn test_lang_parse_ja() {
    assert_eq!(Lang::parse("ja"), Lang::Ja);
}

#[test]
fn test_lang_parse_ja_jp() {
    assert_eq!(Lang::parse("ja-JP"), Lang::Ja);
}

#[test]
fn test_lang_parse_en() {
    assert_eq!(Lang::parse("en"), Lang::En);
}

#[test]
fn test_lang_parse_en_us() {
    assert_eq!(Lang::parse("en-US"), Lang::En);
}

#[test]
fn test_lang_parse_en_gb() {
    assert_eq!(Lang::parse("en-GB"), Lang::En);
}

#[test]
fn test_lang_parse_unknown_defaults_en() {
    assert_eq!(Lang::parse("fr"), Lang::En);
    assert_eq!(Lang::parse("de"), Lang::En);
    assert_eq!(Lang::parse(""), Lang::En);
}

#[test]
fn test_from_accept_language_simple_ko() {
    assert_eq!(from_accept_language("ko"), Lang::Ko);
}

#[test]
fn test_from_accept_language_with_quality() {
    assert_eq!(from_accept_language("en;q=0.5, ko;q=0.9, ja;q=0.3"), Lang::Ko);
}

#[test]
fn test_from_accept_language_complex_rfc() {
    assert_eq!(from_accept_language("ja-JP,ja;q=0.9,en-US;q=0.8,en;q=0.7"), Lang::Ja);
}

#[test]
fn test_from_accept_language_default_quality() {
    // No q= means q=1.0
    assert_eq!(from_accept_language("ko-KR, en;q=0.5"), Lang::Ko);
}

#[test]
fn test_from_accept_language_unknown_only() {
    assert_eq!(from_accept_language("fr, de;q=0.5"), Lang::En);
}

#[test]
fn test_lang_as_str() {
    assert_eq!(Lang::Ko.as_str(), "ko");
    assert_eq!(Lang::Ja.as_str(), "ja");
    assert_eq!(Lang::En.as_str(), "en");
}

#[test]
fn test_lang_code() {
    assert_eq!(Lang::Ko.code(), "KO");
    assert_eq!(Lang::Ja.code(), "JA");
    assert_eq!(Lang::En.code(), "EN");
}

#[test]
fn test_lang_display() {
    assert_eq!(Lang::Ko.to_string(), "ko");
    assert_eq!(Lang::En.to_string(), "en");
}

#[test]
fn lang_label_and_order() {
    assert_eq!(Lang::Ko.label(), "한국어");
    assert_eq!(Lang::Ja.label(), "日本語");
    assert_eq!(Lang::En.label(), "English");
    assert_eq!(Lang::all(), [Lang::Ko, Lang::Ja, Lang::En]);
    assert_eq!(Lang::default(), Lang::En);
}

#[test]
fn lang_parse_folds_case_with_unicode_rules() {
    // U+212A KELVIN SIGN lowers to 'k'.
    assert_eq!(Lang::parse("\u{212A}O"), Lang::Ko);
    assert_eq!(Lang::parse("JA_JP"), Lang::Ja);
    assert_eq!(Lang::from_tag("KO"), Lang::En);
}

#[test]
fn lang_suffix_is_exact() {
    assert_eq!(Lang::from_suffix("ko"), Some(Lang::Ko));
    assert_eq!(Lang::from_suffix("ja"), Some(Lang::Ja));
    assert_eq!(Lang::from_suffix("en"), Some(Lang::En));
    assert_eq!(Lang::from_suffix("KO"), None);
    assert_eq!(Lang::from_suffix("ko-kr"), None);
    assert_eq!(Lang::from_suffix(""), None);
}

#[test]
fn accept_language_entries_are_split_and_trimmed() {
    let entries = Lang::accept_candidates(" en-US ;q=0.8 , KO , fr;q=abc,");
    assert_eq!(entries.len(), 4);
    assert_eq!(entries[0].lang, Some(Lang::En));
    assert_eq!(entries[0].quality.as_deref(), Some("0.8"));
    assert_eq!(entries[1].lang, Some(Lang::Ko));
    assert_eq!(entries[1].quality, None);
    assert_eq!(entries[2].lang, None);
    assert_eq!(entries[2].quality.as_deref(), Some("abc"));
    assert_eq!(entries[3].lang, None);
    assert_eq!(entries[3].quality, None);
}

#[test]
fn accept_language_ties_keep_the_first() {
    assert_eq!(from_accept_language("ja;q=0.5, ko;q=0.5"), Lang::Ja);
    assert_eq!(from_accept_language("ja, ko"), Lang::Ja);
}

#[test]
fn accept_language_unreadable_quality_counts_as_zero() {
    assert_eq!(from_accept_language("ko;q=abc, ja;q=0.1"), Lang::Ja);
    assert_eq!(from_accept_language("ko;q=abc"), Lang::Ko);
}

#[test]
fn accept_language_nan_and_negative_qualities() {
    assert_eq!(from_accept_language("ko;q=NaN, ja;q=0.1"), Lang::Ja);
    assert_eq!(from_accept_language("ko;q=NaN"), Lang::En);
    assert_eq!(from_accept_language("ko;q=-2"), Lang::En);
    assert_eq!(from_accept_language("ko;q=-0.5, ja;q=-0.25"), Lang::Ja);
    assert_eq!(from_accept_language("ko;q=inf, ja;q=1"), Lang::Ko);
    assert_eq!(from_accept_language(""), Lang::En);
}

#[test]
fn quality_comparison_follows_ieee_order() {
    let samples: [f32; 12] = [
        0.0,
        -0.0,
        1.0,
        -1.0,
        0.5,
        0.3,
        f32::INFINITY,
        f32::NEG_INFINITY,
        f32::NAN,
        f32::MIN_POSITIVE,
        1.0e-40,
        -3.5e20,
    ];
    for a in samples {
        for b in samples {
            assert_eq!(blog::request::quality_gt(a.to_bits(), b.to_bits()), a > b, "{} > {}", a, b);
        }
    }
}

#[test]
fn cookie_language() {
    assert_eq!(lang_from_cookie("lang=ko"), Some(Lang::Ko));
    assert_eq!(lang_from_cookie("theme=dark; lang= JA ; x=1"), Some(Lang::Ja));
    assert_eq!(lang_from_cookie("theme=dark; lang=fr; lang=ko"), Some(Lang::En));
    assert_eq!(lang_from_cookie("theme=dark"), None);
    assert_eq!(lang_from_cookie("xlang=ko"), None);
    assert_eq!(lang_from_cookie(""), None);
}

#[test]
fn request_language_precedence() {
    assert_eq!(LangExtractor::resolve(Some("lang=ja"), Some(Lang::Ko)).0, Lang::Ja);
    assert_eq!(LangExtractor::resolve(Some("a=b"), Some(Lang::Ko)).0, Lang::Ko);
    assert_eq!(LangExtractor::resolve(None, Some(Lang::Ko)).0, Lang::Ko);
    assert_eq!(LangExtractor::resolve(None, None).0, Lang::En);
    assert_eq!(LangExtractor::resolve(Some("a=b"), None).0, Lang::En);
}
