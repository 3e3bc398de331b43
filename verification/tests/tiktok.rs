use regex::Regex;
use tugbot::handlers::tiktok::TikTok;

#[test]
fn test_tiktok_url_regex_matches() {
    let re = Regex::new(r"https://((www.)?tiktok.com)/.+").unwrap();
    assert!(re.is_match("https://www.tiktok.com/@user/video/123456"));
    assert!(re.is_match("https://tiktok.com/@user/video/123456"));
    assert!(!re.is_match("https://twitter.com/user"));
    assert!(TikTok::source_url("https://www.tiktok.com/@user/video/123456").is_some());
    assert!(TikTok::source_url("https://tiktok.com/@user/video/123456").is_some());
    assert!(TikTok::source_url("https://twitter.com/user").is_none());
}

#[test]
fn test_tiktok_redirect_regex() {
    let re_redirect = Regex::new(r"NEXT_REDIRECT;replace;(/post/\d+);").unwrap();
    let test_str = r#"something NEXT_REDIRECT;replace;/post/12345; more text"#;
    assert!(re_redirect.is_match(test_str));
    let caps = re_redirect.captures(test_str).unwrap();
    assert_eq!(caps.get(1).unwrap().as_str(), "/post/12345");
    assert_eq!(TikTok::final_url(test_str), Some("https://offtiktok.com/post/12345".to_string()));
}

#[test]
fn test_get_url_replacement() {
    let original = "https://www.tiktok.com/@user/video/123";
    let expected = "https://www.offtiktok.com/@user/video/123";
    assert_eq!(TikTok::offtiktok_url(original), expected);
}

#[test]
fn tiktok_source_is_whole_match() {
    assert_eq!(
        TikTok::source_url("see https://www.tiktok.com/@a/video/1 now"),
        Some("https://www.tiktok.com/@a/video/1 now".to_string())
    );
    assert_eq!(TikTok::final_url("no marker"), None);
}
