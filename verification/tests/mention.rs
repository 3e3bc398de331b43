use tugbot::handlers::mention::{
    format_remaining, is_safe_url, mime_for_url, Attachment, EmbedImages, Mention,
};

#[test]
fn mime_for_url_png() {
    assert_eq!(mime_for_url("https://cdn.discordapp.com/foo.png"), "image/png");
}

#[test]
fn mime_for_url_png_with_query_string() {
    assert_eq!(mime_for_url("https://cdn.discordapp.com/foo.png?v=2&hm=abc"), "image/png");
}

#[test]
fn mime_for_url_png_with_fragment() {
    assert_eq!(mime_for_url("https://cdn.discordapp.com/foo.png#section"), "image/png");
}

#[test]
fn mime_for_url_gif() {
    assert_eq!(mime_for_url("https://example.com/a/b/c.gif"), "image/gif");
}

#[test]
fn mime_for_url_webp() {
    assert_eq!(mime_for_url("https://example.com/img.webp"), "image/webp");
}

#[test]
fn mime_for_url_jpg() {
    assert_eq!(mime_for_url("https://example.com/photo.jpg"), "image/jpeg");
}

#[test]
fn mime_for_url_no_extension_defaults_to_jpeg() {
    assert_eq!(mime_for_url("https://example.com/photo"), "image/jpeg");
}

#[test]
fn mime_for_url_unknown_extension_defaults_to_jpeg() {
    assert_eq!(mime_for_url("https://example.com/photo.bmp"), "image/jpeg");
}

#[test]
fn format_remaining_sub_minute_shows_seconds() {
    assert_eq!(format_remaining(59), "59s");
    assert_eq!(format_remaining(1), "1s");
}

#[test]
fn format_remaining_minutes() {
    assert_eq!(format_remaining(60), "1m");
    assert_eq!(format_remaining(3_599), "59m");
}

#[test]
fn format_remaining_hours_with_minutes() {
    assert_eq!(format_remaining(3_600), "1h");
    assert_eq!(format_remaining(3_660), "1h 1m");
    assert_eq!(format_remaining(7_200), "2h");
    assert_eq!(format_remaining(7_260), "2h 1m");
}

#[test]
fn mime_edge_cases_follow_path_rules() {
    assert_eq!(mime_for_url("https://example.com/.png"), "image/jpeg");
    assert_eq!(mime_for_url("https://example.com/dir.png/"), "image/png");
    assert_eq!(mime_for_url("https://example.com/a.png/."), "image/png");
    assert_eq!(mime_for_url("https://example.com/a.png/.."), "image/jpeg");
    assert_eq!(mime_for_url("https://example.com/a.PNG"), "image/jpeg");
}

#[test]
fn safe_urls() {
    assert!(is_safe_url("http://x"));
    assert!(is_safe_url("https://x"));
    assert!(!is_safe_url("ftp://x"));
    assert!(!is_safe_url("HTTPS://x"));
}

#[test]
fn question_strips_only_bot_mentions() {
    assert_eq!(Mention::extract_question("<@42>   is this  real? <@!42>", 42), "is this real?");
    assert_eq!(Mention::extract_question("<@7> hi <@42>", 42), "<@7> hi");
    assert_eq!(Mention::extract_question("<@42>", 42), "");
}

#[test]
fn answering_rules() {
    let ask = tugbot::handlers::mention::ASK_TUGBOT_CHANNEL_ID;
    assert!(Mention::should_answer(true, &vec![1, 42], 42, Some(9), ask));
    assert!(!Mention::should_answer(false, &vec![42], 42, Some(9), ask));
    assert!(!Mention::should_answer(true, &vec![1], 42, Some(9), ask));
    assert!(!Mention::should_answer(true, &vec![42], 42, None, ask));
    assert!(!Mention::should_answer(true, &vec![42], 42, Some(9), ask + 1));
}

#[test]
fn cooldowns() {
    let slow = vec![5];
    let exempt = vec![6];
    assert_eq!(Mention::cooldown_remaining(1, &slow, &exempt, Some(100)), Some(200));
    assert_eq!(Mention::cooldown_remaining(1, &slow, &exempt, Some(300)), None);
    assert_eq!(Mention::cooldown_remaining(5, &slow, &exempt, Some(100)), Some(7100));
    assert_eq!(Mention::cooldown_remaining(6, &slow, &exempt, Some(0)), None);
    assert_eq!(Mention::cooldown_remaining(1, &slow, &exempt, None), None);
    assert_eq!(Mention::cooldown_message(5, &slow, 7100), "Easy there, <@5> — give it a rest for 1h 58m");
    assert_eq!(Mention::cooldown_message(1, &slow, 200), "I'm still waking up — try again in 3m");
    assert!(Mention::should_record_usage(true, 1, &exempt));
    assert!(!Mention::should_record_usage(true, 6, &exempt));
    assert!(!Mention::should_record_usage(false, 1, &exempt));
}

#[test]
fn image_sources_pick_safe_images() {
    let atts = vec![
        Attachment { url: "https://a/x.png".to_string(), content_type: Some("image/png".to_string()) },
        Attachment { url: "http://a/y".to_string(), content_type: None },
        Attachment { url: "ftp://a/z.gif".to_string(), content_type: Some("image/gif".to_string()) },
    ];
    let embeds = vec![
        EmbedImages { image_url: Some("https://a/x.png".to_string()), thumbnail_url: None },
        EmbedImages { image_url: None, thumbnail_url: Some("https://b/t.webp?x=1".to_string()) },
        EmbedImages { image_url: None, thumbnail_url: None },
    ];
    let r = Mention::image_sources(&atts, &embeds);
    let got: Vec<(String, String)> = r.into_iter().map(|s| (s.content_type, s.url)).collect();
    assert_eq!(
        got,
        vec![
            ("image/png".to_string(), "https://a/x.png".to_string()),
            ("image/webp".to_string(), "https://b/t.webp?x=1".to_string()),
        ]
    );
}

#[test]
fn images_are_base64_encoded() {
    let r = Mention::encode_images(&vec![("image/png".to_string(), b"hello".to_vec())]);
    assert_eq!(r, vec![("image/png".to_string(), "aGVsbG8=".to_string())]);
}

#[test]
fn prompts() {
    assert_eq!(Mention::build_prompt("bob", "why?", None, 0), "bob asked: \"why?\"");
    assert_eq!(
        Mention::build_prompt("bob", "why?", Some("look"), 2),
        "bob replied to: \"look [also shared an image]\" and asked: \"why?\""
    );
    assert_eq!(
        Mention::build_prompt("bob", "why?", Some(""), 2),
        "bob replied to: \"[shared an image (2)]\" and asked: \"why?\""
    );
    assert_eq!(
        Mention::build_prompt("bob", "why?", Some(""), 0),
        "bob replied to: \"[replied to an image]\" and asked: \"why?\""
    );
    assert_eq!(Mention::answer_to_post("  hi \n"), Some("hi".to_string()));
    assert_eq!(Mention::answer_to_post(" \n "), None);
}
