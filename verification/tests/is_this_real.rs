use rapidfuzz::fuzz;
use tugbot::handlers::is_this_real::IsThisReal;
use tugbot::handlers::mention::Attachment;

#[test]
fn test_rapidfuzz_ratio_scale() {
    let perfect = fuzz::ratio("is this real".chars(), "is this real".chars());
    assert!((perfect - 1.0).abs() < 0.001, "perfect match should be 1.0, got {}", perfect);
    let one_off = fuzz::ratio("is this reai".chars(), "is this real".chars());
    assert!(one_off > 0.9, "one char diff should be >90%, got {}", one_off);
    let diff = fuzz::ratio("something else".chars(), "is this real".chars());
    assert!(diff < 0.6, "unrelated strings should be <60%, got {}", diff);
}

#[test]
fn test_fuzzy_trigger_matching() {
    let triggers = IsThisReal::triggers();
    let test_inputs = vec![
        ("is this reaI?", true),
        ("is this real?", true),
        ("is this real", true),
        ("is that legit?", true),
        ("is dis real", true),
        ("what's for dinner", false),
        ("hello world", false),
    ];
    for (input, should_match) in test_inputs {
        let cleaned = IsThisReal::clean(input);
        let mut matched = false;
        for trigger in &triggers {
            let score = fuzz::ratio(cleaned.chars(), trigger.chars());
            if score >= 0.8 {
                matched = true;
                break;
            }
        }
        assert_eq!(matched, should_match, "input='{}' cleaned='{}'", input, cleaned);
    }
}

#[test]
fn cleaning_and_questions() {
    assert_eq!(IsThisReal::clean("  Is THIS réal?! "), "is this réal");
    assert_eq!(IsThisReal::extract_question("<@9> is this real? <@!9>", 9), "is this real?");
    assert_eq!(IsThisReal::extract_question("<@9>", 9), "");
}

#[test]
fn is_this_real_rules() {
    assert!(IsThisReal::should_consider(true, &vec![9], 9, Some(1)));
    assert!(!IsThisReal::should_consider(true, &vec![9], 9, None));
    assert!(IsThisReal::is_special_user(163055057254875136));
    assert!(IsThisReal::on_cooldown(1, Some(100)));
    assert!(!IsThisReal::on_cooldown(1, Some(8 * 3600)));
    assert!(!IsThisReal::on_cooldown(212879017257205760, Some(1)));
    assert!(!IsThisReal::on_cooldown(1, None));
    assert!(!IsThisReal::should_record_usage(212879017257205760));
    assert_eq!(
        IsThisReal::build_prompt("", 2, "real?"),
        "/skill:is-this-real Someone said: \"[shared an image (2)]\" — The question is: \"real?\""
    );
    assert_eq!(
        IsThisReal::irony_message(5),
        "<@5> wanted to know if something was real... now they're in the gulag for 5m. Irony."
    );
    let p = IsThisReal::special_user_params(1, 2, 3, 4, 5);
    assert_eq!((p.guildid, p.userid, p.gulag_roleid, p.gulaglength, p.channelid, p.messageid), (1, 2, 3, 300, 4, 5));
    let atts = vec![
        Attachment { url: "ftp://x".to_string(), content_type: Some("image/png".to_string()) },
        Attachment { url: "https://y".to_string(), content_type: Some("text/plain".to_string()) },
    ];
    let r = IsThisReal::image_sources(&atts);
    assert_eq!(r.len(), 1);
    assert_eq!(r[0].url, "ftp://x");
}
