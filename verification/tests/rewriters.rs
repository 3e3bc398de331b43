use tugbot::handlers::bsky::Bsky;
use tugbot::handlers::instagram::Instagram;
use tugbot::handlers::twitter::Twitter;

#[test]
fn bsky_rewrite() {
    match Bsky::fx_rewriter("https://bsky.app/profile/radleybalko.bsky.social/post/3lb5nsfya6s2o") {
        None => panic!(),
        Some(url) => assert_eq!(url, "https://bsyy.app/profile/radleybalko.bsky.social/post/3lb5nsfya6s2o",),
    }
}

#[test]
fn bsky_no_match() {
    let result = Bsky::fx_rewriter("https://twitter.com/someone/status/123");
    assert!(result.is_none());
}

#[test]
fn bsky_empty_string() {
    let result = Bsky::fx_rewriter("");
    assert!(result.is_none());
}

#[test]
fn bsky_partial_url() {
    let result = Bsky::fx_rewriter("https://bsky.app/");
    assert!(result.is_none());
}

#[test]
fn bsky_with_query_params() {
    let result = Bsky::fx_rewriter("https://bsky.app/profile/user?ref=share");
    assert!(result.is_some());
    assert_eq!(result.unwrap(), "https://bsyy.app/profile/user?ref=share");
}

#[test]
fn instagram_rewrite() {
    match Instagram::fx_rewriter("https://www.instagram.com/reel/DCkUQSry42v/?igsh=MXNrMDFwbTEzZnFvMg==") {
        None => panic!(),
        Some(url) => assert_eq!(url, "https://www.kkinstagram.com/reel/DCkUQSry42v/?igsh=MXNrMDFwbTEzZnFvMg==",),
    }
}

#[test]
fn twitter_rewrite() {
    match Twitter::fx_rewriter("https://twitter.com/davidbcooper/status/1684840110259404802") {
        None => panic!(),
        Some(url) => assert_eq!(url, "https://girlcockx.com/davidbcooper/status/1684840110259404802",),
    }
}

#[test]
fn x_rewrite() {
    match Twitter::fx_rewriter("https://x.com/davidbcooper/status/1684840110259404802") {
        None => panic!("Expected URL to be rewritten"),
        Some(url) => assert_eq!(url, "https://girlcockx.com/davidbcooper/status/1684840110259404802",),
    }
}

#[test]
fn rewriter_keeps_only_the_match() {
    assert_eq!(
        Twitter::fx_rewriter("look https://x.com/a/status/12 wow"),
        Some("https://girlcockx.com/a/status/12".to_string())
    );
    assert_eq!(Twitter::fx_rewriter("https://x.com/a/photo/12"), None);
    assert_eq!(Instagram::fx_rewriter("https://instagram.com/p/1"), Some("https://kkinstagram.com/p/1".to_string()));
}
