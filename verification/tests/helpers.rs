use tugbot::handlers::helpers::fix_nickname;

#[test]
fn nickname_addition_positive() {
    let nick = String::from("foo");
    let prefix = String::from("horny");
    let positive_test = fix_nickname(&nick, &prefix);
    assert_eq!(positive_test, format!("{} | {}", prefix, nick));
}

#[test]
fn nickname_clean_positive() {
    let nick = String::from("horny | foo");
    let prefix = String::from("horny");
    let positive_test = fix_nickname(&nick, &prefix);
    assert_eq!(positive_test, String::from("foo"));
}

#[test]
fn clean_dumb() {
    let nick = String::from("phony | horny | foo");
    let prefix = String::from("phony");
    let positive_test = fix_nickname(&nick, &prefix);
    assert_eq!(positive_test, String::from("horny | foo"));
}

#[test]
fn clean_dumb_2() {
    let nick = String::from("horny | phony | foo");
    let prefix = String::from("phony");
    let positive_test = fix_nickname(&nick, &prefix);
    assert_eq!(positive_test, String::from("horny | foo"));
}
