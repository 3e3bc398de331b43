use tugbot::handlers::nickname::{clean_username, fix_nickname};

#[test]
fn nickname_horny() {
    let nick = String::from("foo");
    let prefix = String::from("horny");
    let positive_test = fix_nickname(&nick, &prefix);
    assert_eq!(positive_test, String::from("horny | foo"));
}

#[test]
fn nickname_phony() {
    let nick = String::from("foo");
    let prefix = String::from("phony");
    let positive_test = fix_nickname(&nick, &prefix);
    assert_eq!(positive_test, String::from("phony | foo"));
}

#[test]
fn nickname_swap() {
    let nick = String::from("horny | foo");
    let prefix = String::from("phony");
    let positive_test = fix_nickname(&nick, &prefix);
    assert_eq!(positive_test, String::from("phony | foo"));
}

#[test]
fn nickname_nickname_clean_one() {
    let nick = String::from("horny | foo");
    let prefix = String::from("horny");
    let positive_test = fix_nickname(&nick, &prefix);
    assert_eq!(positive_test, String::from("foo"));
}

#[test]
fn nickname_nickname_clean_all() {
    let nick = String::from("phony | horny | foo");
    let prefix = String::from("phony");
    let positive_test = fix_nickname(&nick, &prefix);
    assert_eq!(positive_test, String::from("foo"));
}

#[test]
fn nickname_empty_nickname() {
    let nick = String::from("");
    let prefix = String::from("horny");
    let result = fix_nickname(&nick, &prefix);
    assert_eq!(result, String::from("horny | "));
}

#[test]
fn clean_username_removes_both_prefixes() {
    let nick = String::from("phony | horny | username");
    let result = clean_username(&nick);
    assert_eq!(result, String::from("username"));
}

#[test]
fn clean_username_no_prefix() {
    let nick = String::from("username");
    let result = clean_username(&nick);
    assert_eq!(result, String::from("username"));
}

#[test]
fn nickname_nickname_with_multiple_pipes() {
    let nick = String::from("other | prefix | username");
    let prefix = String::from("horny");
    let result = fix_nickname(&nick, &prefix);
    assert_eq!(result, String::from("horny | other | prefix | username"));
}

#[test]
fn nickname_nickname_already_has_correct_prefix() {
    let nick = String::from("phony | username");
    let prefix = String::from("phony");
    let result = fix_nickname(&nick, &prefix);
    assert_eq!(result, String::from("username"));
}

#[test]
fn toggling_twice_restores_a_plain_nickname() {
    for prefix in ["horny", "phony"] {
        let once = fix_nickname("foo", prefix);
        assert_eq!(fix_nickname(&once, prefix), "foo");
    }
}
