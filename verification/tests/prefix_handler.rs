use tugbot::handlers::horny::{Horny, Phony};
use tugbot::handlers::prefix_handler::{edit_error_reply, fix_nickname, PrefixHandler};

#[test]
fn prefix_handler_horny() {
    let nick = String::from("foo");
    let prefix = String::from("horny");
    let positive_test = fix_nickname(&nick, &prefix);
    assert_eq!(positive_test, String::from("horny | foo"));
}

#[test]
fn prefix_handler_phony() {
    let nick = String::from("foo");
    let prefix = String::from("phony");
    let positive_test = fix_nickname(&nick, &prefix);
    assert_eq!(positive_test, String::from("phony | foo"));
}

#[test]
fn prefix_handler_swap() {
    let nick = String::from("horny | foo");
    let prefix = String::from("phony");
    let positive_test = fix_nickname(&nick, &prefix);
    assert_eq!(positive_test, String::from("phony | foo"));
}

#[test]
fn prefix_handler_nickname_clean_one() {
    let nick = String::from("horny | foo");
    let prefix = String::from("horny");
    let positive_test = fix_nickname(&nick, &prefix);
    assert_eq!(positive_test, String::from("foo"));
}

#[test]
fn prefix_handler_nickname_clean_all() {
    let nick = String::from("phony | horny | foo");
    let prefix = String::from("phony");
    let positive_test = fix_nickname(&nick, &prefix);
    assert_eq!(positive_test, String::from("foo"));
}

#[test]
fn prefix_handler_empty_nickname() {
    let nick = String::from("");
    let prefix = String::from("horny");
    let result = fix_nickname(&nick, &prefix);
    assert_eq!(result, String::from("horny | "));
}

#[test]
fn prefix_handler_nickname_with_multiple_pipes() {
    let nick = String::from("other | prefix | username");
    let prefix = String::from("horny");
    let result = fix_nickname(&nick, &prefix);
    assert_eq!(result, String::from("horny | other | prefix | username"));
}

#[test]
fn prefix_handler_nickname_already_has_correct_prefix() {
    let nick = String::from("phony | username");
    let prefix = String::from("phony");
    let result = fix_nickname(&nick, &prefix);
    assert_eq!(result, String::from("username"));
}

#[test]
fn toggle_replies() {
    let (nick, reply) = PrefixHandler::toggle("foo", "horny");
    assert_eq!(nick, "horny | foo");
    assert_eq!(reply.content, "Added | horny your nickname");
    assert!(reply.ephemeral);
    let (nick, reply) = Horny::toggle("horny | foo", "horny");
    assert_eq!(nick, "foo");
    assert_eq!(reply.content, "Removed | horny your nickname");
    let (nick, reply) = Phony::toggle("foo", "phony");
    assert_eq!(nick, "phony | foo");
    assert_eq!(reply.content, "Done");
}

#[test]
fn edit_errors() {
    assert_eq!(
        edit_error_reply("HTTP 403 Missing Permissions").content,
        "Error: I don't have permission to change nicknames. Please check my role permissions."
    );
    assert_eq!(
        edit_error_reply("Cannot exceed the limit of 32").content,
        "Error: Nickname is too long. Please shorten your nickname first."
    );
    assert_eq!(edit_error_reply("boom").content, "Error: Could not update nickname: boom");
}
