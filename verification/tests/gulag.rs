use std::time::{SystemTime, UNIX_EPOCH};
use tugbot::db::models::GulagUser;
use tugbot::handlers::gulag::{
    Gulag, GulagHandler, GulagLengthError, GulagListHandler, GulagMessageCommandHandler,
    GulagParams, GulagReaction, GulagVoteHandler, ReactionCount, Reactor, ReleaseAction,
    SentenceWrite,
};
use tugbot::handlers::{GuildChannel, GuildRole};

fn now_secs() -> u64 {
    SystemTime::now().duration_since(UNIX_EPOCH).unwrap().as_secs()
}

#[test]
fn test_send_error_formats_correctly() {
    let error_msg = "Something went wrong";
    let response = Gulag::send_error(error_msg);
    assert_eq!(response.content, "Error: Something went wrong");
    assert!(response.ephemeral);
    assert!(response.components.is_none());
}

#[test]
fn test_send_error_with_empty_string() {
    let response = Gulag::send_error("");
    assert_eq!(response.content, "Error: ");
}

#[test]
fn test_send_error_with_special_characters() {
    let response = Gulag::send_error("Test & <special> \"chars\"");
    assert_eq!(response.content, "Error: Test & <special> \"chars\"");
}

#[test]
fn test_format_time_info_future_release() {
    let now = now_secs();
    let future = now + 300;
    let result = GulagListHandler::format_time_info(future, now);
    assert!(result.contains("releases in"));
}

#[test]
fn test_format_time_info_past_release() {
    let now = now_secs();
    let past = now - 3600;
    let result = GulagListHandler::format_time_info(past, now);
    assert!(result.contains("overdue for release"));
    assert!(result.contains("3600s ago"));
}

#[test]
fn test_format_time_info_very_old_release() {
    let now = now_secs();
    let very_old = now - 41477253;
    let result = GulagListHandler::format_time_info(very_old, now);
    assert!(result.contains("overdue for release"));
    assert!(result.contains("41477253s ago"));
}

#[test]
fn test_format_time_info_exactly_now() {
    let now = now_secs();
    let result = GulagListHandler::format_time_info(now, now);
    assert!(result.contains("releases in") || result.contains("overdue for release"));
}

#[test]
fn time_info_exact_texts() {
    assert_eq!(GulagListHandler::format_time_info(1300, 1000), "releases in 300s");
    assert_eq!(GulagListHandler::format_time_info(1000, 1000), "releases in 0ns");
    assert_eq!(GulagListHandler::format_time_info(1000, 1001), "overdue for release (1s ago)");
}

fn sentence(id: i32, user: i64, len: i32, release: u64, in_gulag: bool) -> GulagUser {
    GulagUser {
        id,
        user_id: user,
        guild_id: 1,
        gulag_role_id: 2,
        channel_id: 3,
        in_gulag,
        gulag_length: len,
        created_at: 0,
        release_at: release,
        remod: false,
        message_id: 0,
    }
}

#[test]
fn list_of_prisoners() {
    let r = GulagListHandler::list_reply(&vec![sentence(1, 5, 300, 1300, true), sentence(2, 6, 300, 900, false)], 1000);
    assert_eq!(r.content, "Users in the Gulag:\n<@5> - releases in 300s");
    assert!(r.ephemeral);
    let empty = GulagListHandler::list_reply(&vec![sentence(2, 6, 300, 900, false)], 1000);
    assert_eq!(empty.content, "No users currently in the Gulag.");
}

fn roles() -> Vec<GuildRole> {
    vec![
        GuildRole { id: 10, name: "admin".to_string() },
        GuildRole { id: 11, name: "gulag".to_string() },
        GuildRole { id: 12, name: "gulag".to_string() },
        GuildRole { id: 13, name: "jury-duty".to_string() },
    ]
}

#[test]
fn finding_roles_and_channels() {
    let r = Gulag::find_gulag_role(&roles()).unwrap();
    assert_eq!(r.id, 11);
    assert!(Gulag::find_role(&roles(), "nope").is_none());
    let channels = vec![GuildChannel { id: 7, name: "general".to_string() }, GuildChannel { id: 8, name: "the-gulag".to_string() }];
    assert_eq!(Gulag::find_channel(&channels, "the-gulag").unwrap().id, 8);
    assert!(Gulag::member_has_role(&vec![11], &roles(), "gulag"));
    assert!(!Gulag::member_has_role(&vec![12], &roles(), "gulag"));
    let allowed = vec!["Highly Regarded".to_string(), "admin".to_string()];
    assert!(Gulag::member_has_any_role(&vec![10], &roles(), &allowed));
    assert!(!Gulag::member_has_any_role(&vec![13], &roles(), &allowed));
    assert_eq!(Gulag::is_tugbot(Some(4), 4), Some(true));
    assert_eq!(Gulag::is_tugbot(None, 4), None);
}

#[test]
fn sentences_are_created_or_extended() {
    let params = GulagParams { guildid: 1, userid: 5, gulag_roleid: 2, gulaglength: 300, channelid: 3, messageid: 9 };
    match Gulag::add_to_gulag(None, &params, 1000).unwrap() {
        SentenceWrite::Create(n) => {
            assert_eq!(n.release_at, 1300);
            assert_eq!(n.gulag_length, 300);
            assert_eq!(n.message_id, 9);
        }
        SentenceWrite::Extend(_) => panic!("expected a new sentence"),
    }
    let existing = sentence(4, 5, 600, 2000, true);
    match Gulag::add_to_gulag(Some(existing), &params, 1000).unwrap() {
        SentenceWrite::Extend(u) => {
            assert_eq!(u.gulag_length, 900);
            assert_eq!(u.release_at, 2300);
            assert_eq!(u.id, 4);
        }
        SentenceWrite::Create(_) => panic!("expected an extension"),
    }
    let found = Gulag::is_user_in_gulag(&vec![sentence(1, 6, 1, 1, true), sentence(2, 5, 1, 1, true), sentence(3, 5, 1, 1, true)], 5);
    assert_eq!(found.unwrap().id, 2);
}

#[test]
fn announcements() {
    assert_eq!(
        Gulag::announcement(5, 300, "https://discord.com/channels/1/2/3", 900, &Some(vec![7, 8])),
        "Sending <@5> to the Gulag for 5 minutes because of https://discord.com/channels/1/2/3, they have 15 minutes remaining\nThese people voted them in, <@7>, <@8>"
    );
    assert_eq!(
        Gulag::announcement(5, 300, "L", -61, &None),
        "Sending <@5> to the Gulag for 5 minutes because of L, they have -1 minutes remaining"
    );
    assert_eq!(Gulag::freeing_message(5), "Freeing <@5> from the gulag");
}

#[test]
fn release_outcomes() {
    assert_eq!(Gulag::release_action(None, 9), ReleaseAction { delete_record: true, mark_vote_done: true });
    assert_eq!(Gulag::release_action(None, 0), ReleaseAction { delete_record: true, mark_vote_done: false });
    assert_eq!(Gulag::release_action(Some("Unknown Guild"), 9), ReleaseAction { delete_record: true, mark_vote_done: false });
    assert_eq!(Gulag::release_action(Some("timeout"), 9), ReleaseAction { delete_record: false, mark_vote_done: false });
    assert!(Gulag::is_gulag_reaction("<:gulag:123>"));
    assert!(!Gulag::is_gulag_reaction("gulag"));
}

#[test]
fn gulag_lengths() {
    assert_eq!(GulagHandler::parse_length(None), Ok(300));
    assert_eq!(GulagHandler::parse_length(Some(10)), Ok(600));
    assert_eq!(GulagHandler::parse_length(Some(10080)), Ok(604800));
    assert_eq!(GulagHandler::parse_length(Some(0)), Err(GulagLengthError::NotPositive));
    assert_eq!(GulagHandler::parse_length(Some(10081)), Err(GulagLengthError::TooLong));
    assert_eq!(GulagLengthError::TooLong.message(), "Gulag length cannot exceed 10080 minutes (1 week)");
    let c = GulagHandler::confirmation(42, 600, Some("spam"));
    assert_eq!(c.content, "Sending 42 to the Gulag for 10 minutes, because spam");
    assert!(!c.ephemeral);
    assert_eq!(GulagHandler::confirmation(42, 600, None).content, "Sending 42 to the Gulag for 10 minutes");
}

#[test]
fn votes_on_a_member() {
    assert_eq!(
        GulagVoteHandler::vote_prompt(1, 2, 3),
        "Should we add <@1> to the <@&2>?\n<@&3> you have 10 mins to vote"
    );
    let reactions = vec![
        ReactionCount { unicode: Some("👍".to_string()), count: 4 },
        ReactionCount { unicode: Some("👎".to_string()), count: 2 },
        ReactionCount { unicode: None, count: 9 },
    ];
    assert_eq!(GulagVoteHandler::tally(&reactions), (3, 1));
    assert!(GulagVoteHandler::carried(3, 1));
    assert!(!GulagVoteHandler::carried(1, 1));
    assert_eq!(GulagVoteHandler::result_message("Q", 3, 1), "Q\nVote over, totals;\nYes: 3\nNo: 1");
}

#[test]
fn message_votes_and_reactions() {
    let r = GulagMessageCommandHandler::vote_reply(true, "L", 3);
    assert_eq!(r.content, "A gulag vote has been added to L\nThere are now 3 unique votes total");
    assert_eq!(
        GulagMessageCommandHandler::vote_reply(false, "L", 2).content,
        "A gulag vote has been removed from L\nThere are now 2 unique votes total"
    );
    assert!(GulagReaction::is_gulag_emoji("<:gulag:1>"));
    assert!(!GulagReaction::is_gulag_emoji("👍"));
    assert_eq!(GulagReaction::next_voter_page(0, 100, Some(9)), Some(9));
    assert_eq!(GulagReaction::next_voter_page(0, 99, Some(9)), None);
    assert_eq!(GulagReaction::next_voter_page(49, 100, Some(9)), None);
    assert_eq!(
        GulagReaction::voter_ids(&vec![Reactor { id: 1, bot: false }, Reactor { id: 2, bot: true }, Reactor { id: 3, bot: false }]),
        vec![1, 3]
    );
    assert_eq!(GulagReaction::find_emoji(&vec!["kekw".to_string(), "gulag".to_string()]), Some(1));
}

#[test]
fn escalating_sentences() {
    assert_eq!(Gulag::get_gulag_duration_for_offense(0), 1800);
    assert_eq!(Gulag::get_gulag_duration_for_offense(1), 3600);
    assert_eq!(Gulag::get_gulag_duration_for_offense(10), 1_843_200);
    assert_eq!(Gulag::get_gulag_duration_for_offense(11), 2_592_000);
    assert_eq!(Gulag::get_gulag_duration_for_offense(4_000_000_000), 2_592_000);
    assert_eq!(Gulag::format_duration(1800), "30 minutes");
    assert_eq!(Gulag::format_duration(5400), "1 hours 30 minutes");
    assert_eq!(Gulag::format_duration(7200), "2 hours");
    assert_eq!(Gulag::format_duration(2_592_000), "30 days");
    assert_eq!(Gulag::format_duration(90_000), "1 days 1 hours");
}
