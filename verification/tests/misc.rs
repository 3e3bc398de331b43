use tugbot::calendar::civil_date;
use tugbot::db::activity::{
    bulk_upsert_activity, query_all_tracked_user_ids_for_guild, query_inactive_users,
    query_user_activity_for_ids, ActivityError, UserActivity,
};
use tugbot::db::gulag::{check_new_vote, gulag_spam_detected, new_gulag_vote, GulagQueries, GulagRecordError};
use tugbot::db::servers::get_server_by_guild_id;
use tugbot::db::message_vote::{MessageVoteHanderResponseType, MessageVoteHandler, VoteError};
use tugbot::db::models::{Features as FeatureRow, GulagUser, GulagVote, JobStatus, NewGulagVote, Server};
use tugbot::db::usage::{
    atomic_increment_ai_slop, atomic_increment_goku_poll, get_is_this_real_usage, get_or_create_ai_slop_usage,
    get_or_create_goku_poll_usage, get_or_create_is_this_real_usage, increment_ai_slop_usage, update_is_this_real_usage,
    IsThisRealUsage, UsageError,
};
use tugbot::exa::{search_results, ExaResult};
use tugbot::features::{FeatureError, Features};
use tugbot::handlers::ai_slop::{AiSlopHandler, AiSlopRefusal};
use tugbot::handlers::colors::Colors;
use tugbot::handlers::derpies::Derpies;
use tugbot::handlers::elkmen::ElkMen;
use tugbot::handlers::elon::Elon;
use tugbot::handlers::feat::Feat;
use tugbot::handlers::game_handler::{GameHandler, TagChange};
use tugbot::handlers::games::{CommandOption, Games, RoleEdit};
use tugbot::handlers::goku_poll::{AnswerCount, GokuPoll, PollAnswer};
use tugbot::handlers::greasy::{Greasy, MessageReaction};
use tugbot::handlers::reactions::Reactions;
use tugbot::handlers::roles::Roles;
use tugbot::handlers::teh::Teh;
use tugbot::handlers::{Command, GuildRole, Handler};

fn role(id: u64, name: &str) -> GuildRole {
    GuildRole { id, name: name.to_string() }
}

#[test]
fn civil_dates() {
    assert_eq!(civil_date(0), (1970, 1, 1));
    assert_eq!(civil_date(59), (1970, 3, 1));
    assert_eq!(civil_date(11016), (2000, 2, 29));
    assert_eq!(civil_date(2932896), (9999, 12, 31));
}

#[test]
fn goku_durations() {
    assert_eq!(GokuPoll::calculate_duration(0), 1800);
    assert_eq!(GokuPoll::calculate_duration(1), 3600);
    assert_eq!(GokuPoll::calculate_duration(2), 7200);
    assert_eq!(GokuPoll::calculate_duration(11), 2_592_000);
    assert_eq!(GokuPoll::calculate_duration(40), 2_592_000);
    assert_eq!(GokuPoll::calculate_duration(-1), 2_592_000);
    assert_eq!(GokuPoll::format_duration(3600), "1 hours");
    assert_eq!(GokuPoll::format_duration(59), "0 minutes");
    assert_eq!(GokuPoll::MAX_DURATION_SECS, 2_592_000);
    for c in 0..40 {
        assert!(GokuPoll::calculate_duration(c) <= GokuPoll::calculate_duration(c + 1));
    }
}

#[test]
fn goku_polls() {
    let counts = vec![AnswerCount { id: 1, count: 3 }, AnswerCount { id: 2, count: 5 }, AnswerCount { id: 3, count: 5 }];
    assert_eq!(GokuPoll::winning_answer(&counts).map(|a| a.id), Some(3));
    assert!(GokuPoll::winning_answer(&vec![AnswerCount { id: 1, count: 0 }]).is_none());
    assert!(GokuPoll::winning_answer(&vec![]).is_none());
    let answers = vec![
        PollAnswer { answer_id: 3, text: Some("GOKU wins".to_string()) },
        PollAnswer { answer_id: 3, text: Some("other".to_string()) },
    ];
    assert_eq!(GokuPoll::winning_text(&answers, 3), Some("GOKU wins".to_string()));
    assert_eq!(GokuPoll::winning_text(&answers, 4), None);
    assert!(GokuPoll::mentions_goku("GOKU wins"));
    assert!(!GokuPoll::mentions_goku("Vegeta"));
    assert_eq!(GokuPoll::next_count(None, 4), 5);
    assert_eq!(GokuPoll::next_count(Some(9), 4), 9);
    assert_eq!(
        GokuPoll::announcement(5, 1800, 1),
        "<@5> created a poll and Goku won. Sent to the gulag for 30 minutes!\nThis is offense #1 (next offense will be 1 hours)"
    );
}

#[test]
fn ai_slop() {
    assert_eq!(AiSlopHandler::offense_durations(1), Ok((1800, 3600)));
    assert_eq!(AiSlopHandler::offense_durations(0), Err(AiSlopRefusal::CountTooHigh));
    assert_eq!(AiSlopHandler::check_target(1, 1, Some(false)), Err(AiSlopRefusal::SelfSlop));
    assert_eq!(AiSlopHandler::check_target(1, 2, Some(true)), Err(AiSlopRefusal::TargetIsBot));
    assert_eq!(AiSlopHandler::check_target(1, 2, None), Err(AiSlopRefusal::CannotVerifyBot));
    assert_eq!(AiSlopHandler::check_target(1, 2, Some(false)), Ok(()));
    assert_eq!(AiSlopRefusal::SelfSlop.reply().content, "Error: You cannot AI Slop yourself!");
    assert_eq!(
        AiSlopHandler::channel_notice(5, 1800, "L", 1),
        "<@5> has been sent to the gulag for 30 minutes for posting AI slop: L\nThis is offense #1"
    );
    assert_eq!(
        AiSlopHandler::success_reply("bob", 3600, 2, 7200).content,
        "Sent bob to the gulag for 1 hours for posting AI slop!\nThis is their offense #2 (next offense will be 2 hours)"
    );
}

fn feature(id: i32, name: &str, enabled: bool) -> FeatureRow {
    FeatureRow { id, name: name.to_string(), enabled }
}

#[test]
fn feature_flags() {
    let rows = vec![feature(1, "gulag", true), feature(2, "teh", false)];
    assert!(Features::is_enabled(&rows, "gulag"));
    assert!(!Features::is_enabled(&rows, "teh"));
    assert!(!Features::is_enabled(&rows, "missing"));
    let after = Features::update(&rows, "teh", true).unwrap();
    assert!(Features::is_enabled(&after, "teh"));
    assert!(Features::is_enabled(&after, "gulag"));
    assert!(matches!(Features::update(&rows, "missing", true), Err(FeatureError::NotFound)));
    assert_eq!(FeatureError::NotFound.message("x"), "Feature 'x' not found in database");
    assert_eq!(
        Feat::handle_list_features(&rows).content,
        "Here's all the features\nName: `gulag` Enabled: `true`\nName: `teh` Enabled: `false`"
    );
    assert_eq!(Feat::handle_feature(&rows, "teh"), Some(("teh".to_string(), true)));
    assert_eq!(Feat::handle_feature(&rows, "nope"), None);
    assert_eq!(Feat::no_match_reply().content, "Couldn't match feature");
}

#[test]
fn usage_counters() {
    let (rows, c) = get_or_create_ai_slop_usage(vec![], 1, 2, 10, 100);
    assert_eq!(c.usage_count, 0);
    assert_eq!(rows.len(), 1);
    let (rows, n) = atomic_increment_ai_slop(rows, 1, 2, 11, 200).unwrap();
    assert_eq!(n, 1);
    let (rows, n) = atomic_increment_ai_slop(rows, 1, 2, 12, 300).unwrap();
    assert_eq!(n, 2);
    let (rows, n) = atomic_increment_ai_slop(rows, 5, 2, 13, 300).unwrap();
    assert_eq!(n, 1);
    assert_eq!(rows.len(), 2);
    let mut full = rows.clone();
    full[0].usage_count = i32::MAX;
    assert!(matches!(atomic_increment_ai_slop(full, 1, 2, 14, 400), Err(UsageError::CountOutOfRange)));
    let (rows, c) = increment_ai_slop_usage(rows, 10, 7, 500).unwrap();
    assert_eq!((c.usage_count, c.last_at, c.user_id), (7, 500, 1));
    assert_eq!(rows[0].usage_count, 7);
    assert!(matches!(increment_ai_slop_usage(rows, 99, 1, 600), Err(UsageError::NotFound)));
}

#[test]
fn goku_poll_counters() {
    let (rows, c) = get_or_create_goku_poll_usage(vec![], 3, 4, 1, 50);
    assert_eq!((c.id, c.usage_count, c.created_at), (1, 0, 50));
    let (rows, again) = get_or_create_goku_poll_usage(rows, 3, 4, 2, 60);
    assert_eq!((again.id, rows.len()), (1, 1));
    let (rows, n) = atomic_increment_goku_poll(rows, 3, 4, 3, 70).unwrap();
    assert_eq!(n, 1);
    assert_eq!((rows[0].usage_count, rows[0].last_at), (1, 70));
}

#[test]
fn question_usage_rows() {
    assert_eq!(get_is_this_real_usage(&vec![], 1, 2), None);
    let (rows, u) = get_or_create_is_this_real_usage(vec![], 1, 2, 5, 100);
    assert_eq!(u, IsThisRealUsage { id: 5, user_id: 1, guild_id: 2, last_used_at: 100, created_at: 100 });
    assert_eq!(get_is_this_real_usage(&rows, 1, 2), Some(u));
    assert_eq!(get_is_this_real_usage(&rows, 1, 3), None);
    let (rows, used) = update_is_this_real_usage(rows, 5, 400).unwrap();
    assert_eq!((used.last_used_at, used.created_at), (400, 100));
    assert_eq!(rows[0], used);
    assert!(matches!(update_is_this_real_usage(rows, 6, 500), Err(UsageError::NotFound)));
}

#[test]
fn servers_by_guild() {
    let servers = vec![Server { id: 1, guild_id: 10, gulag_id: 100 }, Server { id: 2, guild_id: 20, gulag_id: 200 }];
    assert_eq!(get_server_by_guild_id(&servers, 20), Some(servers[1]));
    assert_eq!(get_server_by_guild_id(&servers, 30), None);
}

fn sentence(id: i32, user_id: i64, guild_id: i64, in_gulag: bool, release_at: u64) -> GulagUser {
    GulagUser {
        id,
        user_id,
        guild_id,
        gulag_role_id: 1,
        channel_id: 1,
        in_gulag,
        gulag_length: 60,
        created_at: 0,
        release_at,
        remod: false,
        message_id: 0,
    }
}

#[test]
fn gulag_queries() {
    let users = vec![sentence(1, 7, 1, true, 100), sentence(2, 8, 1, true, 300), sentence(3, 7, 2, false, 50)];
    assert_eq!(GulagQueries::find_expired(&users, 200), vec![users[0]]);
    assert_eq!(GulagQueries::find_active_by_guild(&users, 1), vec![users[0], users[1]]);
    assert_eq!(GulagQueries::find_by_user_id(&users, 7), Some(users[0]));
    assert_eq!(GulagQueries::find_by_user_id(&users, 9), None);
    let (kept, gone) = GulagQueries::delete(&users, 2);
    assert_eq!((kept, gone), (vec![users[0], users[2]], 1));
    let longer = GulagQueries::add_time(users[0], 30).unwrap();
    assert_eq!((longer.gulag_length, longer.release_at), (90, 130));
    assert_eq!(GulagQueries::add_time(users[0], -1), Err(GulagRecordError::NegativeDuration));
    assert!(!GulagQueries::mark_released(users[0]).in_gulag);
    let created = GulagQueries::create(7, 1, 2, 60, 3, 4, 1000).unwrap();
    assert_eq!((created.release_at, created.in_gulag, created.remod), (1060, true, false));
    assert_eq!(GulagQueries::create(7, 1, 2, -1, 3, 4, 1000), Err(GulagRecordError::NegativeLength));
}

#[test]
fn gulag_vote_rows() {
    let expected = NewGulagVote {
        requester_id: 1,
        sender_id: 2,
        guild_id: 3,
        channel_id: 6,
        gulag_role_id: 4,
        processed: false,
        message_id: 5,
        created_at: 99,
    };
    assert_eq!(new_gulag_vote(1, 2, 3, 4, 5, 6, 99), expected);
    let votes = vec![vote(1, 2, false, 10)];
    votes_for(&votes, expected);
}

fn votes_for(votes: &Vec<GulagVote>, expected: NewGulagVote) {
    assert_eq!(GulagQueries::create_vote(votes, 1, 2, 1, 4, 5, 6, 99), Err(GulagRecordError::DuplicateVote));
    assert_eq!(GulagQueries::create_vote(votes, 1, 2, 3, 4, 5, 6, 99), Ok(expected));
}

fn act(user_id: i64, guild_id: i64, last: u64) -> UserActivity {
    UserActivity { user_id, guild_id, last_message_at: last, created_at: 0 }
}

#[test]
fn activity_tracking() {
    let rows = vec![act(1, 9, 1_000_000), act(2, 9, 5_000_000), act(3, 8, 0)];
    let (rows, n) = bulk_upsert_activity(rows, &vec![(1, 9), (4, 9)], 4_000_000).unwrap();
    assert_eq!(n, 2);
    assert_eq!(rows[0].last_message_at, 4_000_000);
    assert_eq!(rows[1].last_message_at, 5_000_000);
    assert_eq!(rows[3].user_id, 4);
    assert!(matches!(bulk_upsert_activity(rows.clone(), &vec![(1, 9), (1, 9)], 1), Err(ActivityError::DuplicateInBatch)));
    assert_eq!(query_inactive_users(&rows, 9, 30, 7_000_000), vec![1, 4]);
    assert_eq!(query_inactive_users(&rows, 9, 1, 4_050_000), Vec::<i64>::new());
    assert_eq!(query_all_tracked_user_ids_for_guild(&rows, 9), vec![1, 2, 4]);
    assert_eq!(query_user_activity_for_ids(&rows, 9, &vec![2, 3]).len(), 1);
}

#[test]
fn games_and_roles() {
    let games = Games::new().games;
    assert_eq!(games.len(), 3);
    assert_eq!(games[1].role_name, "tag-apex");
    let roles = vec![role(7, "tag-apex"), role(8, "tag-doom"), role(9, "other")];
    let matched = Games::match_roles_and_games(&games, &roles);
    assert_eq!(matched.len(), 2);
    assert_eq!((matched[0].name.as_str(), matched[0].role_id), ("Apex", 7));
    assert_eq!(Games::try_find_game_from_role_name(&matched, "\"tag-doom\"").unwrap().map(|g| g.role_id), Some(8));
    assert!(Games::try_find_game_from_role_name(&matched, "\"bad \\q\"").is_none());
    let opts = vec![
        CommandOption { name: "add".to_string(), value: Some("\"tag-apex\"".to_string()) },
        CommandOption { name: "remove".to_string(), value: Some("\"tag-apex\"".to_string()) },
    ];
    let (reply, edits) = Games::try_add_or_remove_game(&matched, &vec![], &opts).unwrap();
    assert_eq!(reply.content, "Removed Role");
    assert_eq!(edits, vec![RoleEdit::Add(7), RoleEdit::Remove(7)]);
    let bad = vec![CommandOption { name: "remove".to_string(), value: Some("\"tag-doom\"".to_string()) }];
    let (reply, edits) = Games::add_or_remove_game(&matched, &vec![], &bad);
    assert_eq!(reply.content, "You didnt fill out the request correctly");
    assert!(edits.is_empty());
    assert_eq!(Games::no_options_passed().content, "No Response");
    assert_eq!(Games::does_user_have_role(&vec![1, 7], 7), Some(7));
    assert_eq!(Roles::does_user_have_role(&vec![1], 7), None);
    assert_eq!(Roles::plan_changes(&vec![3, 3, 1, 4, 4, 3], &vec![1]), (vec![3, 4, 3], vec![1]));
}

#[test]
fn menus() {
    let roles = vec![role(1, "color-red"), role(2, "tag-apex"), role(3, "color-blue")];
    let colors = Colors::new(&roles);
    assert_eq!(colors.colors.len(), 2);
    let reply = colors.reply();
    assert_eq!(reply.content, "Choose Which Color you want on your name");
    let menu = reply.components.unwrap();
    assert_eq!(menu.custom_id, "color_select");
    assert_eq!(menu.options[1].label, "color-blue");
    assert_eq!(menu.options[1].value, 3);
    assert_eq!(colors.swap_color_role(), vec![1, 3]);
    let games = GameHandler::new(&roles);
    assert_eq!(games.games.len(), 1);
    assert_eq!(games.select_menu().placeholder, "Select your game");
    assert_eq!(GameHandler::add_or_remove_game_role(&vec![2], 2), TagChange::Remove(2));
    assert_eq!(GameHandler::add_or_remove_game_role(&vec![], 2), TagChange::Add(2));
}

#[test]
fn message_reactions() {
    let dents = vec![
        MessageReaction { emoji: "<:denthead:1377314774219489520>".to_string(), me: false, count: 3 },
        MessageReaction { emoji: "👍".to_string(), me: false, count: 10 },
    ];
    assert!(!Greasy::has_enough_dents(&dents));
    let mut more = dents.clone();
    more[0].count = 4;
    assert!(Greasy::has_enough_dents(&more));
    assert!(Greasy::is_greasy("GreasyUser"));
    assert!(!Greasy::is_greasy("CleanUser"));
    assert!(Greasy::should_respond("greasy", &more));
    let mut reacted = more.clone();
    reacted[1].me = true;
    assert!(!Greasy::should_respond("greasy", &reacted));
    assert_eq!(Greasy::message(), "i hate u");
    assert!(Teh::should_react(true, "TeH cat"));
    assert!(!Teh::should_react(false, "teh"));
    assert_eq!(Teh::reactions(), vec!["🇹".to_string(), "🇪".to_string(), "🇭".to_string()]);
}

#[test]
fn elon_and_friends() {
    assert!(Elon::has_elon_words("This is CONCERNING!"));
    assert!(Elon::has_elon_words("Looking into it."));
    assert!(Elon::has_elon_words("cöncérning"));
    assert!(!Elon::has_elon_words("all good"));
    let roles = vec![role(1, "#1ElonMuskFan"), role(2, "#1ElonMuskFan")];
    assert!(Elon::has_elon_role(&vec![2], &roles));
    assert!(!Elon::has_elon_role(&vec![3], &roles));
    assert!(Derpies::is_derpie(&vec![4], &vec![role(4, "derpies")]));
    assert_eq!(ElkMen::invite_prompt(1, 2), "Should we add <@1> to the <@&2>?, You have 10 mins to vote");
    assert_eq!(ElkMen::outcome(2, 1, 1, 2), (true, "Welcome brother <@1> to the <@&2>!".to_string()));
    assert_eq!(ElkMen::outcome(1, 1, 1, 2), (false, "Sorry <@&2>, but <@1> didn't RISE to the occasion!".to_string()));
    assert_eq!(ElkMen::find_elkmen_role(&vec![role(3, "elk-men")]).map(|r| r.id), Some(3));
}

#[test]
fn routing_and_reaction_roles() {
    assert_eq!(Handler::route("gulag"), Command::Gulag);
    assert_eq!(Handler::route("phony"), Command::Horny);
    assert_eq!(Handler::route("horny"), Command::Phony);
    assert_eq!(Handler::route("nope"), Command::Unknown);
    assert_eq!(Handler::not_implemented().content, "Not Implimented");
    assert_eq!(Handler::escape_message(5), "You can't escape so easily <@5>");
    let r = Reactions::new();
    assert_eq!(
        r.reaction_role_message(),
        "**React to this message to play the following**\nWarzone: @tag-warzone: 👍\nApex: @tag-apex: 👎\nFuck: @tag-fuck: 👹\n"
    );
    assert_eq!(Reactions::find_role_id(&vec![role(1, "foo"), role(2, "foo")]), 2);
    assert_eq!(Reactions::find_role_id(&vec![]), 0);
}

#[test]
fn votes_on_messages() {
    let first = MessageVoteHandler::message_vote_create_or_update(None, 1, 2, 3, 4, 5).unwrap();
    assert_eq!(first.response_type, MessageVoteHanderResponseType::ADDED);
    assert_eq!(first.content.current_vote_tally, 1);
    let again = MessageVoteHandler::message_vote_create_or_update(Some(first.content.clone()), 1, 2, 3, 4, 5);
    assert!(matches!(again, Err(VoteError::AlreadyVoted)));
    let removed = MessageVoteHandler::message_vote_remove(Some(first.content.clone()), 5).unwrap();
    assert_eq!(removed.content.current_vote_tally, 0);
    assert!(matches!(MessageVoteHandler::message_vote_remove(None, 5), Err(VoteError::NoVote)));
    let synced = MessageVoteHandler::sync_from_discord(None, 1, 2, 3, 4, vec![7, 8]);
    assert_eq!(synced.current_vote_tally, 2);
    assert_eq!(synced.job_status, JobStatus::Created);
    let running = GulagQueries::update_vote_status(synced.clone(), JobStatus::Running);
    assert_eq!((running.job_status, running.current_vote_tally), (JobStatus::Running, 2));
    let done = GulagQueries::mark_vote_done(synced.clone(), 2);
    assert_eq!(done.total_vote_tally, 2);
    assert_eq!(done.current_vote_tally, 0);
    assert!(done.voters.is_empty());
    assert!(GulagQueries::find_votes_ready_for_processing(&vec![done], 2).is_empty());
    let ready = GulagQueries::find_votes_ready_for_processing(&vec![synced.clone(), running], 2);
    assert_eq!(ready.len(), 1);
    assert_eq!(ready[0].voters, synced.voters);
}

fn vote(requester: i64, sender: i64, processed: bool, created_at: u64) -> GulagVote {
    GulagVote { id: 1, requester_id: requester, sender_id: sender, guild_id: 1, channel_id: 1, gulag_role_id: 1, processed, message_id: 1, created_at }
}

#[test]
fn gulag_vote_requests() {
    let votes = vec![vote(1, 2, false, 10_000), vote(1, 3, true, 10_000)];
    assert_eq!(check_new_vote(&votes, 1, 2, 1), Err(GulagRecordError::DuplicateVote));
    assert_eq!(check_new_vote(&votes, 1, 3, 1), Ok(()));
    let spam: Vec<GulagVote> = (0..4).map(|i| vote(1, i, false, 10_000)).collect();
    assert!(gulag_spam_detected(&spam, 1, 10_100));
    assert!(!gulag_spam_detected(&spam[..3].to_vec(), 1, 10_100));
    assert!(!gulag_spam_detected(&spam, 1, 20_000));
}

#[test]
fn search_results_join_highlights() {
    let r = search_results(&vec![ExaResult { title: "T".to_string(), highlights: vec!["a".to_string(), "b".to_string()] }]);
    assert_eq!(r, vec![("T".to_string(), "a b".to_string())]);
}
