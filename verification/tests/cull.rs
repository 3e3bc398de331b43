use std::time::{Duration, SystemTime};
use tugbot::handlers::cull::{
    cull_started_reply, cull_start_message, cull_summary, dry_run_message, dry_run_reply,
    format_timestamp, kick_reason, next_page_after, no_candidates_report, parse_days,
    select_candidates, whitelist_roles, get_whitelist_role_ids, CullError, CullMember,
    CAT_HERDING_CHANNEL_ID, KICK_DELAY_MS, MAX_KICKS,
};
use tugbot::handlers::GuildRole;

fn secs(ts: SystemTime) -> Option<u64> {
    ts.duration_since(SystemTime::UNIX_EPOCH).ok().map(|d| d.as_secs())
}

#[test]
fn test_format_timestamp_known_date() {
    // 2024-01-15 = 19737 days since epoch
    let ts = SystemTime::UNIX_EPOCH + Duration::from_secs(19737 * 86400);
    assert_eq!(format_timestamp(secs(ts)), "2024-01-15");
}

#[test]
fn test_format_timestamp_epoch() {
    let ts = SystemTime::UNIX_EPOCH;
    assert_eq!(format_timestamp(secs(ts)), "1970-01-01");
}

#[test]
fn test_format_timestamp_y2k() {
    // 2000-01-01 = 10957 days since epoch
    let ts = SystemTime::UNIX_EPOCH + Duration::from_secs(10957 * 86400);
    assert_eq!(format_timestamp(secs(ts)), "2000-01-01");
}

#[test]
fn test_format_timestamp_2025_june() {
    // 2025-06-15 = 20254 days since epoch
    let ts = SystemTime::UNIX_EPOCH + Duration::from_secs(20254 * 86400);
    assert_eq!(format_timestamp(secs(ts)), "2025-06-15");
}

#[test]
fn test_format_timestamp_feb_leap_year() {
    // 2024-02-29 (leap year) = 19782 days since epoch
    let ts = SystemTime::UNIX_EPOCH + Duration::from_secs(19782 * 86400);
    assert_eq!(format_timestamp(secs(ts)), "2024-02-29");
}

#[test]
fn test_max_kicks_constant() {
    assert_eq!(MAX_KICKS, 50);
}

#[test]
fn test_kick_delay_constant() {
    assert_eq!(KICK_DELAY_MS, 1500);
}

#[test]
fn test_cat_herding_channel_id() {
    assert_eq!(CAT_HERDING_CHANNEL_ID, 1224402885786472659);
}

#[test]
fn test_whitelist_roles() {
    let roles = whitelist_roles();
    assert!(roles.contains(&"Highly Regarded".to_string()));
    assert!(roles.contains(&"admin".to_string()));
}

#[test]
fn test_execute_mode_response_starts_with_cull_started() {
    let cat_id = CAT_HERDING_CHANNEL_ID;
    let candidate_count = 10;
    let expected_prefix = format!("Cull started: {} candidates.", candidate_count);
    let expected_suffix = format!("Results will be posted to <#{}>", cat_id);
    let msg = cull_started_reply(candidate_count).content;
    assert!(msg.starts_with(&expected_prefix));
    assert!(msg.contains(&expected_suffix));
}

#[test]
fn test_execute_mode_max_kicks_would_block() {
    let worst_case_ms = MAX_KICKS as u64 * KICK_DELAY_MS;
    let discord_response_window_ms = 3000;
    assert!(
        worst_case_ms > discord_response_window_ms,
        "worst case {}ms exceeds Discord's {}ms window — must spawn background task",
        worst_case_ms,
        discord_response_window_ms
    );
}

#[test]
fn format_timestamp_before_epoch_is_unknown() {
    assert_eq!(format_timestamp(None), "unknown");
}

#[test]
fn format_timestamp_end_of_year_and_century_rules() {
    // 1999-12-31
    assert_eq!(format_timestamp(Some(10956 * 86400 + 86399)), "1999-12-31");
    // 2100-03-01: 2100 is not a leap year
    assert_eq!(format_timestamp(Some(47541 * 86400)), "2100-03-01");
    assert_eq!(format_timestamp(Some(47540 * 86400)), "2100-02-28");
}

#[test]
fn parse_days_defaults_and_bounds() {
    assert_eq!(parse_days(None), Ok(30));
    assert_eq!(parse_days(Some(1)), Ok(1));
    assert_eq!(parse_days(Some(365)), Ok(365));
    assert_eq!(parse_days(Some(0)), Err(CullError::DaysOutOfRange));
    assert_eq!(parse_days(Some(366)), Err(CullError::DaysOutOfRange));
    assert_eq!(parse_days(Some(-5)), Err(CullError::DaysOutOfRange));
    assert_eq!(CullError::DaysOutOfRange.message(), "Days must be between 1 and 365");
}

fn member(id: u64, bot: bool, roles: Vec<u64>, in_gulag: bool) -> CullMember {
    CullMember { user_id: id, bot, roles, in_gulag }
}

#[test]
fn select_candidates_filters_sorts_dedups_and_caps() {
    let members = vec![
        member(30, false, vec![], false),
        member(10, false, vec![], false),
        member(20, true, vec![], false),     // bot
        member(40, false, vec![7], false),   // whitelisted role
        member(50, false, vec![], true),     // in the gulag
        member(10, false, vec![], false),    // repeated
        member(60, false, vec![], false),    // never posted
    ];
    let whitelist = vec![7];
    let inactive = vec![10, 20, 30, 40, 50];
    let seen = Some(vec![10, 20, 30, 40, 50]);
    assert_eq!(select_candidates(&members, &whitelist, &inactive, false, &seen), vec![10, 30]);
    assert_eq!(select_candidates(&members, &whitelist, &inactive, true, &seen), vec![10, 30, 60]);
    assert_eq!(select_candidates(&members, &whitelist, &inactive, true, &None), vec![10, 30]);
    let many: Vec<CullMember> = (0..120u64).rev().map(|i| member(i + 1, false, vec![], false)).collect();
    let all: Vec<i64> = (1..=120i64).collect();
    let picked = select_candidates(&many, &vec![], &all, false, &None);
    assert_eq!(picked, (1..=50u64).collect::<Vec<u64>>());
}

#[test]
fn whitelist_role_ids_by_name() {
    let roles = vec![
        GuildRole { id: 1, name: "admin".to_string() },
        GuildRole { id: 2, name: "gulag".to_string() },
        GuildRole { id: 3, name: "Highly Regarded".to_string() },
    ];
    assert_eq!(get_whitelist_role_ids(&roles), vec![1, 3]);
}

#[test]
fn dry_run_message_lists_candidates() {
    let candidates = vec![1, 2];
    let activity = vec![(1i64, Some(19737 * 86400u64)), (1i64, Some(10957 * 86400u64))];
    let msg = dry_run_message(30, false, &candidates, &activity);
    assert_eq!(
        msg,
        "**Cull Dry-Run** (inactive 30+ days, never posted: no)\n\n<@1> (last active: 2000-01-01)\n<@2> (last active: never posted)\n\nTotal candidates: 2 (capped at 50)\nRun `/cull --days 30` to execute."
    );
}

#[test]
fn dry_run_message_caps_listing() {
    let candidates: Vec<u64> = (1..=27).collect();
    let msg = dry_run_message(7, true, &candidates, &vec![]);
    assert!(msg.contains("<@25> (last active: never posted)\nand 2 more..."));
    assert!(!msg.contains("<@26>"));
    assert!(msg.starts_with("**Cull Dry-Run** (inactive 7+ days, never posted: yes)"));
}

#[test]
fn cull_reports() {
    assert_eq!(no_candidates_report(30, true), "No candidates found (inactive 30+ days, never posted: yes)");
    assert_eq!(cull_start_message(3, 45), "Starting cull: 3 candidates (inactive 45+ days)...");
    assert_eq!(kick_reason(30, "mod"), "Inactive 30 days — /cull by mod");
    assert_eq!(cull_summary(&vec![true, false, true]), "Cull complete: 2 kicked, 1 skipped (errors).");
    let posted = dry_run_reply(true, "report");
    assert_eq!(posted.content, "Dry-run posted to <#1224402885786472659>");
    assert!(posted.ephemeral);
    let failed = dry_run_reply(false, "report");
    assert_eq!(failed.content, "Failed to post to <#1224402885786472659>. Dry-run results:\n\nreport");
}

#[test]
fn member_pages_continue_only_when_full() {
    assert_eq!(next_page_after(1000, Some(5)), Some(5));
    assert_eq!(next_page_after(999, Some(5)), None);
}
