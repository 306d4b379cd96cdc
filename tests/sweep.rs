use polly::cache::{CacheRow, MessageLocation};
use polly::expiry::DAY_MS;
use polly::sweep::{
    farewell_message, has_role, inactivity_cutoff, needs_requarantine, plan_sync, should_kick,
    sync_report, ChannelMessage, MemberSnapshot, KICK_REASON,
};

const ROLE: u64 = 7;

fn member(user_id: u64, is_bot: bool, roles: Vec<u64>, joined_at: Option<i64>) -> MemberSnapshot {
    MemberSnapshot { user_id, is_bot, roles, joined_at }
}

#[test]
fn role_lookup() {
    assert!(has_role(&[1, 7, 3], 7));
    assert!(!has_role(&[1, 3], 7));
    assert!(!has_role(&[], 7));
}

#[test]
fn drift_sweep_requarantines_then_settles() {
    // (member, has intro on record)
    let mut members = vec![
        (member(1, false, vec![], None), false),
        (member(2, false, vec![ROLE], None), false),
        (member(3, false, vec![], None), true),
        (member(4, true, vec![], None), false),
        (member(5, false, vec![2], None), false),
    ];
    let mut adds = Vec::new();
    for (m, has_intro) in members.iter_mut() {
        if needs_requarantine(m, *has_intro, ROLE) {
            adds.push(m.user_id);
            m.roles.push(ROLE);
        }
    }
    assert_eq!(adds, vec![1, 5]);
    for (m, has_intro) in &members {
        if !m.is_bot && !*has_intro {
            assert!(has_role(&m.roles, ROLE));
        }
    }
    let second: Vec<u64> = members
        .iter()
        .filter(|(m, h)| needs_requarantine(m, *h, ROLE))
        .map(|(m, _)| m.user_id)
        .collect();
    assert!(second.is_empty());
}

#[test]
fn inactivity_cutoff_is_seven_days() {
    assert_eq!(inactivity_cutoff(30 * DAY_MS), 23 * DAY_MS);
    assert_eq!(inactivity_cutoff(i64::MIN + 1), i64::MIN);
}

#[test]
fn kick_needs_role_and_age() {
    let cutoff = 1_000;
    assert!(should_kick(&member(1, false, vec![ROLE], Some(999)), ROLE, cutoff));
    assert!(!should_kick(&member(1, false, vec![ROLE], Some(1_000)), ROLE, cutoff));
    assert!(!should_kick(&member(1, false, vec![], Some(5)), ROLE, cutoff));
    assert!(!should_kick(&member(1, false, vec![ROLE], None), ROLE, cutoff));
    assert!(!should_kick(&member(1, true, vec![ROLE], Some(5)), ROLE, cutoff));
}

#[test]
fn farewell_text() {
    assert_eq!(
        farewell_message("Polyam"),
        "You were kicked from Polyam because you did not submit an introduction. \
        You can join again using an invite link."
    );
    assert_eq!(KICK_REASON, "Onboarding not completed");
}

fn msg(message_id: u64, author_id: u64, has_embeds: bool, first_mention: Option<u64>) -> ChannelMessage {
    ChannelMessage { channel_id: 80, message_id, author_id, has_embeds, first_mention }
}

#[test]
fn sync_adds_missing_and_deletes_stale() {
    let bot = 99;
    let found = vec![
        msg(100, bot, true, Some(1)),
        msg(101, bot, true, Some(2)),
        msg(102, 5, true, Some(3)),
        msg(103, bot, false, Some(4)),
        msg(104, bot, true, None),
    ];
    let cached = vec![
        (1, MessageLocation { channel_id: 80, message_id: 100 }),
        (6, MessageLocation { channel_id: 80, message_id: 200 }),
        (3, MessageLocation { channel_id: 80, message_id: 102 }),
    ];
    let plan = plan_sync(42, bot, &found, &cached);
    assert_eq!(
        plan.to_add,
        vec![CacheRow {
            guild_id: 42,
            user_id: 2,
            location: MessageLocation { channel_id: 80, message_id: 101 }
        }]
    );
    assert_eq!(plan.to_delete, vec![6, 3]);
}

#[test]
fn sync_of_matching_state_changes_nothing() {
    let found = vec![msg(100, 99, true, Some(1))];
    let cached = vec![(1, MessageLocation { channel_id: 80, message_id: 100 })];
    let plan = plan_sync(42, 99, &found, &cached);
    assert!(plan.to_add.is_empty());
    assert!(plan.to_delete.is_empty());
}

#[test]
fn sync_report_text() {
    assert_eq!(sync_report(3, 0), "Intros: added 3, deleted 0");
    assert_eq!(sync_report(12, 105), "Intros: added 12, deleted 105");
}
