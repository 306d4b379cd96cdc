use polly::cache::{MessageCache, MessageLocation};
use polly::config::GuildConfig;
use polly::onboarding::{
    check_welcome_channel, intro_lookup, CachedRead, member_action, publish_step, route_interaction,
    submit_flow, welcome_deletion_proceeds, CallOutcome, InteractionKind, MemberAction,
    MemberEvent, OnboardingError, PublishStep, SubmitFlow,
};

fn guild() -> GuildConfig {
    GuildConfig { quarantine_role: 7, quarantine_channel: 70, intros_channel: 80 }
}

#[test]
fn join_without_intro_quarantines() {
    let a = member_action(MemberEvent::Joined { is_bot: false, has_intro: false });
    assert_eq!(a, MemberAction::Quarantine);
}

#[test]
fn rejoin_with_intro_is_onboarded() {
    let a = member_action(MemberEvent::Joined { is_bot: false, has_intro: true });
    assert_eq!(a, MemberAction::Nothing);
}

#[test]
fn bots_are_ignored() {
    assert_eq!(member_action(MemberEvent::Joined { is_bot: true, has_intro: false }), MemberAction::Nothing);
    assert_eq!(member_action(MemberEvent::Left { is_bot: true }), MemberAction::Nothing);
    let intro = Some(MessageLocation { channel_id: 80, message_id: 1 });
    assert_eq!(member_action(MemberEvent::Updated { is_bot: true, intro }), MemberAction::Nothing);
}

#[test]
fn leaving_deletes_welcome() {
    assert_eq!(member_action(MemberEvent::Left { is_bot: false }), MemberAction::DeleteWelcome);
}

#[test]
fn profile_update_refreshes_existing_intro() {
    let loc = MessageLocation { channel_id: 80, message_id: 5 };
    let a = member_action(MemberEvent::Updated { is_bot: false, intro: Some(loc) });
    assert_eq!(a, MemberAction::RefreshIntro(loc));
    let b = member_action(MemberEvent::Updated { is_bot: false, intro: None });
    assert_eq!(b, MemberAction::Nothing);
}

#[test]
fn interactions_are_routed_by_custom_id() {
    assert_eq!(route_interaction("onboarding_intro"), Ok(InteractionKind::Intro));
    assert_eq!(route_interaction("something_else"), Err(OnboardingError::UnhandledInteraction));
}

#[test]
fn welcome_channel_checks() {
    assert_eq!(check_welcome_channel(1, 1, true), Ok(()));
    assert_eq!(check_welcome_channel(1, 1, false), Err(OnboardingError::MissingViewChannel));
    assert_eq!(check_welcome_channel(1, 2, true), Err(OnboardingError::ChannelOutsideGuild));
}

#[test]
fn submit_flow_by_origin() {
    assert_eq!(submit_flow(Some(70), &guild()), SubmitFlow::FromQuarantine);
    assert_eq!(submit_flow(Some(71), &guild()), SubmitFlow::Edit);
    assert_eq!(submit_flow(None, &guild()), SubmitFlow::Edit);
}

fn publish(cache: &mut MessageCache, sent: &mut Vec<(u64, String)>, content: &str, fresh: u64) {
    match publish_step(cache.get(1, 2), &guild()) {
        PublishStep::Send { channel_id } => {
            sent.push((fresh, content.to_string()));
            cache.set(1, 2, MessageLocation { channel_id, message_id: fresh }).unwrap();
        }
        PublishStep::Edit(loc) => {
            let m = sent.iter_mut().find(|m| m.0 == loc.message_id).unwrap();
            m.1 = content.to_string();
        }
    }
}

#[test]
fn publish_sends_then_edits() {
    let mut cache = MessageCache::new();
    let mut sent: Vec<(u64, String)> = Vec::new();
    publish(&mut cache, &mut sent, "same", 500);
    publish(&mut cache, &mut sent, "same", 501);
    assert_eq!(sent, vec![(500, "same".to_string())]);
    assert_eq!(cache.get(1, 2), Some(MessageLocation { channel_id: 80, message_id: 500 }));
    publish(&mut cache, &mut sent, "newer", 502);
    assert_eq!(sent, vec![(500, "newer".to_string())]);
}

#[test]
fn publish_step_uses_cached_location() {
    let loc = MessageLocation { channel_id: 81, message_id: 9 };
    assert_eq!(publish_step(Some(loc), &guild()), PublishStep::Edit(loc));
    assert_eq!(publish_step(None, &guild()), PublishStep::Send { channel_id: 80 });
}

#[test]
fn not_found_is_tolerated() {
    assert!(welcome_deletion_proceeds(CallOutcome::Done));
    assert!(welcome_deletion_proceeds(CallOutcome::NotFound));
    assert!(!welcome_deletion_proceeds(CallOutcome::Failed));
    assert_eq!(intro_lookup(CallOutcome::Done), CachedRead::UseMessage);
    assert_eq!(intro_lookup(CallOutcome::NotFound), CachedRead::DeleteStaleRow);
    assert_eq!(intro_lookup(CallOutcome::Failed), CachedRead::Fail);
}
