//! The onboarding state machine: what each platform event about a member
//! leads to. A member is quarantined while they hold the quarantine role;
//! submitting an introduction releases them.

use vstd::prelude::*;
use crate::cache::{CacheMap, MessageLocation};
use crate::config::GuildConfig;
use crate::intro::MODAL_ID;
use crate::text::same_text;

verus! {

/// Why an onboarding step could not go ahead.
#[derive(Clone, Copy, Debug, PartialEq, Eq, Structural)]
pub enum OnboardingError {
    /// The bot's view of the quarantine channel lacks `VIEW_CHANNEL` for the
    /// member: the welcome message would be invisible to them.
    MissingViewChannel,
    /// The configured quarantine channel belongs to another guild.
    ChannelOutsideGuild,
    /// An interaction carried a custom id that nothing handles.
    UnhandledInteraction,
}

/// The interactions that onboarding handles.
#[derive(Clone, Copy, Debug, PartialEq, Eq, Structural)]
pub enum InteractionKind {
    /// The button, or the submitted form, of the introduction.
    Intro,
}

/// Which handler an interaction with this custom id goes to.
pub fn route_interaction(custom_id: &str) -> (r: Result<InteractionKind, OnboardingError>)
    ensures
        custom_id@ == MODAL_ID@ ==> r == Ok::<InteractionKind, OnboardingError>(InteractionKind::Intro),
        custom_id@ != MODAL_ID@ ==> r == Err::<InteractionKind, OnboardingError>(
            OnboardingError::UnhandledInteraction,
        ),
{
    if same_text(custom_id, MODAL_ID) {
        Ok(InteractionKind::Intro)
    } else {
        Err(OnboardingError::UnhandledInteraction)
    }
}

/// A platform event about a member, with what is known of their state.
#[derive(Clone, Copy, Debug, PartialEq, Eq, Structural)]
pub enum MemberEvent {
    /// The member joined; `has_intro` tells whether an introduction of theirs
    /// is on record.
    Joined { is_bot: bool, has_intro: bool },
    /// The member left.
    Left { is_bot: bool },
    /// The member's profile changed; `intro` is where their published
    /// introduction is, if anywhere.
    Updated { is_bot: bool, intro: Option<MessageLocation> },
}

/// What the bot does about a member event.
#[derive(Clone, Copy, Debug, PartialEq, Eq, Structural)]
pub enum MemberAction {
    Nothing,
    /// Give the quarantine role and post a welcome message.
    Quarantine,
    /// Delete the welcome message and its cache row, if there are any.
    DeleteWelcome,
    /// Edit the published introduction so that it shows the current profile.
    RefreshIntro(MessageLocation),
}

pub open spec fn member_action_spec(e: MemberEvent) -> MemberAction {
    match e {
        MemberEvent::Joined { is_bot, has_intro } => if !is_bot && !has_intro {
            MemberAction::Quarantine
        } else {
            MemberAction::Nothing
        },
        MemberEvent::Left { is_bot } => if is_bot {
            MemberAction::Nothing
        } else {
            MemberAction::DeleteWelcome
        },
        MemberEvent::Updated { is_bot, intro } => if is_bot {
            MemberAction::Nothing
        } else {
            match intro {
                Some(loc) => MemberAction::RefreshIntro(loc),
                None => MemberAction::Nothing,
            }
        },
    }
}

/// Bots are left alone. A member who joins without an introduction on record
/// is quarantined; one who rejoins with one is not. A member who leaves loses
/// their welcome message. A profile change refreshes a published introduction.
pub fn member_action(e: MemberEvent) -> (r: MemberAction)
    ensures
        r == member_action_spec(e),
{
    match e {
        MemberEvent::Joined { is_bot, has_intro } => if !is_bot && !has_intro {
            MemberAction::Quarantine
        } else {
            MemberAction::Nothing
        },
        MemberEvent::Left { is_bot } => if is_bot {
            MemberAction::Nothing
        } else {
            MemberAction::DeleteWelcome
        },
        MemberEvent::Updated { is_bot, intro } => if is_bot {
            MemberAction::Nothing
        } else {
            match intro {
                Some(loc) => MemberAction::RefreshIntro(loc),
                None => MemberAction::Nothing,
            }
        },
    }
}

/// Checks that a welcome message may be posted: the quarantine channel lies
/// in the member's guild and the member can see it.
pub fn check_welcome_channel(channel_guild: u64, member_guild: u64, member_can_view: bool) -> (r:
    Result<(), OnboardingError>)
    ensures
        channel_guild != member_guild ==> r == Err::<(), OnboardingError>(
            OnboardingError::ChannelOutsideGuild,
        ),
        channel_guild == member_guild && !member_can_view ==> r == Err::<(), OnboardingError>(
            OnboardingError::MissingViewChannel,
        ),
        channel_guild == member_guild && member_can_view ==> r is Ok,
{
    if channel_guild != member_guild {
        Err(OnboardingError::ChannelOutsideGuild)
    } else if !member_can_view {
        Err(OnboardingError::MissingViewChannel)
    } else {
        Ok(())
    }
}

/// How a submitted introduction is handled.
#[derive(Clone, Copy, Debug, PartialEq, Eq, Structural)]
pub enum SubmitFlow {
    /// Sent from the quarantine channel: acknowledge privately at once, then
    /// publish, then lift the quarantine.
    FromQuarantine,
    /// Sent through the edit command: publish, then reply with a link to the
    /// introduction. No role changes.
    Edit,
}

/// The flow for a form submitted from a message in `message_channel` (none
/// where the form came from a command).
pub fn submit_flow(message_channel: Option<u64>, guild: &GuildConfig) -> (r: SubmitFlow)
    ensures
        r == (if message_channel == Some(guild.quarantine_channel) {
            SubmitFlow::FromQuarantine
        } else {
            SubmitFlow::Edit
        }),
{
    match message_channel {
        Some(c) => if c == guild.quarantine_channel {
            SubmitFlow::FromQuarantine
        } else {
            SubmitFlow::Edit
        },
        None => SubmitFlow::Edit,
    }
}

/// How an introduction is published.
#[derive(Clone, Copy, Debug, PartialEq, Eq, Structural)]
pub enum PublishStep {
    /// Edit the message that is already there; the cache stays as it is.
    Edit(MessageLocation),
    /// Send a new message to the channel, then record it in the cache.
    Send { channel_id: u64 },
}

pub open spec fn publish_step_spec(cached: Option<MessageLocation>, intros_channel: u64) -> PublishStep {
    match cached {
        Some(loc) => PublishStep::Edit(loc),
        None => PublishStep::Send { channel_id: intros_channel },
    }
}

/// Publish or update: edit the cached introduction message where there is
/// one, else send one to the introductions channel.
pub fn publish_step(cached: Option<MessageLocation>, guild: &GuildConfig) -> (r: PublishStep)
    ensures
        r == publish_step_spec(cached, guild.intros_channel),
{
    match cached {
        Some(loc) => PublishStep::Edit(loc),
        None => PublishStep::Send { channel_id: guild.intros_channel },
    }
}

/// The outcome of a platform call on a message.
#[derive(Clone, Copy, Debug, PartialEq, Eq, Structural)]
pub enum CallOutcome {
    Done,
    /// The platform answered that the message does not exist.
    NotFound,
    /// Any other failure.
    Failed,
}

/// Whether deleting a welcome message goes on to delete its cache row: yes
/// when the message was deleted or was gone already.
pub fn welcome_deletion_proceeds(outcome: CallOutcome) -> (r: bool)
    ensures
        r == (outcome != CallOutcome::Failed),
{
    match outcome {
        CallOutcome::Failed => false,
        _ => true,
    }
}

/// What to do after reading the message that a cache row points at.
#[derive(Clone, Copy, Debug, PartialEq, Eq, Structural)]
pub enum CachedRead {
    /// The message is there: use it.
    UseMessage,
    /// The message is gone: the row is stale. Delete the row and go on as if
    /// there had been none.
    DeleteStaleRow,
    /// Report the failure; the row stays.
    Fail,
}

/// Reading a cached introduction message: a message that is gone means no
/// introduction on file and a stale row to delete; any other failure is
/// reported.
pub fn intro_lookup(outcome: CallOutcome) -> (r: CachedRead)
    ensures
        outcome == CallOutcome::Done ==> r == CachedRead::UseMessage,
        outcome == CallOutcome::NotFound ==> r == CachedRead::DeleteStaleRow,
        outcome == CallOutcome::Failed ==> r == CachedRead::Fail,
{
    match outcome {
        CallOutcome::Done => CachedRead::UseMessage,
        CallOutcome::NotFound => CachedRead::DeleteStaleRow,
        CallOutcome::Failed => CachedRead::Fail,
    }
}

/// The introductions channel as the platform holds it, and the cache of
/// where each member's introduction is.
pub struct IntroBoard {
    /// Message id to the member it introduces and the text it shows.
    pub messages: Map<u64, (u64, Seq<char>)>,
    pub cache: CacheMap,
}

/// The effect of publishing `content` for `user` of `guild`; `fresh` is the
/// id that the platform gives a newly sent message.
pub open spec fn publish_effect(
    b: IntroBoard,
    guild: u64,
    user: u64,
    content: Seq<char>,
    intros_channel: u64,
    fresh: u64,
) -> IntroBoard {
    let cached = if b.cache.contains_key((guild, user)) {
        Some(b.cache[(guild, user)])
    } else {
        None
    };
    match publish_step_spec(cached, intros_channel) {
        PublishStep::Edit(loc) => IntroBoard {
            messages: b.messages.insert(loc.message_id, (user, content)),
            cache: b.cache,
        },
        PublishStep::Send { channel_id } => IntroBoard {
            messages: b.messages.insert(fresh, (user, content)),
            cache: b.cache.insert((guild, user), MessageLocation { channel_id, message_id: fresh }),
        },
    }
}

/// Publishing twice for a member with nothing on record sends one message
/// and then edits it: afterwards exactly one message introduces the member,
/// it shows the latest content, and the cache still points at the message
/// first sent.
pub proof fn lemma_publish_twice_keeps_one_message(
    b: IntroBoard,
    guild: u64,
    user: u64,
    first: Seq<char>,
    second: Seq<char>,
    intros_channel: u64,
    fresh1: u64,
    fresh2: u64,
)
    requires
        !b.cache.contains_key((guild, user)),
        forall|id: u64| #[trigger] b.messages.contains_key(id) ==> b.messages[id].0 != user,
    ensures
        ({
            let b1 = publish_effect(b, guild, user, first, intros_channel, fresh1);
            let b2 = publish_effect(b1, guild, user, second, intros_channel, fresh2);
            &&& b2.cache[(guild, user)] == (MessageLocation { channel_id: intros_channel, message_id: fresh1 })
            &&& b2.messages.contains_key(fresh1)
            &&& b2.messages[fresh1] == (user, second)
            &&& forall|id: u64| #[trigger] b2.messages.contains_key(id) && b2.messages[id].0 == user ==> id == fresh1
        }),
{
    let b1 = publish_effect(b, guild, user, first, intros_channel, fresh1);
    assert(b1.cache.contains_key((guild, user)));
    assert(b1.cache[(guild, user)].message_id == fresh1);
}

} // verus!
