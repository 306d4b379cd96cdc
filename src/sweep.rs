//! Reconciliation sweeps: re-quarantining members who slipped through,
//! removing members who never introduced themselves, and bringing the
//! introduction cache in line with the introductions channel.

use vstd::prelude::*;
use crate::cache::{CacheRow, MessageLocation};
use crate::expiry::{saturating_before, DAY_MS};
use crate::text::{push_decimal, push_text};

verus! {

/// A guild member as a sweep sees them.
#[derive(Clone, Debug)]
pub struct MemberSnapshot {
    pub user_id: u64,
    pub is_bot: bool,
    pub roles: Vec<u64>,
    /// When the member joined, in milliseconds since the Unix epoch.
    pub joined_at: Option<i64>,
}

/// Whether a role list holds `role`.
pub fn has_role(roles: &[u64], role: u64) -> (r: bool)
    ensures
        r == roles@.contains(role),
{
    let mut i: usize = 0;
    while i < roles.len()
        invariant
            i <= roles@.len(),
            forall|j: int| 0 <= j < i ==> roles@[j] != role,
        decreases roles@.len() - i,
    {
        if roles[i] == role {
            return true;
        }
        i = i + 1;
    }
    false
}

/// A member whose quarantine has drifted: not a bot, no introduction on
/// record, and not holding the quarantine role.
pub open spec fn drifted(is_bot: bool, has_intro: bool, quarantined: bool) -> bool {
    !is_bot && !has_intro && !quarantined
}

/// Whether the drift sweep quarantines this member again.
pub fn needs_requarantine(member: &MemberSnapshot, has_intro: bool, quarantine_role: u64) -> (r: bool)
    ensures
        r == drifted(member.is_bot, has_intro, member.roles@.contains(quarantine_role)),
{
    !member.is_bot && !has_intro && !has_role(member.roles.as_slice(), quarantine_role)
}

/// What the drift sweep needs to know of a member.
pub struct MemberState {
    pub is_bot: bool,
    pub has_intro: bool,
    pub quarantined: bool,
}

pub open spec fn needs_quarantine(m: MemberState) -> bool {
    drifted(m.is_bot, m.has_intro, m.quarantined)
}

/// The members after a drift sweep: each one that drifted now holds the role.
pub open spec fn after_drift_sweep(members: Seq<MemberState>) -> Seq<MemberState> {
    members.map_values(
        |m: MemberState|
            if needs_quarantine(m) {
                MemberState { is_bot: m.is_bot, has_intro: m.has_intro, quarantined: true }
            } else {
                m
            },
    )
}

/// The number of role additions a drift sweep makes.
pub open spec fn role_adds(members: Seq<MemberState>) -> nat {
    members.filter(|m: MemberState| needs_quarantine(m)).len()
}

/// After a drift sweep every member who is not a bot and has no
/// introduction on record holds the quarantine role, and a second sweep
/// right after adds no role.
pub proof fn lemma_drift_sweep_settles(members: Seq<MemberState>)
    ensures
        forall|i: int|
            0 <= i < members.len() && !members[i].is_bot && !members[i].has_intro
                ==> #[trigger] after_drift_sweep(members)[i].quarantined,
        role_adds(after_drift_sweep(members)) == 0,
{
    let after = after_drift_sweep(members);
    let p = |m: MemberState| needs_quarantine(m);
    assert forall|i: int| 0 <= i < after.len() implies !p(#[trigger] after[i]) by {}
    lemma_filter_none(after, p);
}

proof fn lemma_filter_none(s: Seq<MemberState>, p: spec_fn(MemberState) -> bool)
    requires
        forall|i: int| 0 <= i < s.len() ==> !p(#[trigger] s[i]),
    ensures
        s.filter(p).len() == 0,
    decreases s.len(),
{
    reveal_with_fuel(Seq::filter, 1);
    if s.len() > 0 {
        lemma_filter_none(s.drop_last(), p);
    }
}

/// Members still quarantined this long after joining are removed.
pub const INACTIVE_DAYS: i64 = 7;

/// The reason that the removal shows in the audit log.
pub const KICK_REASON: &'static str = "Onboarding not completed";

/// The instant before which a quarantined member counts as inactive.
pub fn inactivity_cutoff(now: i64) -> (r: i64)
    ensures
        r == saturating_before(now, INACTIVE_DAYS * DAY_MS),
{
    crate::expiry::expiry_cutoff(now, (INACTIVE_DAYS * DAY_MS) as u64)
}

/// Whether the inactivity sweep removes this member: not a bot, holding the
/// quarantine role, and joined before `cutoff`.
pub fn should_kick(member: &MemberSnapshot, quarantine_role: u64, cutoff: i64) -> (r: bool)
    ensures
        r == (!member.is_bot && member.roles@.contains(quarantine_role) && match member.joined_at {
            Some(t) => t < cutoff,
            None => false,
        }),
{
    if member.is_bot || !has_role(member.roles.as_slice(), quarantine_role) {
        return false;
    }
    match member.joined_at {
        Some(t) => t < cutoff,
        None => false,
    }
}

/// The direct message sent to a member before they are removed.
pub fn farewell_message(guild_name: &str) -> (r: String)
    ensures
        r@ == "You were kicked from "@ + guild_name@
            + " because you did not submit an introduction. You can join again using an invite link."@,
{
    let mut s = String::new();
    push_text(&mut s, "You were kicked from ");
    push_text(&mut s, guild_name);
    push_text(
        &mut s,
        " because you did not submit an introduction. You can join again using an invite link.",
    );
    assert(s@ =~= "You were kicked from "@ + guild_name@
        + " because you did not submit an introduction. You can join again using an invite link."@);
    s
}

/// A message of the introductions channel, as the sync sweep sees it.
#[derive(Clone, Copy, Debug, PartialEq, Eq, Structural)]
pub struct ChannelMessage {
    pub channel_id: u64,
    pub message_id: u64,
    pub author_id: u64,
    pub has_embeds: bool,
    /// The first member the message mentions.
    pub first_mention: Option<u64>,
}

/// An introduction published by the bot: written by it, with an embed, and
/// mentioning the member it introduces.
pub open spec fn is_intro_message(m: ChannelMessage, bot_id: u64) -> bool {
    m.author_id == bot_id && m.has_embeds && m.first_mention is Some
}

pub open spec fn cached_ids(rows: Seq<(u64, MessageLocation)>) -> Seq<u64> {
    rows.map_values(|r: (u64, MessageLocation)| r.1.message_id)
}

pub open spec fn intro_ids(found: Seq<ChannelMessage>, bot_id: u64) -> Seq<u64> {
    found.filter(|m: ChannelMessage| is_intro_message(m, bot_id)).map_values(
        |m: ChannelMessage| m.message_id,
    )
}

/// The rows to add: one for each introduction found that the cache lacks.
pub open spec fn rows_to_add(
    guild_id: u64,
    bot_id: u64,
    found: Seq<ChannelMessage>,
    cached: Seq<(u64, MessageLocation)>,
) -> Seq<CacheRow>
    decreases found.len(),
{
    if found.len() == 0 {
        seq![]
    } else {
        let prev = rows_to_add(guild_id, bot_id, found.drop_last(), cached);
        let m = found.last();
        if is_intro_message(m, bot_id) && !cached_ids(cached).contains(m.message_id) {
            prev.push(
                CacheRow {
                    guild_id,
                    user_id: m.first_mention->0,
                    location: MessageLocation { channel_id: m.channel_id, message_id: m.message_id },
                },
            )
        } else {
            prev
        }
    }
}

/// The members whose rows go: their cached message is no introduction found.
pub open spec fn users_to_delete(
    bot_id: u64,
    found: Seq<ChannelMessage>,
    cached: Seq<(u64, MessageLocation)>,
) -> Seq<u64>
    decreases cached.len(),
{
    if cached.len() == 0 {
        seq![]
    } else {
        let prev = users_to_delete(bot_id, found, cached.drop_last());
        let r = cached.last();
        if !intro_ids(found, bot_id).contains(r.1.message_id) {
            prev.push(r.0)
        } else {
            prev
        }
    }
}

/// The changes that bring a guild's introduction cache in line with the
/// introductions channel.
pub struct SyncPlan {
    pub to_add: Vec<CacheRow>,
    /// Members whose rows are deleted.
    pub to_delete: Vec<u64>,
}

fn is_intro(m: &ChannelMessage, bot_id: u64) -> (r: bool)
    ensures
        r == is_intro_message(*m, bot_id),
{
    m.author_id == bot_id && m.has_embeds && m.first_mention.is_some()
}

fn is_cached(cached: &[(u64, MessageLocation)], message_id: u64) -> (r: bool)
    ensures
        r == cached_ids(cached@).contains(message_id),
{
    let mut i: usize = 0;
    while i < cached.len()
        invariant
            i <= cached@.len(),
            forall|j: int| 0 <= j < i ==> cached@[j].1.message_id != message_id,
        decreases cached@.len() - i,
    {
        if cached[i].1.message_id == message_id {
            assert(cached_ids(cached@)[i as int] == message_id);
            return true;
        }
        i = i + 1;
    }
    assert forall|j: int| 0 <= j < cached_ids(cached@).len() implies cached_ids(cached@)[j] != message_id by {
        assert(cached@[j].1.message_id != message_id);
    }
    false
}

fn is_found_intro(found: &[ChannelMessage], bot_id: u64, message_id: u64) -> (r: bool)
    ensures
        r == intro_ids(found@, bot_id).contains(message_id),
{
    let ghost p = |m: ChannelMessage| is_intro_message(m, bot_id);
    let mut i: usize = 0;
    while i < found.len()
        invariant
            i <= found@.len(),
            p == (|m: ChannelMessage| is_intro_message(m, bot_id)),
            !intro_ids(found@.subrange(0, i as int), bot_id).contains(message_id),
        decreases found@.len() - i,
    {
        let ghost prev = found@.subrange(0, i as int);
        let ghost next = found@.subrange(0, i + 1);
        assert(next.drop_last() =~= prev);
        assert(next.last() == found@[i as int]);
        proof {
            reveal_with_fuel(Seq::filter, 1);
        }
        assert(next.filter(p) == (if p(found@[i as int]) {
            prev.filter(p).push(found@[i as int])
        } else {
            prev.filter(p)
        }));
        if is_intro(&found[i], bot_id) && found[i].message_id == message_id {
            assert(next.filter(p).last() == found@[i as int]);
            assert(intro_ids(next, bot_id).last() == message_id);
            assert(intro_ids(found@, bot_id).contains(message_id)) by {
                lemma_intro_ids_prefix(found@, bot_id, i + 1);
            }
            return true;
        }
        assert(intro_ids(next, bot_id) =~= (if p(found@[i as int]) {
            intro_ids(prev, bot_id).push(found@[i as int].message_id)
        } else {
            intro_ids(prev, bot_id)
        }));
        i = i + 1;
    }
    assert(found@.subrange(0, found@.len() as int) =~= found@);
    false
}

proof fn lemma_intro_ids_prefix(found: Seq<ChannelMessage>, bot_id: u64, n: int)
    requires
        0 <= n <= found.len(),
    ensures
        forall|id: u64| intro_ids(found.subrange(0, n), bot_id).contains(id) ==> intro_ids(found, bot_id).contains(id),
    decreases found.len() - n,
{
    if n < found.len() {
        let p = |m: ChannelMessage| is_intro_message(m, bot_id);
        let next = found.subrange(0, n + 1);
        assert(next.drop_last() =~= found.subrange(0, n));
        assert(next.last() == found[n]);
        reveal_with_fuel(Seq::filter, 1);
        assert(next.filter(p) == (if p(found[n]) {
            found.subrange(0, n).filter(p).push(found[n])
        } else {
            found.subrange(0, n).filter(p)
        }));
        assert forall|id: u64| intro_ids(found.subrange(0, n), bot_id).contains(id) implies intro_ids(next, bot_id).contains(id) by {
            let k = choose|k: int| 0 <= k < intro_ids(found.subrange(0, n), bot_id).len() && intro_ids(found.subrange(0, n), bot_id)[k] == id;
            assert(intro_ids(next, bot_id)[k] == id);
        }
        lemma_intro_ids_prefix(found, bot_id, n + 1);
    } else {
        assert(found.subrange(0, n) =~= found);
    }
}

/// Compares the introductions found in the channel with the guild's cached
/// rows: introductions that the cache lacks are added, under the member they
/// mention first; rows whose message is not among them are deleted.
pub fn plan_sync(
    guild_id: u64,
    bot_id: u64,
    found: &[ChannelMessage],
    cached: &[(u64, MessageLocation)],
) -> (r: SyncPlan)
    ensures
        r.to_add@ == rows_to_add(guild_id, bot_id, found@, cached@),
        r.to_delete@ == users_to_delete(bot_id, found@, cached@),
{
    let mut to_add: Vec<CacheRow> = Vec::new();
    let mut i: usize = 0;
    while i < found.len()
        invariant
            i <= found@.len(),
            to_add@ == rows_to_add(guild_id, bot_id, found@.subrange(0, i as int), cached@),
        decreases found@.len() - i,
    {
        let m = found[i];
        assert(found@.subrange(0, i + 1).drop_last() =~= found@.subrange(0, i as int));
        if is_intro(&m, bot_id) && !is_cached(cached, m.message_id) {
            match m.first_mention {
                Some(user_id) => {
                    to_add.push(
                        CacheRow {
                            guild_id,
                            user_id,
                            location: MessageLocation { channel_id: m.channel_id, message_id: m.message_id },
                        },
                    );
                },
                None => {},
            }
        }
        i = i + 1;
    }
    assert(found@.subrange(0, found@.len() as int) =~= found@);
    let mut to_delete: Vec<u64> = Vec::new();
    let mut j: usize = 0;
    while j < cached.len()
        invariant
            j <= cached@.len(),
            to_delete@ == users_to_delete(bot_id, found@, cached@.subrange(0, j as int)),
        decreases cached@.len() - j,
    {
        assert(cached@.subrange(0, j + 1).drop_last() =~= cached@.subrange(0, j as int));
        if !is_found_intro(found, bot_id, cached[j].1.message_id) {
            to_delete.push(cached[j].0);
        }
        j = j + 1;
    }
    assert(cached@.subrange(0, cached@.len() as int) =~= cached@);
    SyncPlan { to_add, to_delete }
}

/// The reply that reports a sync: "Intros: added N, deleted M".
pub fn sync_report(added: u64, deleted: u64) -> (r: String)
    ensures
        r@ == "Intros: added "@ + crate::text::decimal(added as nat) + ", deleted "@
            + crate::text::decimal(deleted as nat),
{
    let mut s = String::new();
    push_text(&mut s, "Intros: added ");
    push_decimal(&mut s, added);
    push_text(&mut s, ", deleted ");
    push_decimal(&mut s, deleted);
    assert(s@ =~= "Intros: added "@ + crate::text::decimal(added as nat) + ", deleted "@
        + crate::text::decimal(deleted as nat));
    s
}

} // verus!
