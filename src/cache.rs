//! The message cache: where the message that stands for a member's
//! onboarding state lives, keyed by guild and member, one table per kind.

use vstd::prelude::*;

verus! {

/// The kinds of message that the cache keeps track of.
#[derive(Clone, Copy, Debug, PartialEq, Eq, Structural)]
pub enum CacheKind {
    /// The welcome message posted in the quarantine channel.
    Welcome,
    /// The published introduction.
    Intro,
}

impl CacheKind {
    /// The database table that holds this kind's rows.
    pub fn table(&self) -> (r: &'static str)
        ensures
            *self == CacheKind::Welcome ==> r@ == "onboarding_welcome_messages"@,
            *self == CacheKind::Intro ==> r@ == "onboarding_intro_messages"@,
    {
        match self {
            CacheKind::Welcome => "onboarding_welcome_messages",
            CacheKind::Intro => "onboarding_intro_messages",
        }
    }
}

/// Where a message is: its channel and its id.
#[derive(Clone, Copy, Debug, PartialEq, Eq, Structural)]
pub struct MessageLocation {
    pub channel_id: u64,
    pub message_id: u64,
}

/// One row of a cache table.
#[derive(Clone, Copy, Debug, PartialEq, Eq, Structural)]
pub struct CacheRow {
    pub guild_id: u64,
    pub user_id: u64,
    pub location: MessageLocation,
}

/// Why a cache operation was refused.
#[derive(Clone, Copy, Debug, PartialEq, Eq, Structural)]
pub enum CacheError {
    /// A row for the key exists already; callers look before they insert.
    DuplicateKey,
    /// No row for the key exists.
    NotFound,
}

/// The cache as a map from `(guild, member)` to a message location.
pub type CacheMap = Map<(u64, u64), MessageLocation>;

/// Inserting a row: refused where the key is taken.
pub open spec fn set_spec(m: CacheMap, key: (u64, u64), loc: MessageLocation) -> (CacheMap, Result<(), CacheError>) {
    if m.contains_key(key) {
        (m, Err(CacheError::DuplicateKey))
    } else {
        (m.insert(key, loc), Ok(()))
    }
}

/// Deleting a row: refused where there is none.
pub open spec fn delete_spec(m: CacheMap, key: (u64, u64)) -> (CacheMap, Result<(), CacheError>) {
    if m.contains_key(key) {
        (m.remove(key), Ok(()))
    } else {
        (m, Err(CacheError::NotFound))
    }
}

/// The outcome of a delete statement that affected `rows_affected` rows.
pub fn deletion_outcome(rows_affected: u64) -> (r: Result<(), CacheError>)
    ensures
        r == (if rows_affected == 0 {
            Err(CacheError::NotFound)
        } else {
            Ok(())
        }),
{
    if rows_affected == 0 {
        Err(CacheError::NotFound)
    } else {
        Ok(())
    }
}

pub open spec fn key_of(row: CacheRow) -> (u64, u64) {
    (row.guild_id, row.user_id)
}

/// The map that a sequence of rows holds.
pub open spec fn rows_view(rows: Seq<CacheRow>) -> CacheMap {
    Map::new(
        |k: (u64, u64)| exists|i: int| 0 <= i < rows.len() && key_of(rows[i]) == k,
        |k: (u64, u64)| rows[choose|i: int| 0 <= i < rows.len() && key_of(rows[i]) == k].location,
    )
}

/// No two rows share a key.
pub open spec fn keys_unique(rows: Seq<CacheRow>) -> bool {
    forall|i: int, j: int|
        0 <= i < j < rows.len() ==> key_of(#[trigger] rows[i]) != key_of(#[trigger] rows[j])
}

proof fn lemma_row_in_view(rows: Seq<CacheRow>, i: int)
    requires
        keys_unique(rows),
        0 <= i < rows.len(),
    ensures
        rows_view(rows).contains_key(key_of(rows[i])),
        rows_view(rows)[key_of(rows[i])] == rows[i].location,
{
    let k = key_of(rows[i]);
    assert(rows_view(rows).contains_key(k));
    let j = choose|j: int| 0 <= j < rows.len() && key_of(rows[j]) == k;
    if i < j {
        assert(key_of(rows[i]) != key_of(rows[j]));
    } else if j < i {
        assert(key_of(rows[j]) != key_of(rows[i]));
    }
}

/// One kind's table held in memory: a model of the database table's contract
/// (one row per key, refused duplicate inserts and deletes of missing rows).
/// The bot itself keeps its rows in the database and does not use this type.
pub struct MessageCache {
    rows: Vec<CacheRow>,
}

impl View for MessageCache {
    type V = CacheMap;

    closed spec fn view(&self) -> CacheMap {
        rows_view(self.rows@)
    }
}

impl MessageCache {
    /// No two rows share a key.
    pub closed spec fn wf(&self) -> bool {
        keys_unique(self.rows@)
    }

    pub fn new() -> (r: MessageCache)
        ensures
            r.wf(),
            r@ == CacheMap::empty(),
    {
        let r = MessageCache { rows: Vec::new() };
        assert(r@ =~= CacheMap::empty());
        r
    }

    fn find(&self, guild_id: u64, user_id: u64) -> (r: Option<usize>)
        requires
            self.wf(),
        ensures
            match r {
                Some(i) => i < self.rows@.len() && key_of(self.rows@[i as int]) == (guild_id, user_id),
                None => !self@.contains_key((guild_id, user_id)),
            },
    {
        let mut i: usize = 0;
        while i < self.rows.len()
            invariant
                i <= self.rows@.len(),
                forall|j: int| 0 <= j < i ==> key_of(#[trigger] self.rows@[j]) != (guild_id, user_id),
            decreases self.rows@.len() - i,
        {
            if self.rows[i].guild_id == guild_id && self.rows[i].user_id == user_id {
                return Some(i);
            }
            i = i + 1;
        }
        None
    }

    /// The location cached for a member, if any.
    pub fn get(&self, guild_id: u64, user_id: u64) -> (r: Option<MessageLocation>)
        requires
            self.wf(),
        ensures
            r == (if self@.contains_key((guild_id, user_id)) {
                Some(self@[(guild_id, user_id)])
            } else {
                None
            }),
    {
        match self.find(guild_id, user_id) {
            Some(i) => {
                proof {
                    lemma_row_in_view(self.rows@, i as int);
                }
                Some(self.rows[i].location)
            },
            None => None,
        }
    }

    /// Every `(member, location)` cached for a guild, each once.
    pub fn get_all(&self, guild_id: u64) -> (r: Vec<(u64, MessageLocation)>)
        requires
            self.wf(),
        ensures
            forall|u: u64, loc: MessageLocation|
                r@.contains((u, loc)) <==> (self@.contains_key((guild_id, u)) && self@[(guild_id, u)]
                    == loc),
            forall|i: int, j: int| 0 <= i < j < r@.len() ==> r@[i].0 != r@[j].0,
    {
        let mut out: Vec<(u64, MessageLocation)> = Vec::new();
        let mut i: usize = 0;
        while i < self.rows.len()
            invariant
                self.wf(),
                i <= self.rows@.len(),
                forall|u: u64, loc: MessageLocation|
                    out@.contains((u, loc)) <==> exists|j: int|
                        0 <= j < i && self.rows@[j] == (CacheRow { guild_id, user_id: u, location: loc }),
                forall|a: int, b: int| 0 <= a < b < out@.len() ==> out@[a].0 != out@[b].0,
                forall|a: int| 0 <= a < out@.len() ==> exists|j: int|
                    0 <= j < i && key_of(self.rows@[j]) == (guild_id, (#[trigger] out@[a]).0),
            decreases self.rows@.len() - i,
        {
            let row = self.rows[i];
            if row.guild_id == guild_id {
                let ghost prev = out@;
                assert forall|a: int| 0 <= a < prev.len() implies prev[a].0 != row.user_id by {
                    let j = choose|j: int| 0 <= j < i && key_of(self.rows@[j]) == (guild_id, prev[a].0);
                    assert(key_of(self.rows@[j]) != key_of(self.rows@[i as int]));
                }
                out.push((row.user_id, row.location));
                assert forall|u: u64, loc: MessageLocation|
                    out@.contains((u, loc)) <==> exists|j: int|
                        0 <= j < i + 1 && self.rows@[j] == (CacheRow { guild_id, user_id: u, location: loc }) by {
                    if out@.contains((u, loc)) && (u, loc) != (row.user_id, row.location) {
                        let a = choose|a: int| 0 <= a < out@.len() && out@[a] == (u, loc);
                        assert(prev[a] == (u, loc));
                    }
                    if exists|j: int|
                        0 <= j < i + 1 && self.rows@[j] == (CacheRow { guild_id, user_id: u, location: loc }) {
                        let j = choose|j: int|
                            0 <= j < i + 1 && self.rows@[j] == (CacheRow { guild_id, user_id: u, location: loc });
                        if j < i {
                            assert(prev.contains((u, loc)));
                            let a = choose|a: int| 0 <= a < prev.len() && prev[a] == (u, loc);
                            assert(out@[a] == (u, loc));
                        } else {
                            assert(out@[prev.len() as int] == (u, loc));
                        }
                    }
                }
                assert forall|a: int| 0 <= a < out@.len() implies exists|j: int|
                    0 <= j < i + 1 && key_of(self.rows@[j]) == (guild_id, (#[trigger] out@[a]).0) by {
                    if a < prev.len() {
                        let j = choose|j: int| 0 <= j < i && key_of(self.rows@[j]) == (guild_id, prev[a].0);
                        assert(key_of(self.rows@[j]) == (guild_id, out@[a].0));
                    } else {
                        assert(key_of(self.rows@[i as int]) == (guild_id, out@[a].0));
                    }
                }
            }
            i = i + 1;
        }
        assert forall|u: u64, loc: MessageLocation|
            out@.contains((u, loc)) <==> (self@.contains_key((guild_id, u)) && self@[(guild_id, u)] == loc) by {
            if out@.contains((u, loc)) {
                let j = choose|j: int|
                    0 <= j < self.rows@.len() && self.rows@[j] == (CacheRow { guild_id, user_id: u, location: loc });
                lemma_row_in_view(self.rows@, j);
            }
            if self@.contains_key((guild_id, u)) && self@[(guild_id, u)] == loc {
                let j = choose|j: int| 0 <= j < self.rows@.len() && key_of(self.rows@[j]) == (guild_id, u);
                lemma_row_in_view(self.rows@, j);
                assert(self.rows@[j] == (CacheRow { guild_id, user_id: u, location: loc }));
            }
        }
        out
    }

    /// Records where a member's message is; refused where a row exists.
    pub fn set(&mut self, guild_id: u64, user_id: u64, location: MessageLocation) -> (r: Result<(), CacheError>)
        requires
            old(self).wf(),
        ensures
            final(self).wf(),
            (final(self)@, r) == set_spec(old(self)@, (guild_id, user_id), location),
    {
        match self.find(guild_id, user_id) {
            Some(i) => {
                proof {
                    lemma_row_in_view(self.rows@, i as int);
                }
                Err(CacheError::DuplicateKey)
            },
            None => {
                let ghost before = self@;
                let ghost old_rows = self.rows@;
                let row = CacheRow { guild_id, user_id, location };
                self.rows.push(row);
                let ghost n = self.rows@.len() - 1;
                assert forall|i: int, j: int|
                    0 <= i < j < self.rows@.len() implies key_of(#[trigger] self.rows@[i]) != key_of(
                    #[trigger] self.rows@[j],
                ) by {
                    if j == n && key_of(self.rows@[i]) == (guild_id, user_id) {
                        assert(before.contains_key((guild_id, user_id)));
                    }
                }
                assert forall|k: (u64, u64)| #[trigger] self@.contains_key(k) implies before.insert(
                    (guild_id, user_id),
                    location,
                ).contains_key(k) && self@[k] == before.insert((guild_id, user_id), location)[k] by {
                    let i = choose|i: int| 0 <= i < self.rows@.len() && key_of(self.rows@[i]) == k;
                    lemma_row_in_view(self.rows@, i);
                    if i < n {
                        assert(before.contains_key(k));
                    }
                }
                assert forall|k: (u64, u64)| #[trigger] before.insert((guild_id, user_id), location).contains_key(k)
                    implies self@.contains_key(k) by {
                    if k == (guild_id, user_id) {
                        assert(key_of(self.rows@[n]) == k);
                    } else {
                        let i = choose|i: int| 0 <= i < old_rows.len() && key_of(old_rows[i]) == k;
                        assert(self.rows@[i] == old_rows[i]);
                    }
                }
                assert(self@ =~= before.insert((guild_id, user_id), location));
                Ok(())
            },
        }
    }

    /// Forgets a member's message; refused where no row exists.
    pub fn delete(&mut self, guild_id: u64, user_id: u64) -> (r: Result<(), CacheError>)
        requires
            old(self).wf(),
        ensures
            final(self).wf(),
            (final(self)@, r) == delete_spec(old(self)@, (guild_id, user_id)),
    {
        match self.find(guild_id, user_id) {
            None => Err(CacheError::NotFound),
            Some(i) => {
                let ghost before = self@;
                let ghost old_rows = self.rows@;
                self.rows.remove(i);
                assert(self.rows@ =~= old_rows.remove(i as int));
                assert forall|a: int, b: int|
                    0 <= a < b < self.rows@.len() implies key_of(#[trigger] self.rows@[a]) != key_of(
                    #[trigger] self.rows@[b],
                ) by {
                    let a0 = if a < i { a } else { a + 1 };
                    let b0 = if b < i { b } else { b + 1 };
                    assert(self.rows@[a] == old_rows[a0]);
                    assert(self.rows@[b] == old_rows[b0]);
                }
                let key = (guild_id, user_id);
                assert forall|k: (u64, u64)| #[trigger] self@.contains_key(k) implies before.remove(key).contains_key(k)
                    && self@[k] == before[k] by {
                    let a = choose|a: int| 0 <= a < self.rows@.len() && key_of(self.rows@[a]) == k;
                    lemma_row_in_view(self.rows@, a);
                    let a0 = if a < i { a } else { a + 1 };
                    assert(self.rows@[a] == old_rows[a0]);
                    lemma_row_in_view(old_rows, a0);
                    assert(key_of(old_rows[a0]) != key_of(old_rows[i as int]));
                }
                assert forall|k: (u64, u64)| #[trigger] before.remove(key).contains_key(k) implies self@.contains_key(k) by {
                    let a0 = choose|a: int| 0 <= a < old_rows.len() && key_of(old_rows[a]) == k;
                    assert(a0 != i);
                    let a = if a0 < i { a0 } else { a0 - 1 };
                    assert(self.rows@[a] == old_rows[a0]);
                }
                assert(self@ =~= before.remove(key));
                Ok(())
            },
        }
    }
}

/// Deleting is effective exactly once: where no row exists for a key the
/// delete fails with `NotFound` and changes nothing, and deleting an existing
/// row succeeds once and then fails the same way.
pub proof fn lemma_delete_effective_once(m: CacheMap, key: (u64, u64))
    ensures
        !m.contains_key(key) ==> delete_spec(m, key) == (m, Err::<(), CacheError>(CacheError::NotFound)),
        m.contains_key(key) ==> delete_spec(m, key).1 == Ok::<(), CacheError>(()) && delete_spec(
            delete_spec(m, key).0,
            key,
        ) == (delete_spec(m, key).0, Err::<(), CacheError>(CacheError::NotFound)),
{
}

} // verus!
