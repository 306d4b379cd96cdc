//! Settings: per-guild roles and channels, and the channels whose messages
//! expire.

use std::collections::BTreeMap;
use vstd::prelude::*;
use vstd::string::StrSliceExecFns;

verus! {

broadcast use vstd::std_specs::btree::group_btree_axioms, vstd::laws_cmp::group_laws_cmp;

/// The roles and channels that onboarding uses in one guild.
#[derive(Clone, Copy, Debug, PartialEq, Eq, Structural)]
pub struct GuildConfig {
    pub quarantine_role: u64,
    pub quarantine_channel: u64,
    pub intros_channel: u64,
}

/// A channel whose messages are deleted once older than `after_ms`.
#[derive(Clone, Copy, Debug, PartialEq, Eq, Structural)]
pub struct AutoDeleteConfig {
    pub channel: u64,
    pub after_ms: u64,
}

/// Why settings were refused or a guild could not be served.
#[derive(Clone, Copy, Debug, PartialEq, Eq, Structural)]
pub enum ConfigError {
    /// No settings exist for the guild.
    NoGuildConfig,
    /// A guild key is not a decimal 64-bit id.
    InvalidSnowflake,
    /// A duration is not an ISO 8601 duration.
    InvalidDuration,
    /// A duration is longer than the clock can subtract.
    DurationTooLong,
}

pub struct Config {
    pub errors_channel: u64,
    pub guilds: BTreeMap<u64, GuildConfig>,
    pub auto_delete: Vec<AutoDeleteConfig>,
}

/// The connected guilds that have settings, in the order given, each with
/// its settings.
pub open spec fn configured(connected: Seq<u64>, guilds: Map<u64, GuildConfig>) -> Seq<(u64, GuildConfig)>
    decreases connected.len(),
{
    if connected.len() == 0 {
        seq![]
    } else {
        let prev = configured(connected.drop_last(), guilds);
        let id = connected.last();
        if guilds.contains_key(id) {
            prev.push((id, guilds[id]))
        } else {
            prev
        }
    }
}

impl Config {
    /// Settings with no guild and no expiring channel.
    pub fn new(errors_channel: u64) -> (r: Config)
        ensures
            r.errors_channel == errors_channel,
            r.guilds@ == Map::<u64, GuildConfig>::empty(),
            r.auto_delete@.len() == 0,
    {
        Config { errors_channel, guilds: BTreeMap::new(), auto_delete: Vec::new() }
    }

    /// The settings of a guild.
    pub fn guild(&self, id: u64) -> (r: Result<&GuildConfig, ConfigError>)
        ensures
            match r {
                Ok(g) => self.guilds@.contains_key(id) && *g == self.guilds@[id],
                Err(e) => !self.guilds@.contains_key(id) && e == ConfigError::NoGuildConfig,
            },
    {
        match self.guilds.get(&id) {
            Some(g) => Ok(g),
            None => Err(ConfigError::NoGuildConfig),
        }
    }

    /// Of the guilds the bot is connected to, those with settings.
    pub fn connected_configured_guilds(&self, connected: &[u64]) -> (r: Vec<(u64, GuildConfig)>)
        ensures
            r@ == configured(connected@, self.guilds@),
    {
        let mut out: Vec<(u64, GuildConfig)> = Vec::new();
        let mut i: usize = 0;
        while i < connected.len()
            invariant
                i <= connected@.len(),
                out@ == configured(connected@.subrange(0, i as int), self.guilds@),
            decreases connected@.len() - i,
        {
            let id = connected[i];
            assert(connected@.subrange(0, i + 1).drop_last() =~= connected@.subrange(0, i as int));
            match self.guilds.get(&id) {
                Some(g) => out.push((id, *g)),
                None => {},
            }
            i = i + 1;
        }
        assert(connected@.subrange(0, connected@.len() as int) =~= connected@);
        out
    }

    /// Adds a guild's settings under its key as written in the settings file.
    pub fn add_guild(&mut self, key: &str, guild: GuildConfig) -> (r: Result<(), ConfigError>)
        ensures
            final(self).errors_channel == old(self).errors_channel,
            final(self).auto_delete@ == old(self).auto_delete@,
            match decimal_u64(key@) {
                Some(id) => r is Ok && final(self).guilds@ == old(self).guilds@.insert(id, guild),
                None => r == Err::<(), ConfigError>(ConfigError::InvalidSnowflake) && final(self).guilds@
                    == old(self).guilds@,
            },
    {
        let id = parse_snowflake(key)?;
        self.guilds.insert(id, guild);
        Ok(())
    }

    /// Adds an expiring channel whose age limit is an ISO 8601 duration.
    pub fn add_auto_delete(&mut self, channel: u64, after: &str) -> (r: Result<(), ConfigError>)
        ensures
            final(self).errors_channel == old(self).errors_channel,
            final(self).guilds@ == old(self).guilds@,
            match parse_duration_spec(after@) {
                Ok(ms) => r is Ok && final(self).auto_delete@ == old(self).auto_delete@.push(
                    AutoDeleteConfig { channel, after_ms: ms },
                ),
                Err(e) => r == Err::<(), ConfigError>(e) && final(self).auto_delete@ == old(
                    self,
                ).auto_delete@,
            },
    {
        let after_ms = parse_duration(after)?;
        self.auto_delete.push(AutoDeleteConfig { channel, after_ms });
        Ok(())
    }
}

pub open spec fn is_digit(c: char) -> bool {
    48 <= c as u32 <= 57
}

/// The value of a run of decimal digits.
pub open spec fn digits_value(d: Seq<char>) -> nat
    decreases d.len(),
{
    if d.len() == 0 {
        0
    } else {
        digits_value(d.drop_last()) * 10 + (d.last() as u32 - 48) as nat
    }
}

/// A decimal text without its optional leading `+`.
pub open spec fn digits_part(s: Seq<char>) -> Seq<char> {
    if s.len() > 0 && s[0] == '+' {
        s.drop_first()
    } else {
        s
    }
}

/// The `u64` that a text writes in decimal: an optional `+`, then one or
/// more ASCII digits, of a value that fits in 64 bits.
pub open spec fn decimal_u64(s: Seq<char>) -> Option<u64> {
    let d = digits_part(s);
    if d.len() > 0 && (forall|i: int| 0 <= i < d.len() ==> is_digit(#[trigger] d[i]))
        && digits_value(d) <= u64::MAX {
        Some(digits_value(d) as u64)
    } else {
        None
    }
}

proof fn lemma_prefix_value_at_most(d: Seq<char>, j: int)
    requires
        0 <= j <= d.len(),
    ensures
        digits_value(d.subrange(0, j)) <= digits_value(d),
    decreases d.len() - j,
{
    if j < d.len() {
        lemma_prefix_value_at_most(d.drop_last(), j);
        assert(d.drop_last().subrange(0, j) =~= d.subrange(0, j));
    } else {
        assert(d.subrange(0, j) =~= d);
    }
}

/// Reads a guild id written in decimal, as `str::parse::<u64>` reads it.
pub fn parse_snowflake(s: &str) -> (r: Result<u64, ConfigError>)
    ensures
        match decimal_u64(s@) {
            Some(id) => r == Ok::<u64, ConfigError>(id),
            None => r == Err::<u64, ConfigError>(ConfigError::InvalidSnowflake),
        },
{
    let n = s.unicode_len();
    let start: usize = if n > 0 && s.get_char(0) == '+' {
        1
    } else {
        0
    };
    let ghost d = digits_part(s@);
    assert(d =~= s@.subrange(start as int, n as int));
    if start >= n {
        return Err(ConfigError::InvalidSnowflake);
    }
    let mut acc: u64 = 0;
    let mut i: usize = start;
    while i < n
        invariant
            n == s@.len(),
            start <= i <= n,
            d == s@.subrange(start as int, n as int),
            d == digits_part(s@),
            forall|j: int| start <= j < i ==> is_digit(#[trigger] s@[j]),
            acc == digits_value(s@.subrange(start as int, i as int)),
        decreases n - i,
    {
        let u = s.get_char(i) as u32;
        if u < 48 || u > 57 {
            assert(d[i - start] == s@[i as int]);
            assert(!is_digit(d[i - start]));
            return Err(ConfigError::InvalidSnowflake);
        }
        let dv: u64 = (u - 48) as u64;
        let ghost next = s@.subrange(start as int, i + 1);
        assert(next.drop_last() =~= s@.subrange(start as int, i as int));
        if acc > (u64::MAX - dv) / 10 {
            assert(acc * 10 + dv > u64::MAX) by (nonlinear_arith)
                requires
                    acc > (u64::MAX - dv) / 10,
                    dv <= 9,
            ;
            proof {
                lemma_prefix_value_at_most(d, i + 1 - start);
                assert(d.subrange(0, i + 1 - start) =~= next);
            }
            return Err(ConfigError::InvalidSnowflake);
        }
        assert(acc * 10 + dv <= u64::MAX) by (nonlinear_arith)
            requires
                acc <= (u64::MAX - dv) / 10,
                dv <= 9,
        ;
        acc = acc * 10 + dv;
        i = i + 1;
    }
    assert(s@.subrange(start as int, n as int) =~= d);
    Ok(acc)
}

/// An ISO 8601 duration as written: calendar units or weeks.
#[derive(Clone, Copy, Debug, PartialEq, Eq, Structural)]
pub enum IsoDuration {
    YMDHMS { year: u32, month: u32, day: u32, hour: u32, minute: u32, second: u32, millisecond: u32 },
    Weeks(u32),
}

/// What an ISO 8601 duration text parses to.
pub uninterp spec fn iso_duration_of(s: Seq<char>) -> Option<IsoDuration>;

/// Relies on `iso8601::duration`: parses an ISO 8601 duration, or fails;
/// the result depends on the text alone.
#[verifier::external_body]
fn parse_iso_duration(s: &str) -> (r: Option<IsoDuration>)
    ensures
        r == iso_duration_of(s@),
{
    match iso8601::duration(s) {
        Ok(iso8601::Duration::YMDHMS { year, month, day, hour, minute, second, millisecond }) => {
            Some(IsoDuration::YMDHMS { year, month, day, hour, minute, second, millisecond })
        },
        Ok(iso8601::Duration::Weeks(w)) => Some(IsoDuration::Weeks(w)),
        Err(_) => None,
    }
}

/// The length of a duration in milliseconds, counting a year as 365 days
/// and a month as 30 days.
pub open spec fn duration_ms_spec(d: IsoDuration) -> int {
    match d {
        IsoDuration::YMDHMS { year, month, day, hour, minute, second, millisecond } => (year * 365
            * 86_400 + month * 30 * 86_400 + day * 86_400 + hour * 3_600 + minute * 60 + second)
            * 1000 + millisecond,
        IsoDuration::Weeks(w) => w * 7 * 86_400 * 1000,
    }
}

/// The length of a duration in milliseconds.
pub fn duration_ms(d: IsoDuration) -> (r: u128)
    ensures
        r == duration_ms_spec(d),
{
    match d {
        IsoDuration::YMDHMS { year, month, day, hour, minute, second, millisecond } => {
            let secs: u128 = year as u128 * 365 * 86_400 + month as u128 * 30 * 86_400 + day as u128
                * 86_400 + hour as u128 * 3_600 + minute as u128 * 60 + second as u128;
            secs * 1000 + millisecond as u128
        },
        IsoDuration::Weeks(w) => w as u128 * 7 * 86_400 * 1000,
    }
}

/// The milliseconds of an ISO 8601 duration text, or why it is refused.
pub open spec fn parse_duration_spec(s: Seq<char>) -> Result<u64, ConfigError> {
    match iso_duration_of(s) {
        None => Err(ConfigError::InvalidDuration),
        Some(d) => if duration_ms_spec(d) <= i64::MAX {
            Ok(duration_ms_spec(d) as u64)
        } else {
            Err(ConfigError::DurationTooLong)
        },
    }
}

/// Reads an ISO 8601 duration as milliseconds; durations that the clock
/// cannot subtract from a timestamp are refused.
pub fn parse_duration(s: &str) -> (r: Result<u64, ConfigError>)
    ensures
        r == parse_duration_spec(s@),
{
    match parse_iso_duration(s) {
        None => Err(ConfigError::InvalidDuration),
        Some(d) => {
            let ms = duration_ms(d);
            if ms <= i64::MAX as u128 {
                Ok(ms as u64)
            } else {
                Err(ConfigError::DurationTooLong)
            }
        },
    }
}

} // verus!
