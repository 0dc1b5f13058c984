//! The rules of the cache: when an entry is alive, what a read makes of what
//! the store holds, and the steps of a read-through.
//!
//! The store itself, the clock and the turning of values into bytes are the
//! caller's. It hands in what it read and what time it is, and does what the
//! answer says.

pub mod errors;

use crate::cache::errors::CacheError;
use vstd::prelude::*;

verus! {

/// Nanoseconds in a second.
pub const NANOS_PER_SECOND: u128 = 1_000_000_000;

/// A point in time: nanoseconds since the epoch of the clock.
#[derive(Debug, Clone, Copy, PartialEq, Eq, Structural)]
pub struct Timestamp {
    pub nanos: u128,
}

/// A span of time, in nanoseconds.
#[derive(Debug, Clone, Copy, PartialEq, Eq, Structural)]
pub struct TimeSpan {
    pub nanos: u128,
}

impl TimeSpan {
    /// A span of whole seconds.
    pub fn from_secs(secs: u64) -> (span: Self)
        ensures
            span.nanos == secs * NANOS_PER_SECOND,
    {
        TimeSpan { nanos: secs as u128 * NANOS_PER_SECOND }
    }

    /// A span of whole milliseconds.
    pub fn from_millis(millis: u64) -> (span: Self)
        ensures
            span.nanos == millis * 1_000_000,
    {
        TimeSpan { nanos: millis as u128 * 1_000_000 }
    }
}

/// How long entries live.
pub struct CacheTTL {}

impl CacheTTL {
    /// A time to live of whole hours.
    pub fn hours(hours: u64) -> (ttl: Option<TimeSpan>)
        ensures
            ttl == Some(TimeSpan { nanos: (hours * 3600 * NANOS_PER_SECOND) as u128 }),
    {
        let secs: u128 = hours as u128 * 3600;
        Some(TimeSpan { nanos: secs * NANOS_PER_SECOND })
    }

    /// A time to live of whole minutes.
    pub fn minutes(minutes: u64) -> (ttl: Option<TimeSpan>)
        ensures
            ttl == Some(TimeSpan { nanos: (minutes * 60 * NANOS_PER_SECOND) as u128 }),
    {
        let secs: u128 = minutes as u128 * 60;
        Some(TimeSpan { nanos: secs * NANOS_PER_SECOND })
    }
}

/// When an entry that is written at `now` expires: never without a time to
/// live, and otherwise that much later, or at the end of time if that comes
/// first.
pub open spec fn expiry(ttl: Option<TimeSpan>, now: Timestamp) -> Option<Timestamp> {
    match ttl {
        None => None,
        Some(span) => Some(
            Timestamp {
                nanos: if now.nanos + span.nanos <= u128::MAX {
                    (now.nanos + span.nanos) as u128
                } else {
                    u128::MAX
                },
            },
        ),
    }
}

/// A value in the cache, and when it expires. Without an expiry it lives
/// forever.
pub struct CacheEntry<T> {
    pub data: T,
    pub expires_at: Option<Timestamp>,
}

impl<T> CacheEntry<T> {
    /// Whether the entry is alive at `now`: it has no expiry, or `now` is
    /// before it.
    pub open spec fn live_at(&self, now: Timestamp) -> bool {
        match self.expires_at {
            None => true,
            Some(end) => now.nanos < end.nanos,
        }
    }

    /// The entry that holds `data` when it is written at `now` with this time
    /// to live.
    pub fn new(data: T, ttl: Option<TimeSpan>, now: Timestamp) -> (entry: Self)
        ensures
            entry.data == data,
            entry.expires_at == expiry(ttl, now),
    {
        let expires_at = match ttl {
            None => None,
            Some(span) => Some(Timestamp { nanos: now.nanos.saturating_add(span.nanos) }),
        };
        CacheEntry { data, expires_at }
    }

    /// Whether the entry is alive at `now`.
    pub fn is_live(&self, now: Timestamp) -> (alive: bool)
        ensures
            alive == self.live_at(now),
    {
        match self.expires_at {
            None => true,
            Some(end) => now.nanos < end.nanos,
        }
    }
}

/// What a read of one key comes to.
pub enum Lookup<T> {
    /// A live entry: its value.
    Hit(T),
    /// An entry that has expired. It counts as absent, and is to be removed
    /// from the store.
    Expired,
    /// No entry.
    Miss,
}

/// What a read makes of what the store holds under a key at `now`.
pub open spec fn lookup_of<T>(stored: Option<CacheEntry<T>>, now: Timestamp) -> Lookup<T> {
    match stored {
        None => Lookup::Miss,
        Some(entry) => if entry.live_at(now) {
            Lookup::Hit(entry.data)
        } else {
            Lookup::Expired
        },
    }
}

/// What a read makes of what the store holds under a key at `now`.
pub fn read_entry<T>(stored: Option<CacheEntry<T>>, now: Timestamp) -> (found: Lookup<T>)
    ensures
        found == lookup_of(stored, now),
{
    match stored {
        None => Lookup::Miss,
        Some(entry) => if entry.is_live(now) {
            Lookup::Hit(entry.data)
        } else {
            Lookup::Expired
        },
    }
}

/// What `get` answers, and whether the key is to be removed from the store
/// first.
pub struct GetOutcome<T> {
    pub value: Option<T>,
    pub forget: bool,
}

/// What `get` comes to for what the store holds under the key at `now`: the
/// value of a live entry; nothing for an expired one, which is removed; and
/// nothing where there is none.
pub fn get_outcome<T>(stored: Option<CacheEntry<T>>, now: Timestamp) -> (outcome: GetOutcome<T>)
    ensures
        match lookup_of(stored, now) {
            Lookup::Hit(value) => outcome.value == Some(value) && !outcome.forget,
            Lookup::Expired => outcome.value.is_none() && outcome.forget,
            Lookup::Miss => outcome.value.is_none() && !outcome.forget,
        },
{
    match read_entry(stored, now) {
        Lookup::Hit(value) => GetOutcome { value: Some(value), forget: false },
        Lookup::Expired => GetOutcome { value: None, forget: true },
        Lookup::Miss => GetOutcome { value: None, forget: false },
    }
}

/// The first step of a read-through.
#[derive(Debug, Clone, Copy, PartialEq, Eq, Structural)]
pub enum RememberStart {
    /// The cache is switched off: compute the value, and leave the store
    /// alone.
    Compute,
    /// Read the key from the store.
    Lookup,
}

/// How a read-through begins: with the cache switched off it computes and
/// never touches the store.
pub fn remember_start(no_cache: bool) -> (step: RememberStart)
    ensures
        step == if no_cache {
            RememberStart::Compute
        } else {
            RememberStart::Lookup
        },
{
    if no_cache {
        RememberStart::Compute
    } else {
        RememberStart::Lookup
    }
}

/// How a read-through goes on once the store has answered.
pub enum RememberNext<T> {
    /// A live entry was found: its value is the answer.
    Return(T),
    /// Nothing alive was found: compute the value, store it, and answer with
    /// it whether or not the store took it.
    ComputeAndStore,
    /// The store failed: compute the value and answer with it.
    ComputeOnly,
}

/// How a read-through goes on for what the store answered at `now`. A failure
/// of the store counts as a miss that is not written back.
pub fn remember_next<T>(
    looked_up: Result<Option<CacheEntry<T>>, CacheError>,
    now: Timestamp,
) -> (next: RememberNext<T>)
    ensures
        next == match looked_up {
            Err(_) => RememberNext::ComputeOnly,
            Ok(stored) => match lookup_of(stored, now) {
                Lookup::Hit(value) => RememberNext::Return(value),
                _ => RememberNext::ComputeAndStore,
            },
        },
{
    match looked_up {
        Err(_) => RememberNext::ComputeOnly,
        Ok(stored) => match read_entry(stored, now) {
            Lookup::Hit(value) => RememberNext::Return(value),
            _ => RememberNext::ComputeAndStore,
        },
    }
}

/// A read-through of one key: the value of a live entry, and otherwise the
/// value that `compute` gives, which is then written with its expiry.
///
/// With the cache switched off neither the store nor the clock is touched.
/// A failure to read counts as a miss that is not written back, and a
/// failure to write does not keep the value from being returned: `write`
/// reports nothing. The clock is read once to judge the entry, and once more
/// after the value was computed, so that the time to live starts when the
/// value is there.
pub fn remember_with_ttl<T, Clock, Read, Compute, Write>(
    no_cache: bool,
    ttl: Option<TimeSpan>,
    clock: Clock,
    read: Read,
    compute: Compute,
    write: Write,
) -> (value: T) where
    Clock: Fn() -> Timestamp,
    Read: FnOnce() -> Result<Option<CacheEntry<T>>, CacheError>,
    Compute: FnOnce() -> T,
    Write: FnOnce(&CacheEntry<T>),

    requires
        clock.requires(()),
        read.requires(()),
        compute.requires(()),
        forall|entry: &CacheEntry<T>| write.requires((entry,)),
    ensures
        no_cache ==> compute.ensures((), value),
        !no_cache ==> exists|looked_up: Result<Option<CacheEntry<T>>, CacheError>, now: Timestamp|
            {
                &&& read.ensures((), looked_up)
                &&& clock.ensures((), now)
                &&& match looked_up {
                    Err(_) => compute.ensures((), value),
                    Ok(stored) => match lookup_of(stored, now) {
                        Lookup::Hit(found) => value == found,
                        _ => compute.ensures((), value) && exists|later: Timestamp|
                            clock.ensures((), later) && write.ensures(
                                (&CacheEntry { data: value, expires_at: expiry(ttl, later) },),
                                (),
                            ),
                    },
                }
            },
{
    match remember_start(no_cache) {
        RememberStart::Compute => compute(),
        RememberStart::Lookup => {
            let looked_up = read();
            let now = clock();
            match remember_next(looked_up, now) {
                RememberNext::Return(value) => {
                    proof {
                        assert(read.ensures((), looked_up) && clock.ensures((), now));
                    }
                    value
                },
                RememberNext::ComputeOnly => {
                    let value = compute();
                    proof {
                        assert(read.ensures((), looked_up) && clock.ensures((), now));
                    }
                    value
                },
                RememberNext::ComputeAndStore => {
                    let data = compute();
                    let later = clock();
                    let entry = CacheEntry::new(data, ttl, later);
                    write(&entry);
                    proof {
                        assert(entry == (CacheEntry { data, expires_at: expiry(ttl, later) }));
                        assert(clock.ensures((), later) && write.ensures((&entry,), ()));
                        assert(read.ensures((), looked_up) && clock.ensures((), now));
                    }
                    entry.data
                },
            }
        },
    }
}

/// What a read of one key answers for what the store holds at `now`, where
/// removing an expired entry came out as `forgot`: the value of a live entry;
/// nothing for an expired entry that was removed, and the failure where it
/// could not be; nothing where there is no entry.
pub open spec fn get_result<T>(
    stored: Option<CacheEntry<T>>,
    now: Timestamp,
    forgot: Result<(), CacheError>,
) -> Result<Option<T>, CacheError> {
    match lookup_of(stored, now) {
        Lookup::Hit(value) => Ok(Some(value)),
        Lookup::Expired => match forgot {
            Ok(_) => Ok(None),
            Err(e) => Err(e),
        },
        Lookup::Miss => Ok(None),
    }
}

/// Reads one key: the value of a live entry, and nothing otherwise. An
/// entry that has expired is removed from the store by `forget`, whose
/// failure is the failure of the read; `forget` is not called otherwise.
pub fn get<T, Clock, Forget>(
    stored: Option<CacheEntry<T>>,
    clock: Clock,
    forget: Forget,
) -> (r: Result<Option<T>, CacheError>) where
    Clock: FnOnce() -> Timestamp,
    Forget: FnOnce() -> Result<(), CacheError>,

    requires
        clock.requires(()),
        forget.requires(()),
    ensures
        exists|now: Timestamp, forgot: Result<(), CacheError>|
            {
                &&& clock.ensures((), now)
                &&& lookup_of(stored, now) is Expired ==> forget.ensures((), forgot)
                &&& r == get_result(stored, now, forgot)
            },
{
    let now = clock();
    let outcome = get_outcome(stored, now);
    if outcome.forget {
        let forgot = forget();
        proof {
            assert(clock.ensures((), now) && (lookup_of(stored, now) is Expired
                ==> forget.ensures((), forgot)) && (match forgot {
                Ok(_) => Ok::<Option<T>, CacheError>(None),
                Err(e) => Err::<Option<T>, CacheError>(e),
            }) == get_result(stored, now, forgot));
        }
        match forgot {
            Ok(_) => Ok(None),
            Err(e) => Err(e),
        }
    } else {
        proof {
            let forgot = Ok::<(), CacheError>(());
            assert(clock.ensures((), now) && (lookup_of(stored, now) is Expired
                ==> forget.ensures((), forgot)) && Ok::<Option<T>, CacheError>(outcome.value)
                == get_result(stored, now, forgot));
        }
        Ok(outcome.value)
    }
}

/// Writes a value under a key, with the expiry that its time to live gives
/// from now.
pub fn put<T, Clock, Write>(value: T, ttl: Option<TimeSpan>, clock: Clock, write: Write) -> (r:
    Result<(), CacheError>) where
    Clock: FnOnce() -> Timestamp,
    Write: FnOnce(CacheEntry<T>) -> Result<(), CacheError>,

    requires
        clock.requires(()),
        forall|entry: CacheEntry<T>| write.requires((entry,)),
    ensures
        exists|now: Timestamp|
            clock.ensures((), now) && write.ensures(
                (CacheEntry { data: value, expires_at: expiry(ttl, now) },),
                r,
            ),
{
    let now = clock();
    write(CacheEntry::new(value, ttl, now))
}

/// An entry that is written at `now` with a time to live is alive at every
/// time before `now` plus that span, and at no later time, as far as time
/// goes.
pub proof fn lemma_entry_lives_for_its_ttl<T>(
    data: T,
    ttl: TimeSpan,
    now: Timestamp,
    later: Timestamp,
)
    requires
        now.nanos + ttl.nanos <= u128::MAX,
    ensures
        (CacheEntry { data, expires_at: expiry(Some(ttl), now) }).live_at(later) <==> later.nanos
            < now.nanos + ttl.nanos,
{
}

/// An entry without a time to live is alive at every time.
pub proof fn lemma_entry_without_ttl_lives<T>(data: T, now: Timestamp, later: Timestamp)
    ensures
        (CacheEntry { data, expires_at: expiry(None, now) }).live_at(later),
{
}

/// Once an entry has expired it stays expired.
pub proof fn lemma_expired_stays_expired<T>(entry: CacheEntry<T>, now: Timestamp, later: Timestamp)
    requires
        !entry.live_at(now),
        now.nanos <= later.nanos,
    ensures
        !entry.live_at(later),
{
}

} // verus!
