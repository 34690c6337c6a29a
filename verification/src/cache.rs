//! Responses remembered per account for a limited time.
//!
//! Entries are filed under a one-way digest of the account identifier, never
//! under the identifier itself. An entry that has outlived its time to live is
//! not handed out any more; it stays where it is until it is replaced.

use sha2::Digest;
use std::time::Instant;
use vstd::hash_map::StringHashMap;
use vstd::prelude::*;
use vstd::string::*;
use vstd::utf8::{encode_utf8, encode_utf8_decode_utf8};

use crate::clock::{elapsed, elapsed_between, nanos_since, start};
use crate::models::{clone_history, records, HistoryEntry, HistoryRecord, Profile, ProfileView};

verus! {

/// Time to live of a history list: ten minutes, in nanoseconds.
pub const HISTORY_TTL: u128 = 600_000_000_000;

/// Time to live of a profile: thirty minutes, in nanoseconds.
pub const PROFILE_TTL: u128 = 1_800_000_000_000;

/// The SHA-256 digest of `data`, as `sha2::Sha256` computes it.
pub uninterp spec fn sha256_of(data: Seq<u8>) -> Seq<u8>;

/// The lower-case hexadecimal digit of `n`, which is below sixteen.
pub open spec fn hex_digit(n: u8) -> char {
    if n == 0 {
        '0'
    } else if n == 1 {
        '1'
    } else if n == 2 {
        '2'
    } else if n == 3 {
        '3'
    } else if n == 4 {
        '4'
    } else if n == 5 {
        '5'
    } else if n == 6 {
        '6'
    } else if n == 7 {
        '7'
    } else if n == 8 {
        '8'
    } else if n == 9 {
        '9'
    } else if n == 10 {
        'a'
    } else if n == 11 {
        'b'
    } else if n == 12 {
        'c'
    } else if n == 13 {
        'd'
    } else if n == 14 {
        'e'
    } else {
        'f'
    }
}

/// `bytes` in lower-case hexadecimal: two digits per byte, the high one first.
pub open spec fn hex_lower(bytes: Seq<u8>) -> Seq<char>
    decreases bytes.len(),
{
    if bytes.len() == 0 {
        Seq::<char>::empty()
    } else {
        hex_lower(bytes.drop_last()).push(hex_digit(bytes.last() / 16)).push(
            hex_digit(bytes.last() % 16),
        )
    }
}

/// The cache key of an account identifier: the hexadecimal SHA-256 digest of
/// its UTF-8 bytes.
pub open spec fn key_of(identifier: Seq<char>) -> Seq<char> {
    hex_lower(sha256_of(encode_utf8(identifier)))
}

/// Calls `sha2::Sha256::digest` and copies the output into a vector. The
/// output of SHA-256 has 32 bytes.
#[verifier::external_body]
fn sha256(data: &[u8]) -> (r: Vec<u8>)
    ensures
        r@ == sha256_of(data@),
        r@.len() == 32,
{
    sha2::Sha256::digest(data).to_vec()
}

/// Calls `hex::encode`: every byte becomes two lower-case hexadecimal digits,
/// the high one first.
#[verifier::external_body]
fn hex_encode(data: &[u8]) -> (r: String)
    ensures
        r@ == hex_lower(data@),
{
    hex::encode(data)
}

/// A remembered value with the moment it was stored and its time to live.
#[derive(Debug)]
pub struct CacheEntry<T> {
    pub data: T,
    pub inserted_at: u128,
    pub ttl: u128,
}

impl<T> CacheEntry<T> {
    /// Whether the entry is too old at `now`: more than `ttl` has passed since
    /// it was stored.
    pub open spec fn expired(&self, now: u128) -> bool {
        elapsed(now, self.inserted_at) > self.ttl
    }

    /// Computes [`CacheEntry::expired`].
    pub fn is_expired(&self, now: u128) -> (r: bool)
        ensures
            r == self.expired(now),
    {
        elapsed_between(now, self.inserted_at) > self.ttl
    }
}

/// The entry that holds `data` stored at `inserted_at` with time to live `ttl`.
pub open spec fn stored<T>(data: T, inserted_at: u128, ttl: u128) -> CacheEntry<T> {
    CacheEntry { data, inserted_at, ttl }
}

/// What a lookup of `key` at `now` hands out of `m`: the stored value, unless
/// there is none or it has expired.
pub open spec fn fresh<T>(m: Map<Seq<char>, CacheEntry<T>>, key: Seq<char>, now: u128) -> Option<
    T,
> {
    if m.contains_key(key) && !m[key].expired(now) {
        Some(m[key].data)
    } else {
        None
    }
}

/// View of a stored history list.
pub open spec fn history_entry_view(e: CacheEntry<Vec<HistoryEntry>>) -> CacheEntry<
    Seq<HistoryRecord>,
> {
    CacheEntry { data: records(e.data@), inserted_at: e.inserted_at, ttl: e.ttl }
}

/// View of a stored profile.
pub open spec fn profile_entry_view(e: CacheEntry<Profile>) -> CacheEntry<ProfileView> {
    CacheEntry { data: e.data@, inserted_at: e.inserted_at, ttl: e.ttl }
}

/// The two tables of remembered responses.
pub struct AppCache {
    history: StringHashMap<CacheEntry<Vec<HistoryEntry>>>,
    profiles: StringHashMap<CacheEntry<Profile>>,
    epoch: Instant,
}

impl AppCache {
    /// The remembered history lists, by key.
    pub closed spec fn history(&self) -> Map<Seq<char>, CacheEntry<Seq<HistoryRecord>>> {
        self.history@.map_values(|e: CacheEntry<Vec<HistoryEntry>>| history_entry_view(e))
    }

    /// The remembered profiles, by key.
    pub closed spec fn profiles(&self) -> Map<Seq<char>, CacheEntry<ProfileView>> {
        self.profiles@.map_values(|e: CacheEntry<Profile>| profile_entry_view(e))
    }

    /// An empty cache. Its clock starts now.
    pub fn new() -> (r: Self)
        ensures
            r.history() == Map::<Seq<char>, CacheEntry<Seq<HistoryRecord>>>::empty(),
            r.profiles() == Map::<Seq<char>, CacheEntry<ProfileView>>::empty(),
    {
        let r = AppCache {
            history: StringHashMap::new(),
            profiles: StringHashMap::new(),
            epoch: start(),
        };
        proof {
            assert(r.history() =~= Map::<Seq<char>, CacheEntry<Seq<HistoryRecord>>>::empty());
            assert(r.profiles() =~= Map::<Seq<char>, CacheEntry<ProfileView>>::empty());
        }
        r
    }

    /// The key under which the responses for `email` are filed.
    pub fn cache_key(email: &str) -> (r: String)
        ensures
            r@ == key_of(email@),
    {
        let digest = sha256(email.as_bytes());
        hex_encode(digest.as_slice())
    }

    /// The present moment on this cache's clock: the nanoseconds that have
    /// passed since the cache was made. The number depends on when the call is
    /// made, so nothing is promised of it; what is done with it is stated
    /// for every moment by the functions that take the moment as an argument.
    pub(crate) fn now(&self) -> (now: u128) {
        nanos_since(&self.epoch)
    }

    /// The history list stored under `key`, unless it has expired at `now`.
    pub fn get_history_at(&self, key: &str, now: u128) -> (r: Option<Vec<HistoryEntry>>)
        ensures
            match r {
                Some(data) => fresh(self.history(), key@, now) == Some(records(data@)),
                None => fresh(self.history(), key@, now).is_none(),
            },
    {
        match self.history.get(key) {
            Some(entry) => {
                if entry.is_expired(now) {
                    None
                } else {
                    Some(clone_history(&entry.data))
                }
            },
            None => None,
        }
    }

    /// The history list stored under `key`, unless it has expired by now.
    /// Whatever the clock says, the answer is that of a lookup at some moment.
    pub fn get_history(&self, key: &str) -> (r: Option<Vec<HistoryEntry>>)
        ensures
            exists|now: u128|
                match r {
                    Some(data) => #[trigger] fresh(self.history(), key@, now) == Some(
                        records(data@),
                    ),
                    None => fresh(self.history(), key@, now).is_none(),
                },
    {
        let now = self.now();
        self.get_history_at(key, now)
    }

    /// Stores `data` under `key` as of `now`, replacing what was there.
    pub fn set_history_at(&mut self, key: String, data: Vec<HistoryEntry>, now: u128)
        ensures
            final(self).history() == old(self).history().insert(
                key@,
                stored(records(data@), now, HISTORY_TTL),
            ),
            final(self).profiles() == old(self).profiles(),
    {
        self.history.insert(key, CacheEntry { data, inserted_at: now, ttl: HISTORY_TTL });
        proof {
            assert(final(self).history() =~= old(self).history().insert(
                key@,
                stored(records(data@), now, HISTORY_TTL),
            ));
        }
    }

    /// Stores `data` under `key` as of now, replacing what was there.
    pub fn set_history(&mut self, key: String, data: Vec<HistoryEntry>)
        ensures
            exists|now: u128|
                final(self).history() == old(self).history().insert(
                    key@,
                    #[trigger] stored(records(data@), now, HISTORY_TTL),
                ),
            final(self).profiles() == old(self).profiles(),
    {
        let now = self.now();
        self.set_history_at(key, data, now);
    }

    /// The profile stored under `key`, unless it has expired at `now`.
    pub fn get_profile_at(&self, key: &str, now: u128) -> (r: Option<Profile>)
        ensures
            match r {
                Some(data) => fresh(self.profiles(), key@, now) == Some(data@),
                None => fresh(self.profiles(), key@, now).is_none(),
            },
    {
        match self.profiles.get(key) {
            Some(entry) => {
                if entry.is_expired(now) {
                    None
                } else {
                    Some(entry.data.clone())
                }
            },
            None => None,
        }
    }

    /// The profile stored under `key`, unless it has expired by now.
    pub fn get_profile(&self, key: &str) -> (r: Option<Profile>)
        ensures
            exists|now: u128|
                match r {
                    Some(data) => #[trigger] fresh(self.profiles(), key@, now) == Some(data@),
                    None => fresh(self.profiles(), key@, now).is_none(),
                },
    {
        let now = self.now();
        self.get_profile_at(key, now)
    }

    /// Stores `data` under `key` as of `now`, replacing what was there.
    pub fn set_profile_at(&mut self, key: String, data: Profile, now: u128)
        ensures
            final(self).profiles() == old(self).profiles().insert(
                key@,
                stored(data@, now, PROFILE_TTL),
            ),
            final(self).history() == old(self).history(),
    {
        self.profiles.insert(key, CacheEntry { data, inserted_at: now, ttl: PROFILE_TTL });
        proof {
            assert(final(self).profiles() =~= old(self).profiles().insert(
                key@,
                stored(data@, now, PROFILE_TTL),
            ));
        }
    }

    /// Stores `data` under `key` as of now, replacing what was there.
    pub fn set_profile(&mut self, key: String, data: Profile)
        ensures
            exists|now: u128|
                final(self).profiles() == old(self).profiles().insert(
                    key@,
                    #[trigger] stored(data@, now, PROFILE_TTL),
                ),
            final(self).history() == old(self).history(),
    {
        let now = self.now();
        self.set_profile_at(key, data, now);
    }
}

/// A value stored at `stored_at` is handed out at `now` exactly while no more
/// than its time to live has passed; other keys are not affected by storing.
pub proof fn lemma_stored_until_ttl<T>(
    m: Map<Seq<char>, CacheEntry<T>>,
    key: Seq<char>,
    other: Seq<char>,
    data: T,
    stored_at: u128,
    ttl: u128,
    now: u128,
)
    requires
        other != key,
    ensures
        ({
            let after = m.insert(key, stored(data, stored_at, ttl));
            &&& elapsed(now, stored_at) <= ttl ==> fresh(after, key, now) == Some(data)
            &&& elapsed(now, stored_at) > ttl ==> fresh(after, key, now).is_none()
            &&& fresh(after, other, now) == fresh(m, other, now)
        }),
{
}

proof fn lemma_hex_len(bytes: Seq<u8>)
    ensures
        hex_lower(bytes).len() == 2 * bytes.len(),
    decreases bytes.len(),
{
    if bytes.len() > 0 {
        lemma_hex_len(bytes.drop_last());
    }
}

proof fn lemma_hex_digit_injective(a: u8, b: u8)
    requires
        a < 16,
        b < 16,
        hex_digit(a) == hex_digit(b),
    ensures
        a == b,
{
}

/// Two byte strings with the same hexadecimal form are the same.
pub proof fn lemma_hex_lower_injective(a: Seq<u8>, b: Seq<u8>)
    requires
        hex_lower(a) == hex_lower(b),
    ensures
        a == b,
    decreases a.len(),
{
    lemma_hex_len(a);
    lemma_hex_len(b);
    if a.len() > 0 {
        let ha = hex_lower(a.drop_last());
        let hb = hex_lower(b.drop_last());
        lemma_hex_len(a.drop_last());
        lemma_hex_len(b.drop_last());
        let full = hex_lower(a);
        assert(full[full.len() - 2] == hex_digit(a.last() / 16));
        assert(full[full.len() - 2] == hex_digit(b.last() / 16));
        assert(full[full.len() - 1] == hex_digit(a.last() % 16));
        assert(full[full.len() - 1] == hex_digit(b.last() % 16));
        lemma_hex_digit_injective(a.last() / 16, b.last() / 16);
        lemma_hex_digit_injective(a.last() % 16, b.last() % 16);
        assert(a.last() == b.last());
        assert(ha =~= full.subrange(0, full.len() - 2));
        assert(hb =~= full.subrange(0, full.len() - 2));
        lemma_hex_lower_injective(a.drop_last(), b.drop_last());
        assert(a =~= a.drop_last().push(a.last()));
        assert(b =~= b.drop_last().push(b.last()));
    } else {
        assert(a =~= b);
    }
}

/// The key is a function of the identifier alone. Two identifiers get the
/// same key exactly when SHA-256 gives their UTF-8 bytes the same digest, and
/// different identifiers have different bytes: neither the encoding nor the
/// hexadecimal form ever merges two identifiers.
pub proof fn lemma_keys_differ_as_digests_do(a: Seq<char>, b: Seq<char>)
    ensures
        a == b ==> key_of(a) == key_of(b),
        a != b ==> encode_utf8(a) != encode_utf8(b),
        (key_of(a) == key_of(b)) == (sha256_of(encode_utf8(a)) == sha256_of(encode_utf8(b))),
{
    encode_utf8_decode_utf8(a);
    encode_utf8_decode_utf8(b);
    if key_of(a) == key_of(b) {
        lemma_hex_lower_injective(sha256_of(encode_utf8(a)), sha256_of(encode_utf8(b)));
    }
}

} // verus!
