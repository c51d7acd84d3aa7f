//! Replay protection: the nonces used for outbound encryption, each kept
//! until its validity window has passed. Times are milliseconds on a clock
//! that the caller reads.
use vstd::prelude::*;
use crate::bytes::{bytes_equal, copy_range};
use crate::crypto::{random_nonce, NONCE_SIZE};

verus! {

/// How many random nonces are drawn before giving up on finding an unused one.
pub const MAX_NONCE_ATTEMPTS: usize = 16;

/// Validity window of a nonce when none is configured (30 s).
pub const DEFAULT_IV_EXPIRATION_MS: u64 = 30000;

/// A nonce used for encryption, with the time it was used and how long it
/// stays reserved.
#[derive(Debug, Clone, PartialEq, Eq)]
pub struct InitializationVector {
    pub iv: Vec<u8>,
    pub expiration_duration: u64,
    pub creation_time: u64,
}

/// Abstract value of an initialization vector: nonce, window, creation time.
pub type IvView = (Seq<u8>, u64, u64);

impl View for InitializationVector {
    type V = IvView;

    open spec fn view(&self) -> IvView {
        (self.iv@, self.expiration_duration, self.creation_time)
    }
}

/// Whether an entry's window has passed at time `now`.
pub open spec fn iv_expired(e: IvView, now: int) -> bool {
    now - e.2 >= e.1
}

impl InitializationVector {
    pub fn new(iv: Vec<u8>, expiration: u64, creation_time: u64) -> (r: Self)
        ensures
            r@ == (iv@, expiration, creation_time),
    {
        InitializationVector { iv, expiration_duration: expiration, creation_time }
    }

    /// Milliseconds since the entry was created (zero if `now` is earlier).
    pub fn duration_since_creation(&self, now: u64) -> (r: u64)
        ensures
            now >= self.creation_time ==> r == now - self.creation_time,
            now < self.creation_time ==> r == 0,
    {
        if now >= self.creation_time {
            now - self.creation_time
        } else {
            0
        }
    }

    /// Whether the entry's window has passed at time `now`.
    pub fn is_expired(&self, now: u64) -> (r: bool)
        ensures
            r == iv_expired(self@, now as int),
    {
        now >= self.creation_time && now - self.creation_time >= self.expiration_duration
    }
}

/// The entries of a cache that are still live at time `now`, in order.
pub open spec fn live_entries(s: Seq<IvView>, now: int) -> Seq<IvView>
    decreases s.len(),
{
    if s.len() == 0 {
        s
    } else {
        let rest = live_entries(s.drop_last(), now);
        if iv_expired(s.last(), now) {
            rest
        } else {
            rest.push(s.last())
        }
    }
}

/// Whether `nonce` is reserved by a live entry at time `now`.
pub open spec fn nonce_in_use(s: Seq<IvView>, nonce: Seq<u8>, now: int) -> bool {
    exists|i: int| 0 <= i < s.len() && (#[trigger] s[i]).0 == nonce && !iv_expired(s[i], now)
}

/// Whether `nonce` occurs in any entry.
pub open spec fn nonce_listed(s: Seq<IvView>, nonce: Seq<u8>) -> bool {
    exists|i: int| 0 <= i < s.len() && (#[trigger] s[i]).0 == nonce
}

/// Whether no two entries hold the same nonce.
pub open spec fn nonces_distinct(s: Seq<IvView>) -> bool {
    forall|i: int, j: int| 0 <= i < j < s.len() ==> (#[trigger] s[i]).0 != (#[trigger] s[j]).0
}

/// Purging keeps the nonces of a cache distinct.
pub proof fn lemma_live_entries_distinct(s: Seq<IvView>, now: int)
    requires
        nonces_distinct(s),
    ensures
        nonces_distinct(live_entries(s, now)),
    decreases s.len(),
{
    if s.len() > 0 {
        let t = s.drop_last();
        assert(nonces_distinct(t)) by {
            assert forall|i: int, j: int| 0 <= i < j < t.len() implies (#[trigger] t[i]).0 != (
            #[trigger] t[j]).0 by {
                assert(t[i] == s[i] && t[j] == s[j]);
            }
        }
        lemma_live_entries_distinct(t, now);
        let rest = live_entries(t, now);
        if !iv_expired(s.last(), now) {
            let n = s.last().0;
            lemma_live_entries_listed(t, now, n);
            if nonce_listed(rest, n) {
                let k = choose|k: int| 0 <= k < t.len() && (#[trigger] t[k]).0 == n && !iv_expired(t[k], now);
                assert(s[k] == t[k]);
                assert(s[s.len() - 1] == s.last());
            }
            let l = rest.push(s.last());
            assert forall|i: int, j: int| 0 <= i < j < l.len() implies (#[trigger] l[i]).0 != (
            #[trigger] l[j]).0 by {
                if j == l.len() - 1 {
                    assert(l[i] == rest[i]);
                    if l[i].0 == n {
                        assert(nonce_listed(rest, n));
                    }
                } else {
                    assert(l[i] == rest[i] && l[j] == rest[j]);
                }
            }
        }
    }
}

/// Every entry that purging keeps is live.
pub proof fn lemma_live_entries_unexpired(s: Seq<IvView>, now: int)
    ensures
        forall|i: int|
            0 <= i < live_entries(s, now).len() ==> !iv_expired(
                #[trigger] live_entries(s, now)[i],
                now,
            ),
    decreases s.len(),
{
    if s.len() > 0 {
        lemma_live_entries_unexpired(s.drop_last(), now);
        let rest = live_entries(s.drop_last(), now);
        if !iv_expired(s.last(), now) {
            assert forall|i: int| 0 <= i < rest.push(s.last()).len() implies !iv_expired(
                #[trigger] rest.push(s.last())[i],
                now,
            ) by {
                if i < rest.len() {
                    assert(rest.push(s.last())[i] == rest[i]);
                }
            }
        }
    }
}

/// Purging keeps exactly the live entries, so it changes no nonce's status.
pub proof fn lemma_live_entries_listed(s: Seq<IvView>, now: int, n: Seq<u8>)
    ensures
        nonce_listed(live_entries(s, now), n) == nonce_in_use(s, n, now),
    decreases s.len(),
{
    if s.len() > 0 {
        let t = s.drop_last();
        let rest = live_entries(t, now);
        lemma_live_entries_listed(t, now, n);
        // an entry of `s` other than the last is an entry of `t`
        if nonce_in_use(s, n, now) {
            let i = choose|i: int|
                0 <= i < s.len() && (#[trigger] s[i]).0 == n && !iv_expired(s[i], now);
            if i < s.len() - 1 {
                assert(t[i] == s[i]);
                assert(nonce_in_use(t, n, now));
            }
        }
        if nonce_in_use(t, n, now) {
            let i = choose|i: int|
                0 <= i < t.len() && (#[trigger] t[i]).0 == n && !iv_expired(t[i], now);
            assert(s[i] == t[i]);
        }
        if !iv_expired(s.last(), now) {
            let l = rest.push(s.last());
            if nonce_listed(l, n) {
                let i = choose|i: int| 0 <= i < l.len() && (#[trigger] l[i]).0 == n;
                if i < rest.len() {
                    assert(l[i] == rest[i]);
                } else {
                    assert(s[s.len() - 1] == s.last());
                }
            }
            if nonce_listed(rest, n) {
                let i = choose|i: int| 0 <= i < rest.len() && (#[trigger] rest[i]).0 == n;
                assert(l[i] == rest[i]);
            }
            if s.last().0 == n {
                assert(l[rest.len() as int] == s.last());
                assert(s[s.len() - 1] == s.last());
            }
        } else {
            if nonce_in_use(s, n, now) {
                let i = choose|i: int|
                    0 <= i < s.len() && (#[trigger] s[i]).0 == n && !iv_expired(s[i], now);
                assert(i != s.len() - 1);
            }
        }
    }
}

/// A nonce whose every entry has expired at `now` is not in use, so
/// `try_reserve` takes it when it is drawn again.
pub proof fn lemma_expired_nonce_is_free(s: Seq<IvView>, nonce: Seq<u8>, now: int)
    requires
        forall|i: int| 0 <= i < s.len() && (#[trigger] s[i]).0 == nonce ==> iv_expired(s[i], now),
    ensures
        !nonce_in_use(s, nonce, now),
{
}

/// While an entry's window lasts, its nonce counts as in use, so a second
/// use of it is refused.
pub proof fn lemma_nonce_reserved_until_expiry(
    s: Seq<IvView>,
    nonce: Seq<u8>,
    duration: u64,
    created: u64,
    now: int,
)
    requires
        created <= now < created + duration,
    ensures
        nonce_in_use(s.push((nonce, duration, created)), nonce, now),
{
    let t = s.push((nonce, duration, created));
    assert(t[s.len() as int] == (nonce, duration, created));
}

/// Once an entry's window has passed, it no longer reserves its nonce: the
/// nonce is in use only if another entry still holds it.
pub proof fn lemma_nonce_reusable_after_expiry(
    s: Seq<IvView>,
    nonce: Seq<u8>,
    duration: u64,
    created: u64,
    now: int,
)
    requires
        now >= created + duration,
    ensures
        nonce_in_use(s.push((nonce, duration, created)), nonce, now) == nonce_in_use(s, nonce, now),
{
    let t = s.push((nonce, duration, created));
    if nonce_in_use(t, nonce, now) {
        let i = choose|i: int| 0 <= i < t.len() && (#[trigger] t[i]).0 == nonce && !iv_expired(t[i], now);
        assert(i < s.len());
        assert(s[i] == t[i]);
    }
    if nonce_in_use(s, nonce, now) {
        let i = choose|i: int| 0 <= i < s.len() && (#[trigger] s[i]).0 == nonce && !iv_expired(s[i], now);
        assert(t[i] == s[i]);
    }
}

/// The nonces used for outbound encryption with one peer.
#[derive(Debug, Clone, PartialEq, Eq)]
pub struct InitializationVectorContainer {
    pub initialization_vectors: Vec<InitializationVector>,
}

impl View for InitializationVectorContainer {
    type V = Seq<IvView>;

    open spec fn view(&self) -> Seq<IvView> {
        self.initialization_vectors@.map_values(|e: InitializationVector| e@)
    }
}

impl InitializationVectorContainer {
    pub fn new() -> (r: Self)
        ensures
            r@ == Seq::<IvView>::empty(),
    {
        let r = InitializationVectorContainer { initialization_vectors: Vec::new() };
        assert(r@ =~= Seq::<IvView>::empty());
        r
    }

    /// Drops the entries whose window has passed at time `now`.
    pub fn purge_expired(&mut self, now: u64)
        ensures
            final(self)@ == live_entries(old(self)@, now as int),
            nonces_distinct(old(self)@) ==> nonces_distinct(final(self)@),
    {
        proof {
            if nonces_distinct(old(self)@) {
                lemma_live_entries_distinct(old(self)@, now as int);
            }
        }
        let ghost src = old(self)@;
        let ghost n = src.len();
        let total = self.initialization_vectors.len();
        assert(n == total);
        let mut kept: Vec<InitializationVector> = Vec::new();
        let mut i: usize = 0;
        while self.initialization_vectors.len() > 0
            invariant
                n == src.len(),
                n == total,
                i + self@.len() == n,
                forall|k: int| 0 <= k < self.initialization_vectors@.len() ==> (#[trigger] self.initialization_vectors@[k])@ == src[i + k],
                self.initialization_vectors@.len() == self@.len(),
                kept@.map_values(|e: InitializationVector| e@) == live_entries(src.subrange(0, i as int), now as int),
            decreases self@.len(),
        {
            let e = self.initialization_vectors.remove(0);
            assert(e@ == src[i as int]);
            let ghost before = kept@.map_values(|e: InitializationVector| e@);
            assert(src.subrange(0, i as int + 1).drop_last() =~= src.subrange(0, i as int));
            if !e.is_expired(now) {
                kept.push(e);
                assert(kept@.map_values(|e: InitializationVector| e@) =~= before.push(src[i as int]));
            }
            i = i + 1;
        }
        assert(src.subrange(0, i as int) =~= src);
        assert(self@.len() == 0);
        self.initialization_vectors = kept;
    }

    /// Whether some entry holds `nonce`.
    pub fn contains(&self, nonce: &[u8]) -> (r: bool)
        ensures
            r == nonce_listed(self@, nonce@),
    {
        let mut i: usize = 0;
        while i < self.initialization_vectors.len()
            invariant
                0 <= i <= self@.len(),
                self@.len() == self.initialization_vectors@.len(),
                forall|k: int| 0 <= k < i ==> (#[trigger] self@[k]).0 != nonce@,
            decreases self@.len() - i,
        {
            if bytes_equal(self.initialization_vectors[i].iv.as_slice(), nonce) {
                assert(self@[i as int].0 == nonce@);
                return true;
            }
            i = i + 1;
        }
        false
    }

    /// Records an entry.
    pub fn insert(&mut self, iv: InitializationVector)
        ensures
            final(self)@ == old(self)@.push(iv@),
    {
        let ghost v = iv@;
        self.initialization_vectors.push(iv);
        assert(self@ =~= old(self)@.push(v));
    }

    /// Purges the entries expired at `now`, then reserves `nonce` for
    /// `expiration` milliseconds unless it is still in use; returns whether
    /// it was reserved.
    pub fn try_reserve(&mut self, nonce: &[u8], now: u64, expiration: u64) -> (r: bool)
        ensures
            r == !nonce_in_use(old(self)@, nonce@, now as int),
            r ==> final(self)@ == live_entries(old(self)@, now as int).push(
                (nonce@, expiration, now),
            ),
            !r ==> final(self)@ == live_entries(old(self)@, now as int),
            nonces_distinct(old(self)@) ==> nonces_distinct(final(self)@),
    {
        self.purge_expired(now);
        proof {
            lemma_live_entries_listed(old(self)@, now as int, nonce@);
        }
        if self.contains(nonce) {
            return false;
        }
        let copy = copy_range(nonce, 0, nonce.len());
        assert(copy@ =~= nonce@);
        let ghost purged = self@;
        self.insert(InitializationVector::new(copy, expiration, now));
        proof {
            if nonces_distinct(old(self)@) {
                let l = self@;
                assert forall|i: int, j: int| 0 <= i < j < l.len() implies (#[trigger] l[i]).0 != (
                #[trigger] l[j]).0 by {
                    assert(l[i] == purged[i]);
                    if j == l.len() - 1 {
                        if l[i].0 == nonce@ {
                            assert(nonce_listed(purged, nonce@));
                        }
                    } else {
                        assert(l[j] == purged[j]);
                    }
                }
            }
        }
        true
    }

    /// Purges the expired entries, then draws random nonces until one is
    /// not in use, records it with the given window and returns it. Gives up
    /// with `None` after `MAX_NONCE_ATTEMPTS` draws, a draw that the random
    /// source fails counting as one.
    pub fn pick_unused_nonce(&mut self, now: u64, expiration: u64) -> (r: Option<Vec<u8>>)
        ensures
            nonces_distinct(old(self)@) ==> nonces_distinct(final(self)@),
            r is Some ==> r->0@.len() == NONCE_SIZE,
            r is Some ==> !nonce_in_use(old(self)@, r->0@, now as int),
            r is Some ==> final(self)@ == live_entries(old(self)@, now as int).push(
                (r->0@, expiration, now),
            ),
            r is None ==> final(self)@ == live_entries(old(self)@, now as int),
    {
        self.purge_expired(now);
        proof {
            lemma_live_entries_unexpired(old(self)@, now as int);
            lemma_live_entries_of_live(live_entries(old(self)@, now as int), now as int);
        }
        let mut attempts: usize = 0;
        while attempts < MAX_NONCE_ATTEMPTS
            invariant
                self@ == live_entries(old(self)@, now as int),
                live_entries(self@, now as int) == self@,
                nonces_distinct(old(self)@) ==> nonces_distinct(self@),
            decreases MAX_NONCE_ATTEMPTS - attempts,
        {
            if let Some(nonce) = random_nonce() {
                proof {
                    lemma_live_entries_listed(old(self)@, now as int, nonce@);
                    lemma_live_entries_listed(self@, now as int, nonce@);
                }
                if self.try_reserve(nonce.as_slice(), now, expiration) {
                    return Some(nonce);
                }
            }
            attempts = attempts + 1;
        }
        None
    }
}

/// Purging a cache whose entries are all live at `now` keeps it as it is.
pub proof fn lemma_live_entries_of_live(s: Seq<IvView>, now: int)
    requires
        forall|i: int| 0 <= i < s.len() ==> !iv_expired(#[trigger] s[i], now),
    ensures
        live_entries(s, now) == s,
    decreases s.len(),
{
    if s.len() > 0 {
        let t = s.drop_last();
        assert forall|i: int| 0 <= i < t.len() implies !iv_expired(#[trigger] t[i], now) by {
            assert(t[i] == s[i]);
        }
        lemma_live_entries_of_live(t, now);
        assert(!iv_expired(s[s.len() - 1], now));
        assert(t.push(s.last()) =~= s);
    }
}

} // verus!
