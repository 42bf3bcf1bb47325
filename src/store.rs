//! The entry store: one entry per live token, with atomic claim, completion,
//! failure and expiry. Each operation is a single step on the store; the
//! caller holds whatever lock guards it only for that step.
use std::collections::HashMap;
use vstd::prelude::*;

use crate::response::{CacheElement, CacheView};

verus! {

broadcast use vstd::std_specs::hash::group_hash_axioms;

/// `a + b`, or `u64::MAX` where that does not fit.
pub open spec fn sat_add(a: u64, b: u64) -> u64 {
    if a + b <= u64::MAX {
        (a + b) as u64
    } else {
        u64::MAX
    }
}

/// The claim number that follows `n`; it starts again at zero after the
/// largest.
pub open spec fn next_claim_spec(n: u64) -> u64 {
    if n < u64::MAX {
        (n + 1) as u64
    } else {
        0
    }
}

/// The right to execute the handler for a token, handed to the one caller
/// whose claim was granted.
#[derive(Clone, Copy, Debug, PartialEq, Eq, Structural)]
pub struct Ticket {
    pub token: u128,
    pub fingerprint: u64,
    pub claim: u64,
}

/// Where an entry stands.
pub enum EntryState {
    /// An execution holding claim `claim` is in flight.
    Pending { claim: u64 },
    /// The execution succeeded and left this response.
    Completed { response: CacheElement },
}

/// The store's record for one token.
pub struct CacheEntry {
    fingerprint: u64,
    state: EntryState,
    /// The first instant, in milliseconds, at which the entry no longer
    /// counts: the pending timeout for a pending entry, the time to live for
    /// a completed one.
    expires_at: u64,
}

/// What an entry's state is to the contracts.
pub enum StateView {
    Pending(u64),
    Completed(CacheView),
}

/// What an entry is to the contracts.
pub struct EntryView {
    pub fingerprint: u64,
    pub state: StateView,
    pub expires_at: u64,
}

impl View for EntryState {
    type V = StateView;

    open spec fn view(&self) -> StateView {
        match self {
            EntryState::Pending { claim } => StateView::Pending(*claim),
            EntryState::Completed { response } => StateView::Completed(response@),
        }
    }
}

impl View for CacheEntry {
    type V = EntryView;

    closed spec fn view(&self) -> EntryView {
        EntryView { fingerprint: self.fingerprint, state: self.state@, expires_at: self.expires_at }
    }
}

/// The store as a whole.
pub struct EntryStore {
    entries: HashMap<u128, CacheEntry>,
    /// Every token that has an entry, in the order of first claim, so that a
    /// sweep can find them; it may also hold tokens whose entry is gone.
    tokens: Vec<u128>,
    next_claim: u64,
    ttl: u64,
    pending_timeout: u64,
}

/// What the store is to the contracts.
pub struct StoreView {
    pub entries: Map<u128, EntryView>,
    pub next_claim: u64,
    pub ttl: u64,
    pub pending_timeout: u64,
}

impl View for EntryStore {
    type V = StoreView;

    closed spec fn view(&self) -> StoreView {
        StoreView {
            entries: self.entries@.map_values(|e: CacheEntry| e@),
            next_claim: self.next_claim,
            ttl: self.ttl,
            pending_timeout: self.pending_timeout,
        }
    }
}

/// What a token's entry says about a request with fingerprint `fp` at time
/// `now`.
pub enum Lookup {
    /// No entry counts: none exists, or it has expired.
    Absent,
    /// The live entry was made by a request with another fingerprint.
    Conflict,
    /// The live entry is pending with the same fingerprint.
    Pending,
    /// The live entry is completed with the same fingerprint.
    Replay(CacheElement),
}

/// What a lookup is to the contracts.
pub enum LookupView {
    Absent,
    Conflict,
    Pending,
    Replay(CacheView),
}

impl View for Lookup {
    type V = LookupView;

    open spec fn view(&self) -> LookupView {
        match self {
            Lookup::Absent => LookupView::Absent,
            Lookup::Conflict => LookupView::Conflict,
            Lookup::Pending => LookupView::Pending,
            Lookup::Replay(r) => LookupView::Replay(r@),
        }
    }
}

/// The answer to a claim.
pub enum ClaimOutcome {
    /// The caller is now the sole executor for the token.
    Granted(Ticket),
    /// A completed execution with the same fingerprint left this response.
    Replay(CacheElement),
    /// The token is live with another fingerprint.
    Conflict,
    /// An execution with the same fingerprint is in flight.
    Wait,
}

/// What a claim's answer is to the contracts.
pub enum ClaimView {
    Granted(Ticket),
    Replay(CacheView),
    Conflict,
    Wait,
}

impl View for ClaimOutcome {
    type V = ClaimView;

    open spec fn view(&self) -> ClaimView {
        match self {
            ClaimOutcome::Granted(t) => ClaimView::Granted(*t),
            ClaimOutcome::Replay(r) => ClaimView::Replay(r@),
            ClaimOutcome::Conflict => ClaimView::Conflict,
            ClaimOutcome::Wait => ClaimView::Wait,
        }
    }
}

/// Whether the entry still counts at time `now`.
pub open spec fn is_live(e: EntryView, now: u64) -> bool {
    now < e.expires_at
}

/// Whether `k` is among the first `i` items of `s`.
pub open spec fn seen(s: Seq<u128>, i: int, k: u128) -> bool {
    exists|j: int| 0 <= j < i && #[trigger] s[j] == k
}

/// The entries that still count at time `now`.
pub open spec fn live_entries(m: Map<u128, EntryView>, now: u64) -> Map<u128, EntryView> {
    Map::new(|k: u128| m.contains_key(k) && is_live(m[k], now), |k: u128| m[k])
}

/// What the store says about token `t` and fingerprint `fp` at time `now`.
pub open spec fn lookup_spec(s: StoreView, t: u128, fp: u64, now: u64) -> LookupView {
    if s.entries.contains_key(t) && is_live(s.entries[t], now) {
        let e = s.entries[t];
        if e.fingerprint != fp {
            LookupView::Conflict
        } else {
            match e.state {
                StateView::Pending(_) => LookupView::Pending,
                StateView::Completed(r) => LookupView::Replay(r),
            }
        }
    } else {
        LookupView::Absent
    }
}

/// The ticket that a granted claim hands out.
pub open spec fn ticket_spec(s: StoreView, t: u128, fp: u64) -> Ticket {
    Ticket { token: t, fingerprint: fp, claim: s.next_claim }
}

/// The store after a claim on an absent token: a fresh pending entry.
pub open spec fn granted_spec(s: StoreView, t: u128, fp: u64, now: u64) -> StoreView {
    StoreView {
        entries: s.entries.insert(
            t,
            EntryView {
                fingerprint: fp,
                state: StateView::Pending(s.next_claim),
                expires_at: sat_add(now, s.pending_timeout),
            },
        ),
        next_claim: next_claim_spec(s.next_claim),
        ..s
    }
}

/// The answer to a claim.
pub open spec fn claim_spec(s: StoreView, t: u128, fp: u64, now: u64) -> ClaimView {
    match lookup_spec(s, t, fp, now) {
        LookupView::Absent => ClaimView::Granted(ticket_spec(s, t, fp)),
        LookupView::Conflict => ClaimView::Conflict,
        LookupView::Pending => ClaimView::Wait,
        LookupView::Replay(r) => ClaimView::Replay(r),
    }
}

/// The store after a claim: changed only where the claim was granted.
pub open spec fn after_claim(s: StoreView, t: u128, fp: u64, now: u64) -> StoreView {
    if lookup_spec(s, t, fp, now) is Absent {
        granted_spec(s, t, fp, now)
    } else {
        s
    }
}

/// Whether `tk` is the claim under which the token's entry is pending.
pub open spec fn holds(s: StoreView, tk: Ticket) -> bool {
    &&& s.entries.contains_key(tk.token)
    &&& s.entries[tk.token].fingerprint == tk.fingerprint
    &&& s.entries[tk.token].state == StateView::Pending(tk.claim)
}

/// The store after the execution under `tk` succeeded with response `r` at
/// time `now`: the entry is completed and lives for the time to live.
pub open spec fn after_complete(s: StoreView, tk: Ticket, r: CacheView, now: u64) -> StoreView {
    if holds(s, tk) {
        StoreView {
            entries: s.entries.insert(
                tk.token,
                EntryView {
                    fingerprint: tk.fingerprint,
                    state: StateView::Completed(r),
                    expires_at: sat_add(now, s.ttl),
                },
            ),
            ..s
        }
    } else {
        s
    }
}

/// The store after the execution under `tk` failed: the entry is gone.
pub open spec fn after_fail(s: StoreView, tk: Ticket) -> StoreView {
    if holds(s, tk) {
        StoreView { entries: s.entries.remove(tk.token), ..s }
    } else {
        s
    }
}

/// The store after an expiry check of token `t` at time `now`.
pub open spec fn after_expire(s: StoreView, t: u128, now: u64) -> StoreView {
    if s.entries.contains_key(t) && !is_live(s.entries[t], now) {
        StoreView { entries: s.entries.remove(t), ..s }
    } else {
        s
    }
}

fn add_saturating(a: u64, b: u64) -> (r: u64)
    ensures
        r == sat_add(a, b),
{
    if a <= u64::MAX - b {
        a + b
    } else {
        u64::MAX
    }
}

impl EntryStore {
    /// The store's invariant: every token with an entry is on the sweep
    /// list.
    pub closed spec fn wf(&self) -> bool {
        forall|k: u128| self.entries@.contains_key(k) ==> #[trigger] self.tokens@.contains(k)
    }

    /// An empty store whose completed entries live `ttl` milliseconds and
    /// whose pending entries are given up after `pending_timeout`.
    pub fn new(ttl: u64, pending_timeout: u64) -> (r: EntryStore)
        ensures
            r.wf(),
            r@.entries == Map::<u128, EntryView>::empty(),
            r@.next_claim == 0,
            r@.ttl == ttl,
            r@.pending_timeout == pending_timeout,
    {
        let r = EntryStore {
            entries: HashMap::new(),
            tokens: Vec::new(),
            next_claim: 0,
            ttl,
            pending_timeout,
        };
        assert(r@.entries =~= Map::<u128, EntryView>::empty());
        r
    }

    /// How long a completed entry lives, in milliseconds.
    pub fn ttl(&self) -> (r: u64)
        ensures
            r == self@.ttl,
    {
        self.ttl
    }

    /// After how long a pending entry is given up, in milliseconds.
    pub fn pending_timeout(&self) -> (r: u64)
        ensures
            r == self@.pending_timeout,
    {
        self.pending_timeout
    }

    /// What the store says about token `t` and fingerprint `fp` at `now`.
    pub fn lookup(&self, t: u128, fp: u64, now: u64) -> (r: Lookup)
        ensures
            r@ == lookup_spec(self@, t, fp, now),
    {
        match self.entries.get(&t) {
            None => Lookup::Absent,
            Some(e) => {
                assert(self@.entries[t] == e@);
                if now >= e.expires_at {
                    Lookup::Absent
                } else if e.fingerprint != fp {
                    Lookup::Conflict
                } else {
                    match &e.state {
                        EntryState::Pending { .. } => Lookup::Pending,
                        EntryState::Completed { response } => Lookup::Replay(response.duplicate()),
                    }
                }
            },
        }
    }

    /// Claims token `t` for a request with fingerprint `fp` at time `now`:
    /// granted, with a fresh pending entry, where no live entry exists;
    /// otherwise a replay, a conflict or a wait, with the store unchanged.
    pub fn try_claim(&mut self, t: u128, fp: u64, now: u64) -> (r: ClaimOutcome)
        requires
            old(self).wf(),
        ensures
            final(self).wf(),
            r@ == claim_spec(old(self)@, t, fp, now),
            final(self)@ == after_claim(old(self)@, t, fp, now),
    {
        match self.lookup(t, fp, now) {
            Lookup::Conflict => ClaimOutcome::Conflict,
            Lookup::Pending => ClaimOutcome::Wait,
            Lookup::Replay(r) => ClaimOutcome::Replay(r),
            Lookup::Absent => {
                let claim = self.next_claim;
                let expires_at = add_saturating(now, self.pending_timeout);
                let entry = CacheEntry {
                    fingerprint: fp,
                    state: EntryState::Pending { claim },
                    expires_at,
                };
                let ghost before = self@;
                if !self.entries.contains_key(&t) {
                    self.tokens.push(t);
                    assert(self.tokens@[self.tokens@.len() - 1] == t);
                } else {
                    assert(old(self).entries@.contains_key(t));
                }
                assert(self.tokens@.contains(t));
                self.entries.insert(t, entry);
                assert forall|k: u128| self.entries@.contains_key(k) implies #[trigger] self.tokens@.contains(k) by {
                    if k != t {
                        assert(old(self).entries@.contains_key(k));
                        assert(old(self).tokens@.contains(k));
                        let j = choose|j: int|
                            0 <= j < old(self).tokens@.len() && #[trigger] old(self).tokens@[j] == k;
                        assert(self.tokens@[j] == k);
                    }
                }
                self.next_claim = if claim < u64::MAX {
                    claim + 1
                } else {
                    0
                };
                assert(self@.entries =~= before.entries.insert(t, entry@));
                ClaimOutcome::Granted(Ticket { token: t, fingerprint: fp, claim })
            },
        }
    }

    /// Stores the response of the execution under `tk`, taken at `now`:
    /// where `tk` still holds the entry it becomes completed and `true` is
    /// returned; otherwise nothing changes and `false` is returned.
    pub fn complete(&mut self, tk: Ticket, response: CacheElement, now: u64) -> (r: bool)
        requires
            old(self).wf(),
        ensures
            final(self).wf(),
            r == holds(old(self)@, tk),
            final(self)@ == after_complete(old(self)@, tk, response@, now),
    {
        let held = match self.entries.get(&tk.token) {
            None => false,
            Some(e) => {
                assert(self@.entries[tk.token] == e@);
                e.fingerprint == tk.fingerprint && match e.state {
                    EntryState::Pending { claim } => claim == tk.claim,
                    EntryState::Completed { .. } => false,
                }
            },
        };
        if held {
            let expires_at = add_saturating(now, self.ttl);
            let entry = CacheEntry {
                fingerprint: tk.fingerprint,
                state: EntryState::Completed { response },
                expires_at,
            };
            let ghost before = self@;
            self.entries.insert(tk.token, entry);
            assert(self@.entries =~= before.entries.insert(tk.token, entry@));
        }
        held
    }

    /// Gives up the execution under `tk`: where `tk` still holds the entry it
    /// is removed, so that the token can be claimed afresh, and `true` is
    /// returned; otherwise nothing changes and `false` is returned.
    pub fn fail(&mut self, tk: Ticket) -> (r: bool)
        requires
            old(self).wf(),
        ensures
            final(self).wf(),
            r == holds(old(self)@, tk),
            final(self)@ == after_fail(old(self)@, tk),
    {
        let held = match self.entries.get(&tk.token) {
            None => false,
            Some(e) => {
                assert(self@.entries[tk.token] == e@);
                e.fingerprint == tk.fingerprint && match e.state {
                    EntryState::Pending { claim } => claim == tk.claim,
                    EntryState::Completed { .. } => false,
                }
            },
        };
        if held {
            let ghost before = self@;
            self.entries.remove(&tk.token);
            assert(self@.entries =~= before.entries.remove(tk.token));
        }
        held
    }

    /// Removes the entry of token `t` where it has expired at `now`, and
    /// says whether it did.
    pub fn expire(&mut self, t: u128, now: u64) -> (r: bool)
        requires
            old(self).wf(),
        ensures
            final(self).wf(),
            r == (old(self)@.entries.contains_key(t) && !is_live(old(self)@.entries[t], now)),
            final(self)@ == after_expire(old(self)@, t, now),
    {
        self.remove_expired(t, now)
    }

    /// `expire`, leaving the sweep list as it is.
    fn remove_expired(&mut self, t: u128, now: u64) -> (r: bool)
        requires
            old(self).wf(),
        ensures
            final(self).wf(),
            final(self).tokens == old(self).tokens,
            r == (old(self)@.entries.contains_key(t) && !is_live(old(self)@.entries[t], now)),
            final(self)@ == after_expire(old(self)@, t, now),
    {
        let expired = match self.entries.get(&t) {
            None => false,
            Some(e) => {
                assert(self@.entries[t] == e@);
                now >= e.expires_at
            },
        };
        if expired {
            let ghost before = self@;
            self.entries.remove(&t);
            assert(self@.entries =~= before.entries.remove(t));
        }
        expired
    }

    /// The number of tokens with an entry, live or not.
    pub fn len(&self) -> (r: usize)
        ensures
            r == self@.entries.len(),
    {
        assert(self@.entries.dom() =~= self.entries@.dom());
        self.entries.len()
    }

    /// Removes every entry that has expired at `now`.
    pub fn sweep(&mut self, now: u64)
        requires
            old(self).wf(),
        ensures
            final(self).wf(),
            final(self)@ == (StoreView { entries: live_entries(old(self)@.entries, now), ..old(self)@ }),
    {
        let ghost start = self@;
        let mut i: usize = 0;
        while i < self.tokens.len()
            invariant
                self.wf(),
                self.tokens@ == old(self).tokens@,
                0 <= i <= self.tokens@.len(),
                self@.next_claim == start.next_claim,
                self@.ttl == start.ttl,
                self@.pending_timeout == start.pending_timeout,
                forall|k: u128| #[trigger]
                    self@.entries.contains_key(k) <==> (start.entries.contains_key(k) && (is_live(
                        start.entries[k],
                        now,
                    ) || !seen(self.tokens@, i as int, k))),
                forall|k: u128| #[trigger]
                    self@.entries.contains_key(k) ==> self@.entries[k] == start.entries[k],
            decreases self.tokens@.len() - i,
        {
            let t = self.tokens[i];
            let ghost prev = self@;
            self.remove_expired(t, now);
            proof {
                assert forall|k: u128| #[trigger]
                    seen(self.tokens@, i + 1, k) == (seen(self.tokens@, i as int, k) || k == t) by {
                    if k == t {
                        assert(self.tokens@[i as int] == k);
                    }
                    if seen(self.tokens@, i + 1, k) && k != t {
                        let j = choose|j: int| 0 <= j < i + 1 && #[trigger] self.tokens@[j] == k;
                        assert(j < i);
                    }
                }
                assert forall|k: u128| #[trigger] self@.entries.contains_key(k) implies self@.entries[k]
                    == start.entries[k] by {
                    assert(prev.entries.contains_key(k));
                }
            }
            i = i + 1;
        }
        proof {
            assert forall|k: u128| start.entries.contains_key(k) implies #[trigger] seen(
                self.tokens@,
                self.tokens@.len() as int,
                k,
            ) by {
                assert(old(self).entries@.contains_key(k));
                assert(old(self).tokens@.contains(k));
                let j = choose|j: int|
                    0 <= j < old(self).tokens@.len() && #[trigger] old(self).tokens@[j] == k;
                assert(self.tokens@[j] == k);
            }
            assert(self@.entries =~= live_entries(start.entries, now));
        }
        let mut kept: Vec<u128> = Vec::new();
        let mut j: usize = 0;
        while j < self.tokens.len()
            invariant
                0 <= j <= self.tokens@.len(),
                self@.entries == live_entries(start.entries, now),
                self@.next_claim == start.next_claim,
                self@.ttl == start.ttl,
                self@.pending_timeout == start.pending_timeout,
                forall|k: u128| self.entries@.contains_key(k) ==> #[trigger] self.tokens@.contains(k),
                forall|m: int|
                    0 <= m < j && self.entries@.contains_key(#[trigger] self.tokens@[m])
                        ==> kept@.contains(self.tokens@[m]),
            decreases self.tokens@.len() - j,
        {
            let t = self.tokens[j];
            let ghost prev = kept@;
            if self.entries.contains_key(&t) {
                kept.push(t);
                assert(kept@[kept@.len() - 1] == t);
            }
            proof {
                assert forall|m: int|
                    0 <= m < j + 1 && self.entries@.contains_key(
                        #[trigger] self.tokens@[m],
                    ) implies kept@.contains(self.tokens@[m]) by {
                    if m < j {
                        let q = choose|q: int| 0 <= q < prev.len() && #[trigger] prev[q] == self.tokens@[m];
                        assert(kept@[q] == prev[q]);
                    }
                }
            }
            j = j + 1;
        }
        proof {
            assert forall|k: u128| self.entries@.contains_key(k) implies #[trigger] kept@.contains(k) by {
                assert(self.tokens@.contains(k));
                let m = choose|m: int| 0 <= m < self.tokens@.len() && #[trigger] self.tokens@[m] == k;
                assert(self.entries@.contains_key(self.tokens@[m]));
            }
        }
        self.tokens = kept;
    }
}

} // verus!
