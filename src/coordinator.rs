//! The request coordinator: from a request's header, method, path and body
//! to a decision against the entry store, and from a handler's outcome back
//! to the store.
use vstd::prelude::*;

use crate::fingerprint::{bounded_fingerprint, fingerprint_spec};
use crate::key::{extract_key, key_spec, IdempotencyError, HEADER_KEY};
use crate::response::{headers_view, kept_headers, CacheElement, CacheView, Header};
use crate::store::{
    after_claim, after_complete, after_fail, claim_spec, lookup_spec, ClaimOutcome, ClaimView, EntryStore, Lookup, LookupView,
    StoreView, Ticket,
};

verus! {

/// How long a completed entry is replayed by default: one day.
pub const DEFAULT_TTL_MS: u64 = 86_400_000;

/// After how long a pending entry is given up by default: thirty seconds.
pub const DEFAULT_PENDING_TIMEOUT_MS: u64 = 30_000;

/// The largest body that is fingerprinted by default: one mebibyte.
pub const DEFAULT_MAX_BODY_BYTES: usize = 1_048_576;

/// The configuration of idempotency enforcement.
pub struct Idempotency {
    pub header_name: String,
    pub ttl_ms: u64,
    pub max_body_bytes: usize,
    pub pending_timeout_ms: u64,
}

/// What to do with a request.
pub enum Decision {
    /// Answer with this protocol error; the handler is not invoked.
    Reject(IdempotencyError),
    /// Invoke the handler under this ticket, then report how it went.
    Execute(Ticket),
    /// Answer with this stored response; the handler is not invoked.
    Replay(CacheElement),
    /// An execution of the same request is in flight: wait until it is
    /// resolved, then ask again with the token and fingerprint.
    Wait { token: u128, fingerprint: u64 },
    /// The execution that was waited for failed or was given up: answer
    /// with a failure, and the client may retry.
    Abandoned,
}

/// What a decision is to the contracts.
pub enum DecisionView {
    Reject(IdempotencyError),
    Execute(Ticket),
    Replay(CacheView),
    Wait { token: u128, fingerprint: u64 },
    Abandoned,
}

impl View for Decision {
    type V = DecisionView;

    open spec fn view(&self) -> DecisionView {
        match self {
            Decision::Reject(e) => DecisionView::Reject(*e),
            Decision::Execute(t) => DecisionView::Execute(*t),
            Decision::Replay(r) => DecisionView::Replay(r@),
            Decision::Wait { token, fingerprint } => DecisionView::Wait {
                token: *token,
                fingerprint: *fingerprint,
            },
            Decision::Abandoned => DecisionView::Abandoned,
        }
    }
}

/// The decision for a request, given the store before it.
pub open spec fn begin_spec(
    max_body_bytes: usize,
    s: StoreView,
    header: Option<Seq<u8>>,
    method: Seq<u8>,
    path: Seq<u8>,
    body: Seq<u8>,
    now: u64,
) -> DecisionView {
    match key_spec(header) {
        Err(e) => DecisionView::Reject(e),
        Ok(t) => if body.len() > max_body_bytes {
            DecisionView::Reject(IdempotencyError::BodyTooLarge)
        } else {
            let fp = fingerprint_spec(method, path, body);
            match claim_spec(s, t, fp, now) {
                ClaimView::Granted(tk) => DecisionView::Execute(tk),
                ClaimView::Replay(r) => DecisionView::Replay(r),
                ClaimView::Conflict => DecisionView::Reject(IdempotencyError::AlreadyExists),
                ClaimView::Wait => DecisionView::Wait { token: t, fingerprint: fp },
            }
        },
    }
}

/// The store after a request's decision: it changes only where a claim is
/// made, that is where the token and the body are accepted.
pub open spec fn begin_store(
    max_body_bytes: usize,
    s: StoreView,
    header: Option<Seq<u8>>,
    method: Seq<u8>,
    path: Seq<u8>,
    body: Seq<u8>,
    now: u64,
) -> StoreView {
    match key_spec(header) {
        Err(_) => s,
        Ok(t) => if body.len() > max_body_bytes {
            s
        } else {
            after_claim(s, t, fingerprint_spec(method, path, body), now)
        },
    }
}

/// The decision for a request that waited, once the execution it waited
/// for has moved on.
pub open spec fn resume_spec(s: StoreView, t: u128, fp: u64, now: u64) -> DecisionView {
    match lookup_spec(s, t, fp, now) {
        LookupView::Absent => DecisionView::Abandoned,
        LookupView::Conflict => DecisionView::Reject(IdempotencyError::AlreadyExists),
        LookupView::Pending => DecisionView::Wait { token: t, fingerprint: fp },
        LookupView::Replay(r) => DecisionView::Replay(r),
    }
}

/// The view of an optional byte slice.
pub open spec fn opt_view(b: Option<&[u8]>) -> Option<Seq<u8>> {
    match b {
        Some(b) => Some(b@),
        None => None,
    }
}

impl Idempotency {
    /// The default configuration: the `Idempotency-Key` header, a day's
    /// time to live, a mebibyte of body, thirty seconds of pending timeout.
    pub fn new() -> (r: Idempotency)
        ensures
            r.header_name@ == HEADER_KEY@,
            r.ttl_ms == DEFAULT_TTL_MS,
            r.max_body_bytes == DEFAULT_MAX_BODY_BYTES,
            r.pending_timeout_ms == DEFAULT_PENDING_TIMEOUT_MS,
    {
        Idempotency {
            header_name: HEADER_KEY.to_string(),
            ttl_ms: DEFAULT_TTL_MS,
            max_body_bytes: DEFAULT_MAX_BODY_BYTES,
            pending_timeout_ms: DEFAULT_PENDING_TIMEOUT_MS,
        }
    }

    /// An empty store with this configuration's durations.
    pub fn new_store(&self) -> (r: EntryStore)
        ensures
            r.wf(),
            r@.entries == Map::<u128, crate::store::EntryView>::empty(),
            r@.next_claim == 0,
            r@.ttl == self.ttl_ms,
            r@.pending_timeout == self.pending_timeout_ms,
    {
        EntryStore::new(self.ttl_ms, self.pending_timeout_ms)
    }

    /// Decides what to do with a request at time `now`: `header` is the raw
    /// value of the idempotency header, `None` where the request has none.
    pub fn begin(
        &self,
        store: &mut EntryStore,
        header: Option<&[u8]>,
        method: &[u8],
        path: &[u8],
        body: &[u8],
        now: u64,
    ) -> (r: Decision)
        requires
            old(store).wf(),
        ensures
            final(store).wf(),
            r@ == begin_spec(
                self.max_body_bytes,
                old(store)@,
                opt_view(header),
                method@,
                path@,
                body@,
                now,
            ),
            final(store)@ == begin_store(
                self.max_body_bytes,
                old(store)@,
                opt_view(header),
                method@,
                path@,
                body@,
                now,
            ),
    {
        let t = match extract_key(header) {
            Err(e) => {
                return Decision::Reject(e);
            },
            Ok(t) => t,
        };
        let fp = match bounded_fingerprint(method, path, body, self.max_body_bytes) {
            None => {
                return Decision::Reject(IdempotencyError::BodyTooLarge);
            },
            Some(fp) => fp,
        };
        match store.try_claim(t, fp, now) {
            ClaimOutcome::Granted(tk) => Decision::Execute(tk),
            ClaimOutcome::Replay(r) => Decision::Replay(r),
            ClaimOutcome::Conflict => Decision::Reject(IdempotencyError::AlreadyExists),
            ClaimOutcome::Wait => Decision::Wait { token: t, fingerprint: fp },
        }
    }

    /// Decides again for a request that waited on token `t` with
    /// fingerprint `fp`, at time `now`. The store is only read.
    pub fn resume(&self, store: &EntryStore, t: u128, fp: u64, now: u64) -> (r: Decision)
        ensures
            r@ == resume_spec(store@, t, fp, now),
    {
        match store.lookup(t, fp, now) {
            Lookup::Absent => Decision::Abandoned,
            Lookup::Conflict => Decision::Reject(IdempotencyError::AlreadyExists),
            Lookup::Pending => Decision::Wait { token: t, fingerprint: fp },
            Lookup::Replay(r) => Decision::Replay(r),
        }
    }

    /// Records that the handler run under `tk` answered with `statuscode`,
    /// `headers` and `body` at time `now`: the response is frozen, without
    /// its hop-by-hop headers, for replay. Says whether `tk` still held the
    /// entry; where it did not the store is unchanged.
    pub fn succeed(
        &self,
        store: &mut EntryStore,
        tk: Ticket,
        statuscode: u16,
        headers: &Vec<Header>,
        body: Vec<u8>,
        now: u64,
    ) -> (r: bool)
        requires
            old(store).wf(),
        ensures
            final(store).wf(),
            r == crate::store::holds(old(store)@, tk),
            final(store)@ == after_complete(
                old(store)@,
                tk,
                CacheView {
                    status: statuscode,
                    headers: kept_headers(headers_view(headers@)),
                    body: body@,
                    created_at: now,
                },
                now,
            ),
    {
        let element = CacheElement::capture(statuscode, headers, body, now);
        store.complete(tk, element, now)
    }

    /// Records that the handler run under `tk` failed or was given up: the
    /// entry is removed so that the token may be claimed afresh. Says
    /// whether `tk` still held the entry; where it did not the store is
    /// unchanged.
    pub fn abandon(&self, store: &mut EntryStore, tk: Ticket) -> (r: bool)
        requires
            old(store).wf(),
        ensures
            final(store).wf(),
            r == crate::store::holds(old(store)@, tk),
            final(store)@ == after_fail(old(store)@, tk),
    {
        store.fail(tk)
    }
}

} // verus!
