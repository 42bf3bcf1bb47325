//! What holds across requests, stated over the store's and the
//! coordinator's models and proved from them.
use vstd::prelude::*;

use crate::coordinator::{begin_spec, begin_store, resume_spec, DecisionView};
use crate::key::{uuid_of, IdempotencyError};
use crate::response::CacheView;
use crate::store::{
    after_claim, after_complete, after_fail, claim_spec, holds, is_live, sat_add, ClaimView,
    StateView, StoreView, Ticket,
};

verus! {

/// A request without the idempotency header is rejected as missing, and
/// the handler is not invoked: the store does not change.
pub proof fn missing_header_rejected(
    max_body_bytes: usize,
    s: StoreView,
    method: Seq<u8>,
    path: Seq<u8>,
    body: Seq<u8>,
    now: u64,
)
    ensures
        begin_spec(max_body_bytes, s, None, method, path, body, now) == DecisionView::Reject(
            IdempotencyError::Missing,
        ),
        begin_store(max_body_bytes, s, None, method, path, body, now) == s,
{
}

/// A request whose header value is not a token is rejected as malformed,
/// and the handler is not invoked: the store does not change.
pub proof fn malformed_header_rejected(
    max_body_bytes: usize,
    s: StoreView,
    header: Seq<u8>,
    method: Seq<u8>,
    path: Seq<u8>,
    body: Seq<u8>,
    now: u64,
)
    requires
        uuid_of(header) is None,
    ensures
        begin_spec(max_body_bytes, s, Some(header), method, path, body, now)
            == DecisionView::Reject(IdempotencyError::Malformed),
        begin_store(max_body_bytes, s, Some(header), method, path, body, now) == s,
{
}

/// Once a claim on a token has been granted, every further request with the
/// same token and fingerprint, until the pending timeout, waits and claims
/// nothing, and a waiter that asks again keeps waiting: the handler runs
/// once.
pub proof fn one_execution_while_pending(s: StoreView, t: u128, fp: u64, now: u64, later: u64)
    requires
        claim_spec(s, t, fp, now) is Granted,
        later < sat_add(now, s.pending_timeout),
    ensures
        ({
            let s1 = after_claim(s, t, fp, now);
            &&& claim_spec(s1, t, fp, later) == ClaimView::Wait
            &&& after_claim(s1, t, fp, later) == s1
            &&& resume_spec(s1, t, fp, later) == (DecisionView::Wait { token: t, fingerprint: fp })
        }),
{
}

/// Once the execution under a ticket has completed with response `r`, every
/// request with the same token and fingerprint within the time to live, new
/// or waiting, is answered with `r` and claims nothing.
pub proof fn replay_after_completion(s: StoreView, tk: Ticket, r: CacheView, now: u64, later: u64)
    requires
        holds(s, tk),
        later < sat_add(now, s.ttl),
    ensures
        ({
            let s1 = after_complete(s, tk, r, now);
            &&& claim_spec(s1, tk.token, tk.fingerprint, later) == ClaimView::Replay(r)
            &&& after_claim(s1, tk.token, tk.fingerprint, later) == s1
            &&& resume_spec(s1, tk.token, tk.fingerprint, later) == DecisionView::Replay(r)
        }),
{
}

/// A request that reuses a live token with another fingerprint conflicts,
/// whether the first execution is pending or completed, and claims nothing.
pub proof fn reuse_with_other_fingerprint_conflicts(s: StoreView, t: u128, fp: u64, now: u64)
    requires
        s.entries.contains_key(t),
        is_live(s.entries[t], now),
        s.entries[t].fingerprint != fp,
    ensures
        claim_spec(s, t, fp, now) == ClaimView::Conflict,
        after_claim(s, t, fp, now) == s,
{
}

/// The same, at the coordinator: the request is rejected with
/// `AlreadyExists` and the store does not change.
pub proof fn reuse_rejected_as_already_exists(
    max_body_bytes: usize,
    s: StoreView,
    header: Seq<u8>,
    method: Seq<u8>,
    path: Seq<u8>,
    body: Seq<u8>,
    now: u64,
)
    requires
        uuid_of(header) is Some,
        body.len() <= max_body_bytes,
        s.entries.contains_key(uuid_of(header)->0),
        is_live(s.entries[uuid_of(header)->0], now),
        s.entries[uuid_of(header)->0].fingerprint != crate::fingerprint::fingerprint_spec(
            method,
            path,
            body,
        ),
    ensures
        begin_spec(max_body_bytes, s, Some(header), method, path, body, now)
            == DecisionView::Reject(IdempotencyError::AlreadyExists),
        begin_store(max_body_bytes, s, Some(header), method, path, body, now) == s,
{
}

/// A replay leaves the store as it was, so a second replay of the same
/// request returns the same response.
pub proof fn replay_is_repeatable(
    s: StoreView,
    t: u128,
    fp: u64,
    r: CacheView,
    now: u64,
    later: u64,
)
    requires
        claim_spec(s, t, fp, now) == ClaimView::Replay(r),
        is_live(s.entries[t], later),
    ensures
        after_claim(s, t, fp, now) == s,
        claim_spec(after_claim(s, t, fp, now), t, fp, later) == ClaimView::Replay(r),
{
}

/// Once a completed entry's time to live has passed, a request with the
/// same token is treated as fresh, whatever its fingerprint: its claim is
/// granted.
pub proof fn fresh_after_ttl(s: StoreView, tk: Ticket, r: CacheView, now: u64, fp: u64, later: u64)
    requires
        holds(s, tk),
        later >= sat_add(now, s.ttl),
    ensures
        claim_spec(after_complete(s, tk, r, now), tk.token, fp, later) is Granted,
{
}

/// After the execution under a ticket failed, a waiter learns that it was
/// abandoned, and a request with the same token and fingerprint is not
/// answered from the failure: its claim is granted.
pub proof fn retry_after_failure(s: StoreView, tk: Ticket, now: u64)
    requires
        holds(s, tk),
    ensures
        resume_spec(after_fail(s, tk), tk.token, tk.fingerprint, now) == DecisionView::Abandoned,
        claim_spec(after_fail(s, tk), tk.token, tk.fingerprint, now) is Granted,
{
}

/// A completed entry's response is frozen: no later completion, under any
/// ticket, changes the store, and no later failure removes the entry.
pub proof fn completed_response_is_frozen(
    s: StoreView,
    tk: Ticket,
    r: CacheView,
    now: u64,
    other: Ticket,
    r2: CacheView,
    later: u64,
)
    requires
        holds(s, tk),
        other.token == tk.token,
    ensures
        ({
            let s1 = after_complete(s, tk, r, now);
            &&& after_complete(s1, other, r2, later) == s1
            &&& after_fail(s1, other) == s1
        }),
{
}

/// The answers to requests with token `t` and fingerprint `fp` that reach
/// the store one after another at the given times, starting from `s`.
pub open spec fn claims_from(s: StoreView, t: u128, fp: u64, times: Seq<u64>) -> Seq<ClaimView>
    decreases times.len(),
{
    if times.len() == 0 {
        Seq::empty()
    } else {
        seq![claim_spec(s, t, fp, times[0])] + claims_from(
            after_claim(s, t, fp, times[0]),
            t,
            fp,
            times.drop_first(),
        )
    }
}

/// While a token's entry is pending with fingerprint `fp`, every request
/// with that token and fingerprint before its timeout waits.
proof fn all_wait_while_pending(s: StoreView, t: u128, fp: u64, times: Seq<u64>)
    requires
        s.entries.contains_key(t),
        s.entries[t].fingerprint == fp,
        s.entries[t].state is Pending,
        forall|i: int| 0 <= i < times.len() ==> #[trigger] times[i] < s.entries[t].expires_at,
    ensures
        claims_from(s, t, fp, times).len() == times.len(),
        forall|i: int|
            0 <= i < times.len() ==> #[trigger] claims_from(s, t, fp, times)[i] == ClaimView::Wait,
    decreases times.len(),
{
    if times.len() > 0 {
        let rest = times.drop_first();
        assert forall|i: int| 0 <= i < rest.len() implies #[trigger] rest[i]
            < s.entries[t].expires_at by {
            assert(rest[i] == times[i + 1]);
        }
        all_wait_while_pending(s, t, fp, rest);
        let out = claims_from(s, t, fp, times);
        assert forall|i: int| 0 <= i < times.len() implies #[trigger] out[i] == ClaimView::Wait by {
            if i > 0 {
                assert(out[i] == claims_from(s, t, fp, rest)[i - 1]);
            }
        }
    }
}

/// Of any number of requests with one token and one fingerprint that reach
/// a store with no live entry for the token, each before the first one's
/// pending timeout, exactly the first is granted the execution and every
/// other one waits.
pub proof fn duplicates_execute_once(s: StoreView, t: u128, fp: u64, times: Seq<u64>)
    requires
        times.len() >= 1,
        !(s.entries.contains_key(t) && is_live(s.entries[t], times[0])),
        forall|i: int|
            0 <= i < times.len() ==> #[trigger] times[i] < sat_add(times[0], s.pending_timeout),
    ensures
        claims_from(s, t, fp, times).len() == times.len(),
        claims_from(s, t, fp, times)[0] is Granted,
        forall|i: int|
            1 <= i < times.len() ==> #[trigger] claims_from(s, t, fp, times)[i] == ClaimView::Wait,
{
    let s1 = after_claim(s, t, fp, times[0]);
    let rest = times.drop_first();
    assert(s1.entries[t].state == StateView::Pending(s.next_claim));
    assert forall|i: int| 0 <= i < rest.len() implies #[trigger] rest[i]
        < s1.entries[t].expires_at by {
        assert(rest[i] == times[i + 1]);
    }
    all_wait_while_pending(s1, t, fp, rest);
    let out = claims_from(s, t, fp, times);
    assert forall|i: int| 1 <= i < times.len() implies #[trigger] out[i] == ClaimView::Wait by {
        assert(out[i] == claims_from(s1, t, fp, rest)[i - 1]);
    }
}

/// Once the one execution has completed with response `r`, every waiter
/// that asks again within the time to live gets `r`: all of them see the
/// same status, headers and body.
pub proof fn waiters_all_replay(s: StoreView, tk: Ticket, r: CacheView, now: u64, times: Seq<u64>)
    requires
        holds(s, tk),
        forall|i: int| 0 <= i < times.len() ==> #[trigger] times[i] < sat_add(now, s.ttl),
    ensures
        forall|i: int|
            0 <= i < times.len() ==> #[trigger] resume_spec(
                after_complete(s, tk, r, now),
                tk.token,
                tk.fingerprint,
                times[i],
            ) == DecisionView::Replay(r),
{
}

} // verus!
