use idempotency::coordinator::{Decision, Idempotency};
use idempotency::fingerprint::{bounded_fingerprint, fingerprint, hash_from, FNV_OFFSET};
use idempotency::key::{classify_key, extract_key, HEADER_KEY};
use idempotency::response::{is_hop_by_hop, CacheElement};
use idempotency::store::{ClaimOutcome, EntryStore, Lookup, Ticket};
use idempotency::IdempotencyError;

const T1: &str = "67e55044-10b1-426f-9247-bb680e5fe0c8";
const T1_VALUE: u128 = 0x67e5504410b1426f9247bb680e5fe0c8;

fn header(name: &str, value: &str) -> (Vec<u8>, Vec<u8>) {
    (name.as_bytes().to_vec(), value.as_bytes().to_vec())
}

fn config() -> Idempotency {
    Idempotency::new()
}

fn execute(d: Decision) -> Ticket {
    match d {
        Decision::Execute(tk) => tk,
        _ => panic!("expected the handler to be invoked"),
    }
}

fn replay(d: Decision) -> CacheElement {
    match d {
        Decision::Replay(r) => r,
        _ => panic!("expected a replay"),
    }
}

fn reject(d: Decision) -> IdempotencyError {
    match d {
        Decision::Reject(e) => e,
        _ => panic!("expected a rejection"),
    }
}

#[test]
fn error_statuses_and_codes() {
    assert_eq!(IdempotencyError::Missing.status(), 400);
    assert_eq!(IdempotencyError::Malformed.status(), 400);
    assert_eq!(IdempotencyError::AlreadyExists.status(), 409);
    assert_eq!(IdempotencyError::BodyTooLarge.status(), 413);
    assert_eq!(IdempotencyError::Missing.code(), "MISSING");
    assert_eq!(IdempotencyError::Malformed.code(), "MALFORMED");
    assert_eq!(IdempotencyError::AlreadyExists.code(), "ALREADY_EXISTS");
    assert_eq!(IdempotencyError::BodyTooLarge.code(), "BODY_TOO_LARGE");
}

#[test]
fn key_parses_uuid_forms() {
    assert_eq!(extract_key(Some(T1.as_bytes())), Ok(T1_VALUE));
    let simple = "67e5504410b1426f9247bb680e5fe0c8";
    assert_eq!(extract_key(Some(simple.as_bytes())), Ok(T1_VALUE));
    let braced = "{67e55044-10b1-426f-9247-bb680e5fe0c8}";
    assert_eq!(extract_key(Some(braced.as_bytes())), Ok(T1_VALUE));
}

#[test]
fn key_missing_and_malformed() {
    assert_eq!(extract_key(None), Err(IdempotencyError::Missing));
    assert_eq!(extract_key(Some(&b""[..])), Err(IdempotencyError::Malformed));
    assert_eq!(extract_key(Some(&b"not-a-uuid"[..])), Err(IdempotencyError::Malformed));
    assert_eq!(
        extract_key(Some(&b"67e55044-10b1-426f-9247-bb680e5fe0cz"[..])),
        Err(IdempotencyError::Malformed)
    );
}

#[test]
fn classify_key_cases() {
    assert_eq!(classify_key(false, Some(3)), Err(IdempotencyError::Missing));
    assert_eq!(classify_key(true, None), Err(IdempotencyError::Malformed));
    assert_eq!(classify_key(true, Some(3)), Ok(3));
}

#[test]
fn fnv_known_values() {
    assert_eq!(hash_from(FNV_OFFSET, b""), 0xcbf29ce484222325);
    assert_eq!(hash_from(FNV_OFFSET, b"a"), 0xaf63dc4c8601ec8c);
    assert_eq!(fingerprint(b"POST", b"/pay", b"{\"amt\":5}"), 0x59d69b6d717588c9);
    assert_eq!(fingerprint(b"", b"", b""), 0x0a99c907b6f64763);
}

#[test]
fn fingerprint_separates_parts() {
    assert_ne!(fingerprint(b"POST", b"/pay", b"x"), fingerprint(b"POST", b"/payx", b""));
    assert_ne!(fingerprint(b"POST", b"/pay", b"{\"amt\":5}"), fingerprint(b"POST", b"/pay", b"{\"amt\":7}"));
    assert_eq!(fingerprint(b"PATCH", b"/a", b"b"), fingerprint(b"PATCH", b"/a", b"b"));
}

#[test]
fn body_limit() {
    assert_eq!(bounded_fingerprint(b"POST", b"/", b"abc", 2), None);
    assert_eq!(bounded_fingerprint(b"POST", b"/", b"abc", 3), Some(fingerprint(b"POST", b"/", b"abc")));
    let cfg = Idempotency { max_body_bytes: 2, ..Idempotency::new() };
    let mut store = cfg.new_store();
    let d = cfg.begin(&mut store, Some(T1.as_bytes()), b"POST", b"/", b"abc", 0);
    assert_eq!(reject(d), IdempotencyError::BodyTooLarge);
    assert!(matches!(store.lookup(T1_VALUE, 0, 0), Lookup::Absent));
}

#[test]
fn hop_by_hop_names() {
    assert!(is_hop_by_hop(b"connection"));
    assert!(is_hop_by_hop(b"Transfer-Encoding"));
    assert!(is_hop_by_hop(b"TE"));
    assert!(is_hop_by_hop(b"keep-alive"));
    assert!(!is_hop_by_hop(b"content-type"));
    assert!(!is_hop_by_hop(b"tee"));
}

#[test]
fn capture_drops_hop_by_hop_headers() {
    let headers = vec![
        header("content-type", "application/json"),
        header("Connection", "keep-alive"),
        header("x-request-id", "7"),
        header("upgrade", "h2c"),
    ];
    let e = CacheElement::capture(201, &headers, b"{}".to_vec(), 42);
    assert_eq!(e.statuscode(), 201);
    assert_eq!(e.response(), &b"{}".to_vec());
    assert_eq!(e.created_at(), 42);
    assert_eq!(
        e.headers(),
        &vec![header("content-type", "application/json"), header("x-request-id", "7")]
    );
    let d = e.duplicate();
    assert_eq!(d.headers(), e.headers());
    assert_eq!(d.response(), e.response());
    assert_eq!(d.statuscode(), e.statuscode());
}

#[test]
fn defaults() {
    let cfg = config();
    assert_eq!(cfg.header_name, HEADER_KEY);
    assert_eq!(cfg.header_name, "Idempotency-Key");
    assert_eq!(cfg.ttl_ms, 86_400_000);
    assert_eq!(cfg.max_body_bytes, 1_048_576);
    assert_eq!(cfg.pending_timeout_ms, 30_000);
    let store = cfg.new_store();
    assert_eq!(store.ttl(), 86_400_000);
    assert_eq!(store.pending_timeout(), 30_000);
}

#[test]
fn missing_header_is_rejected_without_claim() {
    let cfg = config();
    let mut store = cfg.new_store();
    let d = cfg.begin(&mut store, None, b"POST", b"/pay", b"{}", 10);
    let e = reject(d);
    assert_eq!(e, IdempotencyError::Missing);
    assert_eq!(e.status(), 400);
    assert_eq!(e.code(), "MISSING");
    assert!(matches!(store.lookup(T1_VALUE, 0, 10), Lookup::Absent));
}

#[test]
fn malformed_header_is_rejected_without_claim() {
    let cfg = config();
    let mut store = cfg.new_store();
    let d = cfg.begin(&mut store, Some(&b"T1"[..]), b"POST", b"/pay", b"{}", 10);
    let e = reject(d);
    assert_eq!(e, IdempotencyError::Malformed);
    assert_eq!(e.status(), 400);
    assert_eq!(e.code(), "MALFORMED");
}

#[test]
fn concurrent_duplicates_execute_once() {
    let cfg = config();
    let mut store = cfg.new_store();
    let body = b"{\"amt\":5}";
    let tk = execute(cfg.begin(&mut store, Some(T1.as_bytes()), b"POST", b"/pay", body, 100));
    assert_eq!(tk.token, T1_VALUE);
    let mut waiting = 0;
    for i in 0..5u64 {
        match cfg.begin(&mut store, Some(T1.as_bytes()), b"POST", b"/pay", body, 101 + i) {
            Decision::Wait { token, fingerprint: fp } => {
                assert_eq!(token, T1_VALUE);
                assert_eq!(fp, tk.fingerprint);
                waiting += 1;
            }
            _ => panic!("a duplicate must wait"),
        }
    }
    assert_eq!(waiting, 5);
    let headers = vec![header("content-type", "application/json")];
    assert!(cfg.succeed(&mut store, tk, 201, &headers, b"{\"id\":\"x\"}".to_vec(), 200));
    for _ in 0..5 {
        let r = replay(cfg.resume(&store, tk.token, tk.fingerprint, 201));
        assert_eq!(r.statuscode(), 201);
        assert_eq!(r.headers(), &headers);
        assert_eq!(r.response(), &b"{\"id\":\"x\"}".to_vec());
    }
}

#[test]
fn other_fingerprint_conflicts_while_pending_and_after() {
    let cfg = config();
    let mut store = cfg.new_store();
    let tk = execute(cfg.begin(&mut store, Some(T1.as_bytes()), b"POST", b"/pay", b"{\"amt\":5}", 0));
    let d = cfg.begin(&mut store, Some(T1.as_bytes()), b"POST", b"/pay", b"{\"amt\":7}", 1);
    assert_eq!(reject(d), IdempotencyError::AlreadyExists);
    assert!(cfg.succeed(&mut store, tk, 201, &vec![], b"ok".to_vec(), 2));
    let d = cfg.begin(&mut store, Some(T1.as_bytes()), b"POST", b"/pay", b"{\"amt\":7}", 3);
    assert_eq!(reject(d), IdempotencyError::AlreadyExists);
    let r = replay(cfg.begin(&mut store, Some(T1.as_bytes()), b"POST", b"/pay", b"{\"amt\":5}", 4));
    assert_eq!(r.response(), &b"ok".to_vec());
}

#[test]
fn replay_twice_is_identical() {
    let cfg = config();
    let mut store = cfg.new_store();
    let tk = execute(cfg.begin(&mut store, Some(T1.as_bytes()), b"PUT", b"/r", b"b", 0));
    let headers = vec![header("etag", "\"1\""), header("x-a", "b")];
    assert!(cfg.succeed(&mut store, tk, 200, &headers, vec![0, 1, 2, 255], 5));
    let a = replay(cfg.begin(&mut store, Some(T1.as_bytes()), b"PUT", b"/r", b"b", 6));
    let b = replay(cfg.begin(&mut store, Some(T1.as_bytes()), b"PUT", b"/r", b"b", 7));
    assert_eq!(a.statuscode(), b.statuscode());
    assert_eq!(a.headers(), b.headers());
    assert_eq!(a.response(), b.response());
    assert_eq!(a.response(), &vec![0, 1, 2, 255]);
}

#[test]
fn expired_entry_is_claimed_afresh() {
    let cfg = Idempotency { ttl_ms: 1000, ..Idempotency::new() };
    let mut store = cfg.new_store();
    let tk = execute(cfg.begin(&mut store, Some(T1.as_bytes()), b"POST", b"/pay", b"{\"amt\":5}", 0));
    assert!(cfg.succeed(&mut store, tk, 201, &vec![], b"x".to_vec(), 10));
    let d = cfg.begin(&mut store, Some(T1.as_bytes()), b"POST", b"/pay", b"{\"amt\":7}", 1009);
    assert_eq!(reject(d), IdempotencyError::AlreadyExists);
    let tk2 = execute(cfg.begin(&mut store, Some(T1.as_bytes()), b"POST", b"/pay", b"{\"amt\":7}", 1010));
    assert_ne!(tk2.claim, tk.claim);
    assert_ne!(tk2.fingerprint, tk.fingerprint);
}

#[test]
fn expire_removes_only_dead_entries() {
    let mut store = EntryStore::new(100, 50);
    let tk = match store.try_claim(9, 1, 0) {
        ClaimOutcome::Granted(tk) => tk,
        _ => panic!("claim on an empty store"),
    };
    assert!(!store.expire(9, 49));
    assert!(store.expire(9, 50));
    assert!(!store.expire(9, 51));
    assert!(!store.fail(tk));
    assert!(matches!(store.lookup(9, 1, 51), Lookup::Absent));
}

#[test]
fn failure_allows_retry() {
    let cfg = config();
    let mut store = cfg.new_store();
    let tk = execute(cfg.begin(&mut store, Some(T1.as_bytes()), b"POST", b"/pay", b"{\"amt\":5}", 0));
    assert!(cfg.abandon(&mut store, tk));
    assert!(matches!(cfg.resume(&store, tk.token, tk.fingerprint, 1), Decision::Abandoned));
    let tk2 = execute(cfg.begin(&mut store, Some(T1.as_bytes()), b"POST", b"/pay", b"{\"amt\":5}", 2));
    assert_eq!(tk2.fingerprint, tk.fingerprint);
    assert_eq!(tk2.claim, tk.claim + 1);
}

#[test]
fn pending_timeout_gives_up_claim() {
    let cfg = Idempotency { pending_timeout_ms: 100, ..Idempotency::new() };
    let mut store = cfg.new_store();
    let tk = execute(cfg.begin(&mut store, Some(T1.as_bytes()), b"POST", b"/", b"", 0));
    assert!(matches!(cfg.begin(&mut store, Some(T1.as_bytes()), b"POST", b"/", b"", 99), Decision::Wait { .. }));
    let tk2 = execute(cfg.begin(&mut store, Some(T1.as_bytes()), b"POST", b"/", b"", 100));
    // the stale ticket no longer holds the entry
    assert!(!cfg.succeed(&mut store, tk, 200, &vec![], vec![], 101));
    assert!(!cfg.abandon(&mut store, tk));
    assert!(cfg.succeed(&mut store, tk2, 204, &vec![], vec![], 102));
    let r = replay(cfg.begin(&mut store, Some(T1.as_bytes()), b"POST", b"/", b"", 103));
    assert_eq!(r.statuscode(), 204);
}

#[test]
fn stored_response_is_not_overwritten() {
    let mut store = EntryStore::new(1000, 1000);
    let tk = match store.try_claim(1, 2, 0) {
        ClaimOutcome::Granted(tk) => tk,
        _ => panic!("claim on an empty store"),
    };
    assert!(store.complete(tk, CacheElement::capture(200, &vec![], b"first".to_vec(), 1), 1));
    assert!(!store.complete(tk, CacheElement::capture(500, &vec![], b"second".to_vec(), 2), 2));
    match store.try_claim(1, 2, 3) {
        ClaimOutcome::Replay(r) => {
            assert_eq!(r.statuscode(), 200);
            assert_eq!(r.response(), &b"first".to_vec());
        }
        _ => panic!("expected a replay"),
    }
}

#[test]
fn scenario_amount_replay_and_conflict() {
    let cfg = config();
    let mut store = cfg.new_store();
    let tk = execute(cfg.begin(&mut store, Some(T1.as_bytes()), b"POST", b"/pay", b"{\"amt\":5}", 0));
    assert!(cfg.succeed(&mut store, tk, 201, &vec![], b"{\"id\":\"x\"}".to_vec(), 1));
    let r = replay(cfg.begin(&mut store, Some(T1.as_bytes()), b"POST", b"/pay", b"{\"amt\":5}", 2));
    assert_eq!(r.statuscode(), 201);
    assert_eq!(r.response(), &b"{\"id\":\"x\"}".to_vec());
    let e = reject(cfg.begin(&mut store, Some(T1.as_bytes()), b"POST", b"/pay", b"{\"amt\":7}", 3));
    assert_eq!(e, IdempotencyError::AlreadyExists);
    assert_eq!(e.status(), 409);
    assert_eq!(e.code(), "ALREADY_EXISTS");
}

#[test]
fn sweep_removes_expired_entries_only() {
    let mut store = EntryStore::new(100, 10);
    let done = match store.try_claim(1, 11, 0) {
        ClaimOutcome::Granted(tk) => tk,
        _ => panic!("claim on an empty store"),
    };
    assert!(store.complete(done, CacheElement::capture(200, &vec![], vec![1], 0), 0));
    assert!(matches!(store.try_claim(2, 22, 0), ClaimOutcome::Granted(_)));
    assert!(matches!(store.try_claim(3, 33, 95), ClaimOutcome::Granted(_)));
    assert_eq!(store.len(), 3);
    store.sweep(50);
    // the pending entry of token 2 timed out at 10
    assert_eq!(store.len(), 2);
    assert!(matches!(store.lookup(2, 22, 50), Lookup::Absent));
    store.sweep(100);
    // token 1 expired at 100, token 3 lives until 105
    assert_eq!(store.len(), 1);
    assert!(matches!(store.lookup(3, 33, 100), Lookup::Pending));
    store.sweep(105);
    assert_eq!(store.len(), 0);
    assert!(matches!(store.try_claim(1, 99, 106), ClaimOutcome::Granted(_)));
    assert_eq!(store.len(), 1);
}
