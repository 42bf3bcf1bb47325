//! Idempotency-key enforcement for non-idempotent HTTP operations.
//!
//! A request carries a client-chosen token in a header. The library checks
//! the token, fingerprints the request, and decides against an entry store
//! whether the wrapped handler runs, a stored response is replayed, the
//! request conflicts with an earlier use of the token, or it must wait for
//! an execution that is still in flight.
pub mod coordinator;
pub mod fingerprint;
pub mod key;
pub mod laws;
pub mod response;
pub mod store;

pub use coordinator::{Decision, Idempotency};
pub use key::IdempotencyError;
pub use response::CacheElement;
pub use store::{ClaimOutcome, EntryStore, Ticket};
