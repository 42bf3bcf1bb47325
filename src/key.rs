//! Extraction and validation of the idempotency token.
use vstd::prelude::*;

verus! {

/// The header that carries the token unless configured otherwise.
pub const HEADER_KEY: &'static str = "Idempotency-Key";

/// What `uuid::Uuid::try_parse_ascii` yields for a byte string, as the
/// 128-bit value of the UUID, or `None` where the bytes are not a UUID.
pub uninterp spec fn uuid_of(b: Seq<u8>) -> Option<u128>;

/// Relies on `uuid::Uuid::try_parse_ascii` (and `Uuid::as_u128`): the
/// outcome depends on the bytes alone, and only inputs of 32, 36, 38 or 45
/// bytes (simple, hyphenated, braced, URN forms) can parse.
#[verifier::external_body]
fn parse_uuid(b: &[u8]) -> (r: Option<u128>)
    ensures
        r == uuid_of(b@),
        r is Some ==> (b@.len() == 32 || b@.len() == 36 || b@.len() == 38 || b@.len() == 45),
{
    uuid::Uuid::try_parse_ascii(b).ok().map(|u| u.as_u128())
}

/// The protocol errors that the coordinator renders itself.
#[derive(Clone, Copy, Debug, PartialEq, Eq, Structural)]
pub enum IdempotencyError {
    /// The request carries no idempotency header.
    Missing,
    /// The header is present but its value is not a well-formed token.
    Malformed,
    /// The token was used before with a different request.
    AlreadyExists,
    /// The body is over the configured limit for fingerprinting.
    BodyTooLarge,
}

impl IdempotencyError {
    /// The HTTP status code of the error response.
    pub open spec fn status_spec(self) -> u16 {
        match self {
            IdempotencyError::Missing => 400,
            IdempotencyError::Malformed => 400,
            IdempotencyError::AlreadyExists => 409,
            IdempotencyError::BodyTooLarge => 413,
        }
    }

    /// The code carried in the `error` field of the JSON body.
    pub open spec fn code_spec(self) -> Seq<char> {
        match self {
            IdempotencyError::Missing => "MISSING"@,
            IdempotencyError::Malformed => "MALFORMED"@,
            IdempotencyError::AlreadyExists => "ALREADY_EXISTS"@,
            IdempotencyError::BodyTooLarge => "BODY_TOO_LARGE"@,
        }
    }

    /// The HTTP status code of the error response.
    pub fn status(&self) -> (r: u16)
        ensures
            r == self.status_spec(),
    {
        match self {
            IdempotencyError::Missing | IdempotencyError::Malformed => 400,
            IdempotencyError::AlreadyExists => 409,
            IdempotencyError::BodyTooLarge => 413,
        }
    }

    /// The code carried in the `error` field of the JSON body.
    pub fn code(&self) -> (r: &'static str)
        ensures
            r@ == self.code_spec(),
    {
        match self {
            IdempotencyError::Missing => "MISSING",
            IdempotencyError::Malformed => "MALFORMED",
            IdempotencyError::AlreadyExists => "ALREADY_EXISTS",
            IdempotencyError::BodyTooLarge => "BODY_TOO_LARGE",
        }
    }
}

/// The token that a header value yields, given what the UUID parser made of
/// it: a missing header and an unparsable value are told apart.
pub open spec fn key_spec(header: Option<Seq<u8>>) -> Result<u128, IdempotencyError> {
    match header {
        None => Err(IdempotencyError::Missing),
        Some(b) => match uuid_of(b) {
            Some(t) => Ok(t),
            None => Err(IdempotencyError::Malformed),
        },
    }
}

/// Decides the token from whether the header was present and what the UUID
/// parser returned for its value.
pub fn classify_key(present: bool, parsed: Option<u128>) -> (r: Result<u128, IdempotencyError>)
    ensures
        !present ==> r == Err::<u128, IdempotencyError>(IdempotencyError::Missing),
        present && parsed is None ==> r == Err::<u128, IdempotencyError>(
            IdempotencyError::Malformed,
        ),
        present && parsed is Some ==> r == Ok::<u128, IdempotencyError>(parsed->0),
{
    if !present {
        Err(IdempotencyError::Missing)
    } else {
        match parsed {
            Some(t) => Ok(t),
            None => Err(IdempotencyError::Malformed),
        }
    }
}

/// Extracts the token from the raw value of the idempotency header, `None`
/// where the request has no such header.
pub fn extract_key(header: Option<&[u8]>) -> (r: Result<u128, IdempotencyError>)
    ensures
        r == key_spec(
            match header {
                Some(b) => Some(b@),
                None => None,
            },
        ),
{
    match header {
        None => classify_key(false, None),
        Some(b) => {
            let parsed = parse_uuid(b);
            classify_key(true, parsed)
        },
    }
}

} // verus!
