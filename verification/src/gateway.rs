//! Write authorisation for the gateway's write endpoint, and the summary a
//! CAR import reports. The decision — disabled, open, or guarded by an
//! HS256 JSON Web Token — is taken here over plain values; HTTP extraction
//! stays outside.

use vstd::prelude::*;
use jsonwebtoken::errors::Error as JwtLibError;
use vstd::string::StringSliceAdditionalSpecFns;

verus! {

/// The error type of the JSON Web Token library.
#[verifier::external_type_specification]
#[verifier::external_body]
pub struct ExJwtError(JwtLibError);

/// Relies on jsonwebtoken::decode with `Validation::new(HS256)`: it accepts
/// exactly the tokens signed with the secret under HS256 whose expiry
/// claim is present and not in the past. The outcome depends on the clock,
/// so nothing more is assumed of it.
#[verifier::external_body]
fn decode_hs256(secret: &Vec<u8>, token: &str) -> (r: Result<(), JwtLibError>)
{
    let key = jsonwebtoken::DecodingKey::from_secret(secret.as_slice());
    let validation = jsonwebtoken::Validation::new(jsonwebtoken::Algorithm::HS256);
    match jsonwebtoken::decode::<serde_json::Value>(token, &key, &validation) {
        Ok(_) => Ok(()),
        Err(e) => Err(e),
    }
}

/// Validation settings for the write endpoint's bearer tokens: the HS256
/// secret they must be signed with.
#[derive(Debug)]
pub struct JwtConfig {
    pub secret: Vec<u8>,
}

impl JwtConfig {
    /// A configuration validating HS256 tokens signed with `secret`.
    pub fn from_secret_hs256(secret: &str) -> (r: Result<JwtConfig, JwtLibError>)
        ensures
            match r {
                Result::Ok(c) => c.secret@ == secret.spec_bytes(),
                Result::Err(_) => false,
            },
    {
        let mut bytes: Vec<u8> = Vec::new();
        let s = secret.as_bytes();
        let mut i: usize = 0;
        let n: usize = s.len();
        while i < n
            invariant
                i <= n,
                n == s@.len(),
                bytes@ == s@.take(i as int),
            decreases n - i,
        {
            bytes.push(*vstd::slice::slice_index_get(s, i));
            i = i + 1;
            proof {
                assert(s@.take(i as int) =~= s@.take(i - 1).push(s@[i - 1]));
            }
        }
        proof {
            assert(s@.take(n as int) =~= s@);
        }
        Result::Ok(JwtConfig { secret: bytes })
    }
}

/// How the write endpoint is guarded.
#[derive(Debug)]
pub enum WriteableConfig {
    /// Writing is switched off.
    Disabled,
    /// Anybody may write.
    Unprotected,
    /// A valid bearer token is required.
    Jwt(JwtConfig),
}

/// Proof that a request may write: produced only by the checks below.
#[derive(Debug)]
pub struct WriteCapability;

/// Why a write request was turned away.
#[derive(Debug)]
pub enum AuthError {
    /// The gateway is not writable.
    WritingDisabled,
    /// No bearer token came with the request.
    MissingToken,
    /// The bearer token failed validation.
    InvalidToken(JwtLibError),
}

impl AuthError {
    /// The HTTP status code this error is reported as: 501 for a read-only
    /// gateway, 401 for a missing or invalid token.
    pub fn status_code(&self) -> (r: u16)
        ensures
            r == match *self {
                AuthError::WritingDisabled => 501u16,
                AuthError::MissingToken => 401u16,
                AuthError::InvalidToken(_) => 401u16,
            },
    {
        match self {
            AuthError::WritingDisabled => 501,
            AuthError::MissingToken => 401,
            AuthError::InvalidToken(_) => 401,
        }
    }

    /// The human-readable message for this error.
    pub fn message(&self) -> (r: String)
        ensures
            r@ == match *self {
                AuthError::WritingDisabled => ("This gateway is not writable")@,
                AuthError::MissingToken => ("Authentication token is required")@,
                AuthError::InvalidToken(_) => ("Authentication token is invalid")@,
            },
    {
        match self {
            AuthError::WritingDisabled => ("This gateway is not writable").to_owned(),
            AuthError::MissingToken => ("Authentication token is required").to_owned(),
            AuthError::InvalidToken(_) => ("Authentication token is invalid").to_owned(),
        }
    }
}

impl WriteCapability {
    /// Turns the outcome of a token validation into the write decision: a
    /// validated token grants the capability, a rejected one is reported
    /// as invalid with the library's error.
    pub fn from_validation(validation: Result<(), JwtLibError>) -> (r: Result<
        WriteCapability,
        AuthError,
    >)
        ensures
            r is Ok <==> validation is Ok,
            r is Err ==> r->Err_0 matches AuthError::InvalidToken(_),
    {
        match validation {
            Result::Ok(_) => Result::Ok(WriteCapability),
            Result::Err(e) => Result::Err(AuthError::InvalidToken(e)),
        }
    }

    /// Decides whether a request may write: rejected outright on a
    /// read-only gateway, admitted freely on an unprotected one, and
    /// otherwise exactly when the bearer token is present and validates
    /// under the configured secret.
    pub fn from_request(config: &WriteableConfig, bearer_token: Option<&str>) -> (r: Result<
        WriteCapability,
        AuthError,
    >)
        ensures
            match *config {
                WriteableConfig::Disabled => r matches Result::Err(AuthError::WritingDisabled),
                WriteableConfig::Unprotected => r is Ok,
                WriteableConfig::Jwt(_) => match bearer_token {
                    Option::None => r matches Result::Err(AuthError::MissingToken),
                    Option::Some(_) => r is Ok || (r->Err_0 matches AuthError::InvalidToken(_)),
                },
            },
    {
        match config {
            WriteableConfig::Disabled => Result::Err(AuthError::WritingDisabled),
            WriteableConfig::Unprotected => Result::Ok(WriteCapability),
            WriteableConfig::Jwt(jwt_config) => {
                match bearer_token {
                    Option::None => Result::Err(AuthError::MissingToken),
                    Option::Some(token) => Self::from_validation(
                        decode_hs256(&jwt_config.secret, token),
                    ),
                }
            },
        }
    }
}

/// The summary a CAR import reports back.
#[derive(Debug)]
pub struct WriteCarOutputSerializable {
    pub roots: Vec<String>,
    pub blocks: usize,
    pub bytes: usize,
    pub success: bool,
}

/// The total of a sequence of block sizes.
pub open spec fn sum_of(s: Seq<usize>) -> int
    decreases s.len(),
{
    if s.len() == 0 {
        0
    } else {
        sum_of(s.drop_last()) + s.last()
    }
}

/// Summarises a finished CAR import: how many blocks were written, their
/// total size, and the root identifiers, marked successful.
pub fn summarize_car_write(roots: Vec<String>, block_sizes: &Vec<usize>) -> (r:
    WriteCarOutputSerializable)
    requires
        sum_of(block_sizes@) <= usize::MAX,
    ensures
        r.success,
        r.roots == roots,
        r.blocks == block_sizes@.len(),
        r.bytes == sum_of(block_sizes@),
{
    let n: usize = block_sizes.len();
    let mut total: usize = 0;
    let mut i: usize = 0;
    while i < n
        invariant
            i <= n,
            n == block_sizes@.len(),
            total == sum_of(block_sizes@.take(i as int)),
            sum_of(block_sizes@) <= usize::MAX,
        decreases n - i,
    {
        proof {
            assert(block_sizes@.take(i + 1).drop_last() =~= block_sizes@.take(i as int));
            lemma_sum_prefix_bound(block_sizes@, i + 1);
        }
        total = total + block_sizes[i];
        i = i + 1;
    }
    proof {
        assert(block_sizes@.take(n as int) =~= block_sizes@);
    }
    WriteCarOutputSerializable { roots, blocks: n, bytes: total, success: true }
}

/// Every prefix sum of non-negative sizes is at most the whole sum.
proof fn lemma_sum_prefix_bound(s: Seq<usize>, k: int)
    requires
        0 <= k <= s.len(),
    ensures
        sum_of(s.take(k)) <= sum_of(s),
    decreases s.len() - k,
{
    if k < s.len() {
        lemma_sum_prefix_bound(s, k + 1);
        assert(s.take(k + 1).drop_last() =~= s.take(k));
        assert(sum_of(s.take(k)) <= sum_of(s.take(k + 1)));
    } else {
        assert(s.take(k) =~= s);
    }
}

} // verus!
