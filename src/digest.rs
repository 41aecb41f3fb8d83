//! The registry of digest algorithms for key secrets.

use vstd::prelude::*;
use vstd::string::StringExecFns;
use sha2::Digest;
use crate::key::ParseError;
use crate::key::default_algorithm;

verus! {

/// The lowercase hex SHA-256 digest of the UTF-8 bytes of a text.
pub uninterp spec fn sha256_hex_of(text: Seq<char>) -> Seq<char>;

/// A digit or a lowercase letter from `a` to `f`.
pub open spec fn is_lower_hex(c: char) -> bool {
    ('0' <= c && c <= '9') || ('a' <= c && c <= 'f')
}

/// A SHA-256 digest as stored: 64 lowercase hex digits.
pub open spec fn is_sha256_hex(h: Seq<char>) -> bool {
    h.len() == 64 && forall|i: int| 0 <= i < h.len() ==> is_lower_hex(#[trigger] h[i])
}

/// Relies on `sha2::Sha256::digest` over the UTF-8 bytes of `text`, printed
/// through the `LowerHex` impl of its output array: two lowercase hex digits
/// for each of its 32 bytes.
#[verifier::external_body]
fn sha256_hex(text: &str) -> (r: String)
    ensures
        r@ == sha256_hex_of(text@),
        is_sha256_hex(r@),
{
    format!("{:x}", sha2::Sha256::digest(text.as_bytes()))
}

/// The stored digest of `secret` under the algorithm named `algorithm`, or
/// `None` where no such algorithm is registered.
pub open spec fn digest_spec(algorithm: Seq<char>, secret: Seq<char>) -> Option<Seq<char>> {
    if algorithm == default_algorithm() {
        Some(sha256_hex_of(secret))
    } else {
        None
    }
}

/// Digests a secret with the named algorithm; an unknown name is refused.
pub fn digest(algorithm: &str, secret: &str) -> (r: Result<String, ParseError>)
    ensures
        match r {
            Ok(h) => digest_spec(algorithm@, secret@) == Some(h@) && is_sha256_hex(h@),
            Err(e) => {
                &&& digest_spec(algorithm@, secret@) is None
                &&& e matches ParseError::UnknownHashAlgorithm(a)
                &&& a@ == algorithm@
            },
        },
{
    let name = String::from_str(algorithm);
    let sha256 = String::from_str("SHA256");
    proof {
        reveal_strlit("SHA256");
        assert(sha256@ =~= default_algorithm());
    }
    if name == sha256 {
        Ok(sha256_hex(secret))
    } else {
        Err(ParseError::UnknownHashAlgorithm(name))
    }
}

/// Digesting is a function of its inputs: two digests of one secret under
/// one algorithm agree.
pub proof fn lemma_digest_deterministic(
    algorithm: Seq<char>,
    secret: Seq<char>,
    first: Option<Seq<char>>,
    second: Option<Seq<char>>,
)
    requires
        first == digest_spec(algorithm, secret),
        second == digest_spec(algorithm, secret),
    ensures
        first == second,
{
}

} // verus!
