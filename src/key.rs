//! Textual API keys of the form `prefix.algorithm:secret`.

use vstd::prelude::*;
use vstd::string::StrSliceExecFns;
use vstd::string::StringExecFns;
use rand::Rng;
use vstd::utf8::encode_utf8;
use vstd::utf8::is_ascii_chars;
use vstd::utf8::is_ascii_chars_encode_utf8;
use crate::digest::digest;
use crate::digest::digest_spec;
use crate::digest::is_sha256_hex;

verus! {

/// Number of characters in the public prefix of a key.
pub const PREFIX_SIZE: usize = 7;

/// Number of characters in the secret part of a key.
pub const API_KEY_SIZE: usize = 53;

/// The three parts of a key, as character sequences.
pub struct KeyParts {
    pub prefix: Seq<char>,
    pub algorithm: Seq<char>,
    pub secret: Seq<char>,
}

/// Why a key text was refused, or why its secret cannot be digested.
#[derive(Debug, PartialEq, Eq)]
pub enum ParseError {
    UnknownHashAlgorithm(String),
    MissingSeparator,
    InvalidPrefixLength(usize),
    InvalidKeyLength(usize),
}

/// The character of a decimal digit.
pub open spec fn digit_char(d: nat) -> char {
    seq!['0', '1', '2', '3', '4', '5', '6', '7', '8', '9'][d as int]
}

/// The decimal form of a natural number, without leading zeros.
pub open spec fn decimal_of(n: nat) -> Seq<char>
    decreases n,
{
    if n < 10 {
        seq![digit_char(n)]
    } else {
        decimal_of(n / 10).push(digit_char(n % 10))
    }
}

/// The one-character text of a decimal digit.
fn digit_text(d: usize) -> (r: &'static str)
    requires
        d < 10,
    ensures
        r@ =~= seq![digit_char(d as nat)],
{
    proof {
        reveal_strlit("0");
        reveal_strlit("1");
        reveal_strlit("2");
        reveal_strlit("3");
        reveal_strlit("4");
        reveal_strlit("5");
        reveal_strlit("6");
        reveal_strlit("7");
        reveal_strlit("8");
        reveal_strlit("9");
    }
    if d == 0 {
        "0"
    } else if d == 1 {
        "1"
    } else if d == 2 {
        "2"
    } else if d == 3 {
        "3"
    } else if d == 4 {
        "4"
    } else if d == 5 {
        "5"
    } else if d == 6 {
        "6"
    } else if d == 7 {
        "7"
    } else if d == 8 {
        "8"
    } else {
        "9"
    }
}

/// The decimal form of `n`.
fn decimal(n: usize) -> (r: String)
    ensures
        r@ == decimal_of(n as nat),
    decreases n,
{
    if n < 10 {
        String::from_str(digit_text(n))
    } else {
        let mut r = decimal(n / 10);
        r.append(digit_text(n % 10));
        proof {
            assert(r@ =~= decimal_of((n / 10) as nat).push(digit_char((n % 10) as nat)));
        }
        r
    }
}

/// The message that describes an error.
pub open spec fn parse_error_text(e: ParseError) -> Seq<char> {
    match e {
        ParseError::UnknownHashAlgorithm(a) => "Unknown hash algorithm: "@ + a@,
        ParseError::MissingSeparator => "API key must contain a dot and colon separator"@,
        ParseError::InvalidPrefixLength(n) => "Prefix must be exactly 7 characters, got "@
            + decimal_of(n as nat),
        ParseError::InvalidKeyLength(n) => "Key must be exactly 53, got "@ + decimal_of(n as nat),
    }
}

impl ParseError {
    /// The message that describes this error.
    pub fn to_string(&self) -> (r: String)
        ensures
            r@ == parse_error_text(*self),
    {
        match self {
            ParseError::UnknownHashAlgorithm(a) => {
                let mut r = String::from_str("Unknown hash algorithm: ");
                r.append(a.as_str());
                r
            },
            ParseError::MissingSeparator => String::from_str(
                "API key must contain a dot and colon separator",
            ),
            ParseError::InvalidPrefixLength(n) => {
                let mut r = String::from_str("Prefix must be exactly 7 characters, got ");
                let d = decimal(*n);
                r.append(d.as_str());
                r
            },
            ParseError::InvalidKeyLength(n) => {
                let mut r = String::from_str("Key must be exactly 53, got ");
                let d = decimal(*n);
                r.append(d.as_str());
                r
            },
        }
    }
}

/// Number of bytes in the UTF-8 encoding of a text, as `str::len` gives it.
pub open spec fn byte_len(s: Seq<char>) -> usize {
    encode_utf8(s).len() as usize
}

/// The full text form `prefix.algorithm:secret`.
pub open spec fn format_spec(k: KeyParts) -> Seq<char> {
    k.prefix + seq!['.'] + k.algorithm + seq![':'] + k.secret
}

/// Parts that every parsed or generated key has.
pub open spec fn valid_parts(k: KeyParts) -> bool {
    &&& byte_len(k.prefix) == PREFIX_SIZE
    &&& !k.prefix.contains('.')
    &&& !k.algorithm.contains(':')
    &&& byte_len(k.secret) == API_KEY_SIZE
}

/// What parsing a text gives: split at the first `.`, then at the first `:`
/// after it, then check the byte lengths of the prefix and of the secret in
/// turn.
pub open spec fn parse_spec(s: Seq<char>) -> Result<KeyParts, ParseError> {
    match s.index_of_first('.') {
        None => Err(ParseError::MissingSeparator),
        Some(d) => {
            let rest = s.subrange(d + 1, s.len() as int);
            match rest.index_of_first(':') {
                None => Err(ParseError::MissingSeparator),
                Some(c) => {
                    let prefix = s.subrange(0, d);
                    let algorithm = rest.subrange(0, c);
                    let secret = rest.subrange(c + 1, rest.len() as int);
                    if byte_len(prefix) != PREFIX_SIZE {
                        Err(ParseError::InvalidPrefixLength(byte_len(prefix)))
                    } else if byte_len(secret) != API_KEY_SIZE {
                        Err(ParseError::InvalidKeyLength(byte_len(secret)))
                    } else {
                        Ok(KeyParts { prefix, algorithm, secret })
                    }
                },
            }
        },
    }
}

/// The first index of `c` in `s`, when that index is `i`.
pub open spec fn first_at(s: Seq<char>, c: char, i: int) -> bool {
    &&& 0 <= i < s.len()
    &&& s[i] == c
    &&& forall|j: int| 0 <= j < i ==> s[j] != c
}

proof fn lemma_first_index(s: Seq<char>, c: char, i: int)
    requires
        first_at(s, c, i),
    ensures
        s.index_of_first(c) == Some(i),
{
    s.index_of_first_ensures(c);
    assert(s.contains(c)) by {
        assert(s[i] == c);
    }
}

proof fn lemma_no_index(s: Seq<char>, c: char)
    requires
        forall|j: int| 0 <= j < s.len() ==> s[j] != c,
    ensures
        s.index_of_first(c) is None,
{
    s.index_of_first_ensures(c);
}

/// Index of the first `c` in `s` at or after `from`, or the length of `s`.
fn find_char(s: &str, n: usize, from: usize, c: char) -> (r: usize)
    requires
        n == s@.len(),
        from <= n,
    ensures
        from <= r <= n,
        r < n ==> s@[r as int] == c,
        forall|j: int| from <= j < r ==> s@[j] != c,
{
    let mut i: usize = from;
    while i < n && s.get_char(i) != c
        invariant
            n == s@.len(),
            from <= i <= n,
            forall|j: int| from <= j < i ==> s@[j] != c,
        decreases n - i,
    {
        i = i + 1;
    }
    i
}

/// Name of the digest algorithm that new keys carry.
pub open spec fn default_algorithm() -> Seq<char> {
    seq!['S', 'H', 'A', '2', '5', '6']
}

/// An ASCII letter or digit.
pub open spec fn is_alphanumeric(c: char) -> bool {
    ||| '0' <= c <= '9'
    ||| 'A' <= c <= 'Z'
    ||| 'a' <= c <= 'z'
}

/// Every character is an ASCII letter or digit.
pub open spec fn all_alphanumeric(s: Seq<char>) -> bool {
    forall|i: int| 0 <= i < s.len() ==> is_alphanumeric(#[trigger] s[i])
}

proof fn lemma_alphanumeric_bytes(s: Seq<char>)
    requires
        all_alphanumeric(s),
    ensures
        byte_len(s) == s.len() as usize,
{
    assert(is_ascii_chars(s)) by {
        assert forall|i: int| 0 <= i < s.len() implies '\0' <= #[trigger] s[i] <= '\u{7f}' by {
            assert(is_alphanumeric(s[i]));
        }
    }
    is_ascii_chars_encode_utf8(s);
}

/// Parsing the full form of three parts, where the prefix holds no `.` and
/// the algorithm no `:`, finds those parts again and checks only the two
/// lengths.
pub proof fn lemma_parse_format(k: KeyParts)
    requires
        !k.prefix.contains('.'),
        !k.algorithm.contains(':'),
    ensures
        parse_spec(format_spec(k)) == if byte_len(k.prefix) != PREFIX_SIZE {
            Err::<KeyParts, ParseError>(ParseError::InvalidPrefixLength(byte_len(k.prefix)))
        } else if byte_len(k.secret) != API_KEY_SIZE {
            Err::<KeyParts, ParseError>(ParseError::InvalidKeyLength(byte_len(k.secret)))
        } else {
            Ok::<KeyParts, ParseError>(k)
        },
{
    let s = format_spec(k);
    let d = k.prefix.len() as int;
    assert(s[d] == '.');
    assert forall|j: int| 0 <= j < d implies s[j] != '.' by {
        assert(s[j] == k.prefix[j]);
    }
    lemma_first_index(s, '.', d);
    let rest = s.subrange(d + 1, s.len() as int);
    assert(rest =~= k.algorithm + seq![':'] + k.secret);
    let c = k.algorithm.len() as int;
    assert(rest[c] == ':');
    assert forall|j: int| 0 <= j < c implies rest[j] != ':' by {
        assert(rest[j] == k.algorithm[j]);
    }
    lemma_first_index(rest, ':', c);
    assert(s.subrange(0, d) =~= k.prefix);
    assert(rest.subrange(0, c) =~= k.algorithm);
    assert(rest.subrange(c + 1, rest.len() as int) =~= k.secret);
}

/// Parsing the full form of valid parts gives back exactly those parts.
pub proof fn lemma_round_trip(k: KeyParts)
    requires
        valid_parts(k),
    ensures
        parse_spec(format_spec(k)) == Ok::<KeyParts, ParseError>(k),
{
    lemma_parse_format(k);
}

/// A text without a `.` or without a `:` is refused as missing a separator.
pub proof fn lemma_missing_separator(s: Seq<char>)
    requires
        !s.contains('.') || !s.contains(':'),
    ensures
        parse_spec(s) == Err::<KeyParts, ParseError>(ParseError::MissingSeparator),
{
    s.index_of_first_ensures('.');
    if let Some(d) = s.index_of_first('.') {
        let rest = s.subrange(d + 1, s.len() as int);
        rest.index_of_first_ensures(':');
        if let Some(c) = rest.index_of_first(':') {
            assert(s[d + 1 + c] == ':');
        }
    }
}

/// A prefix of the wrong length is refused for its length, whatever the
/// secret is.
pub proof fn lemma_prefix_length(k: KeyParts)
    requires
        !k.prefix.contains('.'),
        !k.algorithm.contains(':'),
        byte_len(k.prefix) != PREFIX_SIZE,
    ensures
        parse_spec(format_spec(k)) == Err::<KeyParts, ParseError>(
            ParseError::InvalidPrefixLength(byte_len(k.prefix)),
        ),
{
    lemma_parse_format(k);
}

/// A secret of the wrong length behind a valid prefix is refused for its
/// length.
pub proof fn lemma_secret_length(k: KeyParts)
    requires
        byte_len(k.prefix) == PREFIX_SIZE,
        !k.prefix.contains('.'),
        !k.algorithm.contains(':'),
        byte_len(k.secret) != API_KEY_SIZE,
    ensures
        parse_spec(format_spec(k)) == Err::<KeyParts, ParseError>(
            ParseError::InvalidKeyLength(byte_len(k.secret)),
        ),
{
    lemma_parse_format(k);
}

/// Relies on rand's thread-local generator (`rand::rng`) sampled through
/// `rand::distr::Alphanumeric`: `len` characters, each an ASCII letter or digit.
#[verifier::external_body]
fn random_alphanumeric(len: usize) -> (r: String)
    ensures
        r@.len() == len,
        all_alphanumeric(r@),
{
    rand::rng().sample_iter(&rand::distr::Alphanumeric).take(len).map(char::from).collect()
}

/// An API key held as its three parts.
#[derive(Debug)]
pub struct RawApiKey {
    prefix: String,
    hash_info: String,
    key: String,
}

impl View for RawApiKey {
    type V = KeyParts;

    closed spec fn view(&self) -> KeyParts {
        KeyParts { prefix: self.prefix@, algorithm: self.hash_info@, secret: self.key@ }
    }
}

impl RawApiKey {
    #[verifier::type_invariant]
    closed spec fn inv(self) -> bool {
        valid_parts(KeyParts { prefix: self.prefix@, algorithm: self.hash_info@, secret: self.key@ })
    }

    /// Parses `prefix.algorithm:secret`.
    pub fn parse(full_key: &str) -> (r: Result<RawApiKey, ParseError>)
        ensures
            match r {
                Ok(k) => parse_spec(full_key@) == Ok::<KeyParts, ParseError>(k@),
                Err(e) => parse_spec(full_key@) == Err::<KeyParts, ParseError>(e),
            },
    {
        let ghost s = full_key@;
        let n = full_key.unicode_len();
        let d = find_char(full_key, n, 0, '.');
        if d == n {
            proof {
                lemma_no_index(s, '.');
            }
            return Err(ParseError::MissingSeparator);
        }
        proof {
            lemma_first_index(s, '.', d as int);
        }
        let ghost rest = s.subrange(d + 1, s.len() as int);
        let c = find_char(full_key, n, d + 1, ':');
        if c == n {
            proof {
                assert forall|j: int| 0 <= j < rest.len() implies rest[j] != ':' by {
                    assert(rest[j] == s[j + d + 1]);
                }
                lemma_no_index(rest, ':');
            }
            return Err(ParseError::MissingSeparator);
        }
        proof {
            assert forall|j: int| 0 <= j < c - d - 1 implies rest[j] != ':' by {
                assert(rest[j] == s[j + d + 1]);
            }
            lemma_first_index(rest, ':', c - d - 1);
        }
        let prefix_text = full_key.substring_char(0, d);
        let secret_text = full_key.substring_char(c + 1, n);
        proof {
            assert(prefix_text@ =~= s.subrange(0, d as int));
            assert(secret_text@ =~= rest.subrange(c - d, rest.len() as int));
        }
        if prefix_text.len() != PREFIX_SIZE {
            return Err(ParseError::InvalidPrefixLength(prefix_text.len()));
        }
        if secret_text.len() != API_KEY_SIZE {
            return Err(ParseError::InvalidKeyLength(secret_text.len()));
        }
        let prefix = String::from_str(prefix_text);
        let hash_info = String::from_str(full_key.substring_char(d + 1, c));
        let key = String::from_str(secret_text);
        proof {
            assert(prefix@ =~= s.subrange(0, d as int));
            assert(hash_info@ =~= rest.subrange(0, c - d - 1));
            assert(key@ =~= rest.subrange(c - d, rest.len() as int));
            assert(!prefix@.contains('.'));
            assert(!hash_info@.contains(':'));
        }
        Ok(RawApiKey { prefix, hash_info, key })
    }
    /// The public prefix.
    pub fn prefix(&self) -> (r: &str)
        ensures
            r@ == self@.prefix,
    {
        self.prefix.as_str()
    }

    /// The name of the digest algorithm.
    pub fn algorithm(&self) -> (r: &str)
        ensures
            r@ == self@.algorithm,
    {
        self.hash_info.as_str()
    }

    /// The secret part.
    pub fn secret(&self) -> (r: &str)
        ensures
            r@ == self@.secret,
    {
        self.key.as_str()
    }

    /// The full text form `prefix.algorithm:secret`, which parses back to
    /// this key.
    pub fn to_string(&self) -> (r: String)
        ensures
            r@ == format_spec(self@),
            parse_spec(r@) == Ok::<KeyParts, ParseError>(self@),
    {
        proof {
            use_type_invariant(self);
            lemma_round_trip(self@);
            reveal_strlit(".");
            reveal_strlit(":");
        }
        let mut r = self.prefix.clone();
        r.append(".");
        r.append(self.hash_info.as_str());
        r.append(":");
        r.append(self.key.as_str());
        proof {
            assert(r@ =~= format_spec(self@));
        }
        r
    }

    /// A new key with a random secret, the default algorithm, and the given
    /// prefix or else a random one.
    pub fn generate(prefix: Option<String>) -> (r: RawApiKey)
        requires
            match prefix {
                Some(p) => byte_len(p@) == PREFIX_SIZE && !p@.contains('.'),
                None => true,
            },
        ensures
            valid_parts(r@),
            match prefix {
                Some(p) => r@.prefix == p@,
                None => all_alphanumeric(r@.prefix),
            },
            r@.algorithm == default_algorithm(),
            all_alphanumeric(r@.secret),
            parse_spec(format_spec(r@)) == Ok::<KeyParts, ParseError>(r@),
    {
        let prefix = match prefix {
            Some(p) => p,
            None => {
                let p = random_alphanumeric(PREFIX_SIZE);
                assert(!p@.contains('.')) by {
                    if p@.contains('.') {
                        let i = choose|i: int| 0 <= i < p@.len() && p@[i] == '.';
                        assert(is_alphanumeric(p@[i]));
                    }
                }
                proof {
                    lemma_alphanumeric_bytes(p@);
                }
                p
            },
        };
        let key = random_alphanumeric(API_KEY_SIZE);
        proof {
            lemma_alphanumeric_bytes(key@);
        }
        let hash_info = String::from_str("SHA256");
        proof {
            reveal_strlit("SHA256");
            assert(hash_info@ =~= default_algorithm());
            assert(!hash_info@.contains(':')) by {
                if hash_info@.contains(':') {
                    let i = choose|i: int| 0 <= i < hash_info@.len() && hash_info@[i] == ':';
                }
            }
        }
        let r = RawApiKey { prefix, hash_info, key };
        proof {
            lemma_round_trip(r@);
        }
        r
    }
    /// The digest of the secret under the key's own algorithm.
    pub fn hash(&self) -> (r: Result<String, ParseError>)
        ensures
            match r {
                Ok(h) => digest_spec(self@.algorithm, self@.secret) == Some(h@) && is_sha256_hex(h@),
                Err(e) => {
                    &&& digest_spec(self@.algorithm, self@.secret) is None
                    &&& e matches ParseError::UnknownHashAlgorithm(a)
                    &&& a@ == self@.algorithm
                },
            },
    {
        digest(self.hash_info.as_str(), self.key.as_str())
    }
}

} // verus!
