//! The calls into other crates that this library takes on trust. Each one is
//! a thin function whose contract is believed rather than proved; everything
//! built on top of them is verified against these contracts.

use vstd::prelude::*;
use vstd::string::*;

verus! {

/// The SHA-256 digest of a byte string.
pub uninterp spec fn sha256(data: Seq<u8>) -> Seq<u8>;

/// What the `regex` crate answers for a pattern and a haystack: `None` where
/// the pattern does not compile, else whether it matches anywhere in the
/// haystack.
pub uninterp spec fn regex_search(pattern: Seq<char>, haystack: Seq<char>) -> Option<bool>;

/// The lower-case hexadecimal digit for a value below sixteen.
pub open spec fn hex_digit(n: int) -> char
    recommends
        0 <= n < 16,
{
    seq!['0', '1', '2', '3', '4', '5', '6', '7', '8', '9', 'a', 'b', 'c', 'd', 'e', 'f'][n]
}

/// Two lower-case hexadecimal digits per byte, high half first.
pub open spec fn hex_lower(data: Seq<u8>) -> Seq<char> {
    Seq::new(
        2 * data.len(),
        |i: int|
            if i % 2 == 0 {
                hex_digit(data[i / 2] as int / 16)
            } else {
                hex_digit(data[i / 2] as int % 16)
            },
    )
}

/// Reads the system clock with `std::time::SystemTime::now`, turns the
/// reading into a `chrono::DateTime<Utc>` (chrono's `From<SystemTime>`, which
/// also takes a clock set before 1970) and returns its Unix milliseconds
/// (`DateTime::timestamp_millis`). Nothing is claimed of the value: two
/// readings may be equal or go backwards.
#[verifier::external_body]
pub(crate) fn now_millis() -> i64 {
    chrono::DateTime::<chrono::Utc>::from(std::time::SystemTime::now()).timestamp_millis()
}

/// Draws a random identifier with `uuid::Uuid::new_v4` and renders it in the
/// usual hyphenated form. Nothing is claimed of the value, not even that it
/// differs from earlier ones: callers test for that themselves.
#[verifier::external_body]
pub(crate) fn random_id() -> String {
    uuid::Uuid::new_v4().to_string()
}

/// Draws one decimal digit from `rand::thread_rng` with
/// `rand::distributions::Uniform::new(0, 10)`, which samples the half-open
/// range and so stays below ten.
#[verifier::external_body]
pub(crate) fn random_digit() -> (d: u8)
    ensures
        d < 10,
{
    rand::Rng::sample(&mut rand::thread_rng(), rand::distributions::Uniform::new(0u8, 10u8))
}

/// Hashes with `sha2::Sha256` (`Digest::digest`). The digest is a function of
/// the input bytes alone and is named rather than spelled out.
#[verifier::external_body]
pub(crate) fn sha256_digest(data: &[u8]) -> (digest: Vec<u8>)
    ensures
        digest@ == sha256(data@),
{
    <sha2::Sha256 as sha2::Digest>::digest(data).to_vec()
}

/// Encodes with `hex::encode`: each byte becomes two lower-case hexadecimal
/// digits, the high four bits first.
#[verifier::external_body]
pub(crate) fn hex_encode(data: &[u8]) -> (text: String)
    ensures
        text@ == hex_lower(data@),
{
    hex::encode(data)
}

/// Compiles `pattern` with `regex::Regex::new` and asks `Regex::is_match` for
/// `haystack`. The answer depends on the two texts alone and is named.
#[verifier::external_body]
pub(crate) fn regex_is_match(pattern: &str, haystack: &str) -> (answer: Option<bool>)
    ensures
        answer == regex_search(pattern@, haystack@),
{
    match regex::Regex::new(pattern) {
        Ok(re) => Some(re.is_match(haystack)),
        Err(_) => None,
    }
}

} // verus!
