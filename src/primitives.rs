//! Calls into outside crates and into parts of std that vstd does not
//! describe. Each function here states what the library relies on.
use crate::text::decimal;
use aes_gcm::aead::Aead;
use aes_gcm::{Aes256Gcm, KeyInit, Nonce};
use base64::engine::general_purpose;
use base64::Engine;
use rand::RngCore;
use vstd::prelude::*;
use vstd::utf8::{decode_utf8, encode_utf8, valid_utf8};

verus! {

/// Lowercase hex of the BLAKE3 hash of the UTF-8 bytes of `s`.
pub uninterp spec fn blake3_hex(s: Seq<char>) -> Seq<char>;

/// Standard (padded) base64 of `b`.
pub uninterp spec fn base64_encoded(b: Seq<u8>) -> Seq<char>;

/// The bytes that standard base64 text `s` decodes to, if it is valid.
pub uninterp spec fn base64_decoded(s: Seq<char>) -> Option<Seq<u8>>;

/// Bytes that percent-encoding leaves as they are: ASCII alphanumerics and
/// `-`, `.`, `_`, `~`.
pub open spec fn url_safe_byte(b: u8) -> bool {
    (48 <= b <= 57) || (65 <= b <= 90) || (97 <= b <= 122) || b == 45 || b == 46 || b == 95 || b
        == 126
}

/// The sixteen uppercase hex digits, in order.
pub open spec fn upper_hex_digits() -> Seq<char> {
    seq!['0', '1', '2', '3', '4', '5', '6', '7', '8', '9', 'A', 'B', 'C', 'D', 'E', 'F']
}

/// One byte, percent-encoded where it is not safe.
pub open spec fn url_byte(b: u8) -> Seq<char> {
    if url_safe_byte(b) {
        seq![b as char]
    } else {
        seq!['%', upper_hex_digits()[(b / 16) as int], upper_hex_digits()[(b % 16) as int]]
    }
}

/// Each byte of `bs` percent-encoded where it is not safe.
pub open spec fn url_bytes(bs: Seq<u8>) -> Seq<char>
    decreases bs.len(),
{
    if bs.len() == 0 {
        Seq::empty()
    } else {
        url_bytes(bs.drop_last()) + url_byte(bs.last())
    }
}

/// `s` with every byte of its UTF-8 form percent-encoded, but for
/// alphanumerics and `-`, `_`, `.`, `~`.
pub open spec fn url_encoded(s: Seq<char>) -> Seq<char> {
    url_bytes(encode_utf8(s))
}

/// `s` with its percent escapes decoded, if the result is UTF-8.
pub uninterp spec fn url_decoded(s: Seq<char>) -> Option<Seq<char>>;

/// The decoded name/value pairs of an `application/x-www-form-urlencoded` query.
pub uninterp spec fn form_pairs(q: Seq<char>) -> Seq<(Seq<char>, Seq<char>)>;

/// `s` with every occurrence of `from` replaced by `to`.
pub uninterp spec fn replaced(s: Seq<char>, from: Seq<char>, to: Seq<char>) -> Seq<char>;

/// The pieces of `s` between its `;` characters, in order; one more than
/// the number of `;`.
pub open spec fn semicolon_pieces(s: Seq<char>) -> Seq<Seq<char>>
    decreases s.len(),
{
    if s.len() == 0 {
        seq![Seq::empty()]
    } else if s.last() == ';' {
        semicolon_pieces(s.drop_last()).push(Seq::empty())
    } else {
        let p = semicolon_pieces(s.drop_last());
        p.update(p.len() - 1, p.last().push(s.last()))
    }
}

/// `s` without leading and trailing white space.
pub uninterp spec fn trimmed(s: Seq<char>) -> Seq<char>;

/// AES-256-GCM ciphertext with its tag, of `plain` under `key` and `nonce`.
pub uninterp spec fn aes_gcm_sealed(key: Seq<u8>, nonce: Seq<u8>, plain: Seq<u8>) -> Seq<u8>;

pub open spec fn no_percent(s: Seq<char>) -> bool {
    forall|i: int| 0 <= i < s.len() ==> #[trigger] s[i] != '%'
}

pub open spec fn is_lower_hex(c: char) -> bool {
    ('0' <= c && c <= '9') || ('a' <= c && c <= 'f')
}

/// Relies on `blake3::hash` and `Hash::to_hex`: 64 lowercase hex digits,
/// a function of the input bytes alone.
#[verifier::external_body]
pub(crate) fn blake3_hash_hex(s: &str) -> (r: String)
    ensures
        r@ == blake3_hex(s@),
        r@.len() == 64,
        forall|i: int| 0 <= i < r@.len() ==> is_lower_hex(#[trigger] r@[i]),
{
    blake3::hash(s.as_bytes()).to_hex().to_string()
}

/// Relies on base64's `STANDARD.encode`; `STANDARD.decode` gives the same
/// bytes back from what it wrote.
#[verifier::external_body]
pub(crate) fn base64_encode(b: &[u8]) -> (r: String)
    ensures
        r@ == base64_encoded(b@),
        base64_decoded(r@) == Some(b@),
{
    general_purpose::STANDARD.encode(b)
}

/// Relies on base64's `STANDARD.decode`, which reads the UTF-8 bytes of `s`.
#[verifier::external_body]
pub(crate) fn base64_decode(s: &str) -> (r: Option<Vec<u8>>)
    ensures
        match r {
            Some(b) => base64_decoded(s@) == Some(b@),
            None => base64_decoded(s@) is None,
        },
{
    general_purpose::STANDARD.decode(s).ok()
}

/// Relies on `String::from_utf8`: it fails exactly on bytes that are not UTF-8.
#[verifier::external_body]
pub(crate) fn utf8_text(b: Vec<u8>) -> (r: Option<String>)
    ensures
        match r {
            Some(t) => valid_utf8(b@) && t@ == decode_utf8(b@),
            None => !valid_utf8(b@),
        },
{
    String::from_utf8(b).ok()
}

/// Relies on `str::replace`.
#[verifier::external_body]
pub(crate) fn replace_text(s: &str, from: &str, to: &str) -> (r: String)
    ensures
        r@ == replaced(s@, from@, to@),
{
    s.replace(from, to)
}

/// Relies on `str::split(';')`, its pieces taken in order.
#[verifier::external_body]
pub(crate) fn split_semicolons(s: &str) -> (r: Vec<String>)
    ensures
        r@.len() == semicolon_pieces(s@).len(),
        forall|i: int| 0 <= i < r@.len() ==> (#[trigger] r@[i])@ == semicolon_pieces(s@)[i],
{
    s.split(';').map(|p| p.to_string()).collect()
}

/// Relies on `str::trim`.
#[verifier::external_body]
pub(crate) fn trim_text(s: &str) -> (r: &str)
    ensures
        r@ == trimmed(s@),
{
    s.trim()
}

/// Relies on `urlencoding::encode`, which percent-encodes the UTF-8 bytes of
/// `s` with uppercase hex digits; `urlencoding::decode` turns its output
/// back into `s`.
#[verifier::external_body]
pub(crate) fn url_encode(s: &str) -> (r: String)
    ensures
        r@ == url_encoded(s@),
        url_decoded(r@) == Some(s@),
{
    urlencoding::encode(s).into_owned()
}

/// Relies on `urlencoding::decode`; text without `%` comes back unchanged.
#[verifier::external_body]
pub(crate) fn url_decode(s: &str) -> (r: Option<String>)
    ensures
        match r {
            Some(t) => url_decoded(s@) == Some(t@) && (no_percent(s@) ==> t@ == s@),
            None => url_decoded(s@) is None && !no_percent(s@),
        },
{
    urlencoding::decode(s).ok().map(|t| t.into_owned())
}

/// Relies on `url::form_urlencoded::parse`, its pairs taken in order.
#[verifier::external_body]
pub(crate) fn query_pairs(q: &str) -> (r: Vec<(String, String)>)
    ensures
        r@.len() == form_pairs(q@).len(),
        forall|i: int|
            0 <= i < r@.len() ==> (#[trigger] r@[i]).0@ == form_pairs(q@)[i].0 && r@[i].1@
                == form_pairs(q@)[i].1,
{
    url::form_urlencoded::parse(q.as_bytes()).into_owned().collect()
}

/// Relies on `UNIX_EPOCH.elapsed()`: whole seconds since the epoch, `None`
/// where the clock stands before it.
#[verifier::external_body]
pub(crate) fn unix_now() -> (r: Option<u64>) {
    std::time::UNIX_EPOCH.elapsed().ok().map(|d| d.as_secs())
}

/// Relies on rand's `OsRng::try_fill_bytes`: `n` bytes from the operating
/// system's secure source, `None` where it fails.
#[verifier::external_body]
pub(crate) fn random_bytes(n: usize) -> (r: Option<Vec<u8>>)
    ensures
        match r {
            Some(b) => b@.len() == n,
            None => true,
        },
{
    let mut b = vec![0u8; n];
    rand::rngs::OsRng.try_fill_bytes(&mut b).ok().map(|_| b)
}

/// Relies on aes-gcm's `Aes256Gcm::new_from_slice` and `encrypt`: a 32-byte
/// key is accepted, the nonce must be 12 bytes long (or `Nonce::from_slice`
/// panics), and sealing fails only on plaintext over 2^36 bytes; the
/// ciphertext carries a 16-byte tag.
#[verifier::external_body]
pub(crate) fn aes_gcm_encrypt(key: &[u8], nonce: &[u8], plain: &[u8]) -> (r: Option<Vec<u8>>)
    requires
        key@.len() == 32,
        nonce@.len() == 12,
    ensures
        match r {
            Some(c) => c@ == aes_gcm_sealed(key@, nonce@, plain@) && c@.len() == plain@.len() + 16
                && plain@.len() <= 0x1000000000,
            None => plain@.len() > 0x1000000000,
        },
{
    let cipher = Aes256Gcm::new_from_slice(key).ok()?;
    cipher.encrypt(Nonce::from_slice(nonce), plain).ok()
}

/// Relies on cookie's `CookieBuilder` and its `Display`: name and value,
/// then `HttpOnly` where set, `Path` and `Max-Age`, in that order.
#[verifier::external_body]
pub(crate) fn set_cookie_text(name: &str, value: &str, http_only: bool, path: &str, max_age: i64) -> (r: String)
    requires
        max_age >= 0,
    ensures
        r@ == name@ + seq!['='] + value@ + (if http_only { "; HttpOnly"@ } else { Seq::empty() })
            + "; Path="@ + path@ + "; Max-Age="@ + decimal(max_age as nat),
{
    cookie::Cookie::build((name.to_string(), value.to_string()))
        .max_age(cookie::time::Duration::seconds(max_age))
        .http_only(http_only)
        .path(path.to_string())
        .to_string()
}

} // verus!
