//! Laws of the trust-token protocol, proved over the contracts' models.
use crate::app_params::{age, AppParams};
use crate::primitives::{blake3_hex, url_decoded};
use crate::request::HttpRequest;
use crate::text::{join_before, lemma_join_around, lemma_middle_differs, parse_u64_spec, prefixed, split_colon_spec};
use vstd::prelude::*;

verus! {

/// Two requests whose configured headers give the same values, slot by slot,
/// have the same fingerprint, and so the same fingerprint hash.
pub proof fn lemma_fingerprint_deterministic(p: AppParams, a: HttpRequest, b: HttpRequest)
    requires
        forall|k: int| 0 <= k < p.signature_headers@.len() ==> #[trigger] p.slot(a, k) == p.slot(b, k),
    ensures
        p.fingerprint(a) == p.fingerprint(b),
        p.fingerprint(a) matches Some(f) ==> blake3_hex(f) == blake3_hex(p.fingerprint(b)->0),
{
    let n = p.signature_headers@.len();
    assert(Seq::new(n, |k: int| p.slot(a, k)->0) =~= Seq::new(n, |k: int| p.slot(b, k)->0));
    if forall|k: int| 0 <= k < n ==> (#[trigger] p.slot(a, k)) is Some {
        assert forall|k: int| 0 <= k < n implies (#[trigger] p.slot(b, k)) is Some by {
            assert(p.slot(a, k) is Some);
        }
    } else {
        let k = choose|k: int| 0 <= k < n && !((#[trigger] p.slot(a, k)) is Some);
        assert(!(p.slot(b, k) is Some));
    }
}

/// Two requests whose configured headers give the same values but for one
/// slot, where both give text and the texts differ, have different
/// fingerprints.
pub proof fn lemma_fingerprint_sensitive(p: AppParams, a: HttpRequest, b: HttpRequest, i: int)
    requires
        0 <= i < p.signature_headers@.len(),
        forall|k: int| 0 <= k < p.signature_headers@.len() && k != i ==> #[trigger] p.slot(a, k) == p.slot(b, k),
        p.slot(a, i) is Some,
        p.slot(b, i) is Some,
        p.slot(a, i) != p.slot(b, i),
        p.fingerprint(a) is Some,
    ensures
        p.fingerprint(b) is Some,
        p.fingerprint(a) != p.fingerprint(b),
{
    let n = p.signature_headers@.len();
    let d = p.signature_delimiter@;
    assert forall|k: int| 0 <= k < n implies (#[trigger] p.slot(b, k)) is Some by {
        if k != i {
            assert(p.slot(a, k) is Some);
        }
    }
    let sa = Seq::new(n, |k: int| p.slot(a, k)->0);
    let sb = Seq::new(n, |k: int| p.slot(b, k)->0);
    lemma_join_around(sa, i, d);
    lemma_join_around(sb, i, d);
    assert(sa.take(i) =~= sb.take(i));
    assert(sa.skip(i + 1) =~= sb.skip(i + 1));
    lemma_middle_differs(join_before(sa, i, d), sa[i], sb[i], prefixed(sa.skip(i + 1), d));
}

/// Rotation. A cookie whose digest secret `s` made is accepted by a ring
/// that holds `s`, at any age when `grace` is set and within the cookie
/// window otherwise. A ring `q` with the same settings none of whose
/// secrets gives that digest refuses it, whatever its age.
pub proof fn lemma_rotation(
    p: AppParams,
    q: AppParams,
    value: Seq<char>,
    fp: Seq<char>,
    s: Seq<char>,
    grace: bool,
    now: u64,
)
    requires
        p.cookie_parts(value) matches Some((ts, d)) && parse_u64_spec(ts) is Some
            && d == p.cookie_digest(ts, blake3_hex(fp), s),
        q.signature_delimiter@ == p.signature_delimiter@,
        q.cookie_max_age_seconds == p.cookie_max_age_seconds,
    ensures
        ({
            let (ts, d) = p.cookie_parts(value)->0;
            let t = parse_u64_spec(ts)->0;
            p.secrets().contains(s) && (grace || age(now, t) <= p.cookie_max_age_seconds)
                ==> p.cookie_accepts(value, fp, grace, now)
        }),
        ({
            let (ts, d) = p.cookie_parts(value)->0;
            (forall|k: int| 0 <= k < q.secrets().len() ==> #[trigger] q.cookie_digest(ts, blake3_hex(fp), q.secrets()[k]) != d)
                ==> !q.cookie_accepts(value, fp, grace, now)
        }),
{
    let (ts, d) = p.cookie_parts(value)->0;
    if p.secrets().contains(s) {
        let k = choose|k: int| 0 <= k < p.secrets().len() && p.secrets()[k] == s;
        assert(p.cookie_digest(ts, blake3_hex(fp), p.secrets()[k]) == d);
    }
    assert(q.cookie_parts(value) == p.cookie_parts(value));
    let h = blake3_hex(fp);
    let prefix = seq![ts, h];
    if forall|k: int| 0 <= k < q.secrets().len() ==> #[trigger] q.cookie_digest(ts, h, q.secrets()[k]) != d {
        assert forall|k: int| 0 <= k < q.secrets().len() implies #[trigger] q.sign(
            prefix.push(q.secrets()[k]),
        ) != d by {
            assert(q.cookie_digest(ts, h, q.secrets()[k]) != d);
        }
    }
}

/// Grace asymmetry. A cookie aged strictly between the cookie window and
/// twice that window is refused for a safe method and accepted for a
/// state-changing one, given a valid signature.
pub proof fn lemma_grace_asymmetry(p: AppParams, value: Seq<char>, fp: Seq<char>, now: u64)
    requires
        p.cookie_parts(value) matches Some((ts, d)) && parse_u64_spec(ts) matches Some(t)
            && p.cookie_max_age_seconds < age(now, t) < 2 * p.cookie_max_age_seconds
            && p.cookie_signed(ts, blake3_hex(fp), d),
    ensures
        !p.cookie_accepts(value, fp, false, now),
        p.cookie_accepts(value, fp, true, now),
{
}

/// Redirect tokens expire on their own window: a token (as decoded) older than the
/// redirect window is refused, even at an instant where a session cookie
/// issued together with it is still fresh and accepted.
pub proof fn lemma_redirect_expiry(
    p: AppParams,
    token: Seq<char>,
    url: Seq<char>,
    cookie: Seq<char>,
    fp: Seq<char>,
    now: u64,
)
    requires
        url_decoded(token) matches Some(text) && split_colon_spec(text) matches Some((ts, d))
            && parse_u64_spec(ts) matches Some(t) && age(now, t) > p.redirect_token_max_age_seconds,
    ensures
        !p.token_accepts(token, url, fp, now),
        ({
            let (ts, d) = split_colon_spec(url_decoded(token)->0)->0;
            let t = parse_u64_spec(ts)->0;
            p.cookie_parts(cookie) matches Some((cts, cd)) && parse_u64_spec(cts) == Some(t)
                && p.cookie_signed(cts, blake3_hex(fp), cd) && age(now, t) <= p.cookie_max_age_seconds
                ==> p.cookie_accepts(cookie, fp, false, now)
        }),
{
}

/// Tamper sensitivity, for a ring of one secret: a cookie whose digest
/// differs from the one that secret gives for its timestamp and
/// fingerprint, in a single character or more, is refused.
pub proof fn lemma_tampered_digest(p: AppParams, value: Seq<char>, fp: Seq<char>, grace: bool, now: u64)
    requires
        p.secrets().len() == 1,
        p.cookie_parts(value) matches Some((ts, d)) && d != p.cookie_digest(ts, blake3_hex(fp), p.secrets()[0]),
    ensures
        !p.cookie_accepts(value, fp, grace, now),
{
}

} // verus!
