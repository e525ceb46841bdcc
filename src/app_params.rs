//! The configuration, and the trust-token protocol built on it: request
//! fingerprints, the signer, session cookies and redirect tokens.
use crate::primitives::{
    base64_decode, base64_decoded, base64_encode, base64_encoded, blake3_hash_hex, blake3_hex,
    is_lower_hex, replace_text, replaced, set_cookie_text, unix_now, url_decode, url_decoded,
    url_encode, url_encoded, utf8_text,
};
use crate::request::{header_lookup, HttpRequest};
use crate::text::{
    decimal, decimal_string, is_digit, join, join_fields, lemma_decimal_digits, lemma_parse_decimal,
    lemma_split_joined, no_colon, parse_u64, parse_u64_spec, split_colon, split_colon_spec, views,
};
use vstd::prelude::*;
use vstd::string::*;
use vstd::utf8::{decode_utf8, encode_utf8, encode_utf8_decode_utf8, encode_utf8_valid_utf8, valid_utf8};

verus! {

/// Process-wide settings, read-only once loaded.
pub struct AppParams {
    /// The secret ring: the first signs, all verify.
    pub security_tokens: Vec<String>,
    /// Names of the headers that make up a request's fingerprint, in order.
    pub signature_headers: Vec<String>,
    /// Joins fingerprint values, and the fields fed to the signer.
    pub signature_delimiter: String,
    /// Cookie name, with `{}` standing for the fingerprint hash.
    pub cookie_name_template: String,
    pub cookie_max_age_seconds: i64,
    pub redirect_token_max_age_seconds: i64,
    pub js_challenge_template_path: String,
    pub js_challenge_template: String,
}

/// A freshly issued session cookie.
pub struct SessionCookie {
    pub name: String,
    pub value: String,
    pub max_age_seconds: i64,
}

/// 64 lowercase hex digits, the form of every digest.
pub open spec fn is_hex_digest(s: Seq<char>) -> bool {
    s.len() == 64 && forall|i: int| 0 <= i < s.len() ==> is_lower_hex(#[trigger] s[i])
}

/// The attributes every session cookie carries, with its lifetime.
pub open spec fn cookie_attributes(max_age: nat) -> Seq<char> {
    "; HttpOnly"@ + "; Path="@ + "/"@ + "; Max-Age="@ + decimal(max_age)
}

/// `now - then`, or zero where the clock reads earlier than `then`.
pub open spec fn age(now: u64, then: u64) -> int {
    if now > then {
        now - then
    } else {
        0
    }
}

impl AppParams {
    /// Validity windows are positive, and the cookie's doubled lifetime fits.
    pub open spec fn wf(&self) -> bool {
        &&& 0 < self.cookie_max_age_seconds <= i64::MAX / 2
        &&& 0 < self.redirect_token_max_age_seconds
    }

    pub open spec fn secrets(&self) -> Seq<Seq<char>> {
        views(self.security_tokens@)
    }

    /// The signer: digest of `fields` joined with the delimiter.
    pub open spec fn sign(&self, fields: Seq<Seq<char>>) -> Seq<char> {
        blake3_hex(join(fields, self.signature_delimiter@))
    }

    /// Value that one configured header contributes: empty where absent,
    /// `None` where its value is not text.
    pub open spec fn slot(&self, req: HttpRequest, k: int) -> Option<Seq<char>> {
        match header_lookup(req.header_views(), self.signature_headers@[k]@) {
            None => Some(Seq::empty()),
            Some(Some(v)) => Some(v),
            Some(None) => None,
        }
    }

    /// The fingerprint of a request: the configured headers' values, joined.
    pub open spec fn fingerprint(&self, req: HttpRequest) -> Option<Seq<char>> {
        if forall|k: int| 0 <= k < self.signature_headers@.len() ==> (#[trigger] self.slot(req, k)) is Some {
            Some(
                join(
                    Seq::new(self.signature_headers@.len(), |k: int| self.slot(req, k)->0),
                    self.signature_delimiter@,
                ),
            )
        } else {
            None
        }
    }

    /// The digest a session cookie carries, for fingerprint hash `fph`.
    pub open spec fn cookie_digest(&self, ts: Seq<char>, fph: Seq<char>, secret: Seq<char>) -> Seq<
        char,
    > {
        self.sign(seq![ts, fph].push(secret))
    }

    /// The digest a redirect token carries, for the encoded target `enc`.
    pub open spec fn redirect_digest(
        &self,
        ts: Seq<char>,
        enc: Seq<char>,
        fph: Seq<char>,
        secret: Seq<char>,
    ) -> Seq<char> {
        self.sign(seq![ts, enc, fph].push(secret))
    }

    /// Some secret of the ring, put after `prefix`, gives `digest`.
    pub open spec fn ring_signed(&self, prefix: Seq<Seq<char>>, digest: Seq<char>) -> bool {
        exists|k: int|
            0 <= k < self.secrets().len() && #[trigger] self.sign(prefix.push(self.secrets()[k])) == digest
    }

    /// Some secret of the ring gives `digest` for the cookie fields.
    pub open spec fn cookie_signed(&self, ts: Seq<char>, fph: Seq<char>, digest: Seq<char>) -> bool {
        self.ring_signed(seq![ts, fph], digest)
    }

    /// Some secret of the ring gives `digest` for the redirect token fields.
    pub open spec fn redirect_signed(
        &self,
        ts: Seq<char>,
        enc: Seq<char>,
        fph: Seq<char>,
        digest: Seq<char>,
    ) -> bool {
        self.ring_signed(seq![ts, enc, fph], digest)
    }

    /// The `timestamp` and `digest` a cookie value carries: it is base64 of
    /// UTF-8 text with exactly one `:`.
    pub open spec fn cookie_parts(&self, value: Seq<char>) -> Option<(Seq<char>, Seq<char>)> {
        match base64_decoded(value) {
            None => None,
            Some(b) => if valid_utf8(b) {
                split_colon_spec(decode_utf8(b))
            } else {
                None
            },
        }
    }

    /// A cookie value is accepted at `now`: its timestamp parses, it is
    /// fresh unless `grace` is set, and some secret of the ring signed it.
    pub open spec fn cookie_accepts(&self, value: Seq<char>, fp: Seq<char>, grace: bool, now: u64) -> bool {
        match self.cookie_parts(value) {
            None => false,
            Some((ts, digest)) => match parse_u64_spec(ts) {
                None => false,
                Some(t) => (grace || age(now, t) <= self.cookie_max_age_seconds)
                    && self.cookie_signed(ts, blake3_hex(fp), digest),
            },
        }
    }

    /// A percent-encoded redirect token for `url` is accepted at `now`: it
    /// decodes, and the decoded text is accepted.
    pub open spec fn token_accepts(&self, token: Seq<char>, url: Seq<char>, fp: Seq<char>, now: u64) -> bool {
        match url_decoded(token) {
            None => false,
            Some(t) => self.token_text_accepts(t, url, fp, now),
        }
    }

    /// A decoded redirect token `timestamp:digest` for `url` is accepted at `now`.
    pub open spec fn token_text_accepts(&self, token: Seq<char>, url: Seq<char>, fp: Seq<char>, now: u64) -> bool {
        match split_colon_spec(token) {
            None => false,
            Some((ts, digest)) => match parse_u64_spec(ts) {
                None => false,
                Some(t) => age(now, t) <= self.redirect_token_max_age_seconds
                    && self.redirect_signed(ts, url_encoded(url), blake3_hex(fp), digest),
            },
        }
    }

    /// The name of the session cookie for fingerprint `fp`.
    pub open spec fn cookie_name(&self, fp: Seq<char>) -> Seq<char> {
        replaced(self.cookie_name_template@, "{}"@, blake3_hex(fp))
    }

    /// The `Set-Cookie` value of the session cookie issued for `fp` at `now`.
    pub open spec fn set_cookie_text(&self, fp: Seq<char>, now: u64) -> Seq<char> {
        self.cookie_name(fp) + seq!['='] + base64_encoded(
            encode_utf8(self.cookie_content(fp, now, self.secrets()[0])),
        ) + cookie_attributes((2 * self.cookie_max_age_seconds) as nat)
    }

    /// The cookie content issued at `now`, signed with `secret`.
    pub open spec fn cookie_content(&self, fp: Seq<char>, now: u64, secret: Seq<char>) -> Seq<char> {
        decimal(now as nat) + seq![':'] + self.cookie_digest(decimal(now as nat), blake3_hex(fp), secret)
    }

    /// The redirect token issued at `now` for `url`, signed with `secret`.
    pub open spec fn redirect_token(&self, url: Seq<char>, fp: Seq<char>, now: u64, secret: Seq<char>) -> Seq<char> {
        decimal(now as nat) + seq![':'] + self.redirect_digest(decimal(now as nat), url_encoded(url), blake3_hex(fp), secret)
    }

    /// The fingerprint of `req`: the values of the configured headers, in
    /// order, joined with the delimiter; an absent header gives an empty
    /// value, a value that is not text gives `None`.
    pub fn generate_request_signature(&self, req: &HttpRequest) -> (r: Option<String>)
        ensures
            match r {
                Some(s) => self.fingerprint(*req) == Some(s@),
                None => self.fingerprint(*req) is None,
            },
    {
        let n = self.signature_headers.len();
        let mut values: Vec<String> = Vec::new();
        let mut i: usize = 0;
        while i < n
            invariant
                i <= n,
                n == self.signature_headers@.len(),
                values@.len() == i,
                forall|k: int| 0 <= k < i ==> self.slot(*req, k) == Some(#[trigger] values@[k]@),
            decreases n - i,
        {
            match req.header(self.signature_headers[i].as_str()) {
                Some(Some(v)) => values.push(v),
                Some(None) => {
                    assert(self.slot(*req, i as int) is None);
                    return None;
                },
                None => values.push(String::new()),
            }
            i = i + 1;
        }
        let r = join_fields(values.as_slice(), self.signature_delimiter.as_str());
        assert forall|k: int| 0 <= k < n implies (#[trigger] self.slot(*req, k)) is Some by {
            assert(self.slot(*req, k) == Some(values@[k]@));
        }
        assert(views(values@) =~= Seq::new(n as nat, |k: int| self.slot(*req, k)->0));
        Some(r)
    }

    /// Checks a session cookie value at clock reading `now`: base64 of
    /// `timestamp:digest`, fresh unless `grace_required`, and signed by some
    /// secret of the ring over the fingerprint `req_signature`.
    pub fn validate_cookie_at(
        &self,
        cookie_value: &str,
        req_signature: &str,
        grace_required: bool,
        now: u64,
    ) -> (r: bool)
        requires
            self.wf(),
        ensures
            r == self.cookie_accepts(cookie_value@, req_signature@, grace_required, now),
    {
        let decoded = match base64_decode(cookie_value) {
            Some(b) => b,
            None => return false,
        };
        let content = match utf8_text(decoded) {
            Some(t) => t,
            None => return false,
        };
        let (timestamp, provided) = match split_colon(content.as_str()) {
            Some(parts) => parts,
            None => return false,
        };
        let issued = match parse_u64(timestamp) {
            Some(t) => t,
            None => return false,
        };
        let elapsed: u64 = if now > issued {
            now - issued
        } else {
            0
        };
        if !grace_required && elapsed > self.cookie_max_age_seconds as u64 {
            return false;
        }
        let fp_hash = blake3_hash_hex(req_signature);
        let prefix = pair(timestamp, fp_hash.as_str());
        self.check_ring(prefix.as_slice(), provided)
    }

    /// Checks a session cookie against the system clock. Where the clock
    /// cannot be read the cookie is refused.
    pub fn validate_cookie(&self, cookie_value: &str, req_signature: &str, grace_required: bool) -> (r: bool)
        requires
            self.wf(),
        ensures
            r ==> exists|now: u64| self.cookie_accepts(cookie_value@, req_signature@, grace_required, now),
    {
        match unix_now() {
            Some(now) => self.validate_cookie_at(cookie_value, req_signature, grace_required, now),
            None => false,
        }
    }

    /// Checks a percent-encoded redirect token `timestamp:digest` for
    /// `redirect_url` at clock reading `now`: it decodes, is no older than the
    /// redirect window, and is signed by some secret of the ring over the
    /// encoded URL and the fingerprint.
    pub fn validate_redirect_token_at(
        &self,
        redirect_token: &str,
        redirect_url: &str,
        req_signature: &str,
        now: u64,
    ) -> (r: bool)
        requires
            self.wf(),
        ensures
            r == self.token_accepts(redirect_token@, redirect_url@, req_signature@, now),
    {
        let decoded = match url_decode(redirect_token) {
            Some(t) => t,
            None => return false,
        };
        let (timestamp, provided) = match split_colon(decoded.as_str()) {
            Some(parts) => parts,
            None => return false,
        };
        let issued = match parse_u64(timestamp) {
            Some(t) => t,
            None => return false,
        };
        let elapsed: u64 = if now > issued {
            now - issued
        } else {
            0
        };
        if elapsed > self.redirect_token_max_age_seconds as u64 {
            return false;
        }
        let encoded_url = url_encode(redirect_url);
        let fp_hash = blake3_hash_hex(req_signature);
        let prefix = triple(timestamp, encoded_url.as_str(), fp_hash.as_str());
        self.check_ring(prefix.as_slice(), provided)
    }

    /// Checks a redirect token against the system clock. Where the clock
    /// cannot be read the token is refused.
    pub fn validate_redirect_token(&self, redirect_token: &str, redirect_url: &str, req_signature: &str) -> (r: bool)
        requires
            self.wf(),
        ensures
            r ==> exists|now: u64| self.token_accepts(redirect_token@, redirect_url@, req_signature@, now),
    {
        match unix_now() {
            Some(now) => self.validate_redirect_token_at(redirect_token, redirect_url, req_signature, now),
            None => false,
        }
    }

    /// Issues the session cookie for fingerprint `req_signature` at clock
    /// reading `now`, signed with the first secret; `None` where the ring
    /// is empty.
    pub fn generate_cookie_at(&self, req_signature: &str, now: u64) -> (r: Option<SessionCookie>)
        requires
            self.wf(),
        ensures
            match r {
                None => self.security_tokens@.len() == 0,
                Some(c) => {
                    &&& self.security_tokens@.len() > 0
                    &&& c.name@ == self.cookie_name(req_signature@)
                    &&& c.value@ == base64_encoded(
                        encode_utf8(self.cookie_content(req_signature@, now, self.secrets()[0])),
                    )
                    &&& c.max_age_seconds == 2 * self.cookie_max_age_seconds
                    &&& self.cookie_parts(c.value@) == Some(
                        (
                            decimal(now as nat),
                            self.cookie_digest(
                                decimal(now as nat),
                                blake3_hex(req_signature@),
                                self.secrets()[0],
                            ),
                        ),
                    )
                    &&& is_hex_digest(
                        self.cookie_digest(decimal(now as nat), blake3_hex(req_signature@), self.secrets()[0]),
                    )
                    &&& self.cookie_accepts(c.value@, req_signature@, false, now)
                    &&& self.cookie_accepts(c.value@, req_signature@, true, now)
                },
            },
    {
        if self.security_tokens.len() == 0 {
            return None;
        }
        let fp_hash = blake3_hash_hex(req_signature);
        let name = replace_text(self.cookie_name_template.as_str(), "{}", fp_hash.as_str());
        let timestamp = decimal_string(now);
        let prefix = pair(timestamp.as_str(), fp_hash.as_str());
        let digest = self.sign_fields(prefix.as_slice(), self.security_tokens[0].as_str());
        let mut content = timestamp;
        content.append(":");
        content.append(digest.as_str());
        proof {
            reveal_strlit(":");
            assert(content@ =~= self.cookie_content(req_signature@, now, self.secrets()[0]));
        }
        let value = base64_encode(content.as_str().as_bytes());
        proof {
            let c = content@;
            let ts = decimal(now as nat);
            encode_utf8_valid_utf8(c);
            encode_utf8_decode_utf8(c);
            lemma_decimal_digits(now as nat);
            lemma_parse_decimal(now);
            assert(no_colon(ts)) by {
                assert forall|i: int| 0 <= i < ts.len() implies #[trigger] ts[i] != ':' by {
                    assert(is_digit(ts[i]));
                }
            }
            lemma_split_joined(ts, digest@);
            assert(c == ts + seq![':'] + digest@);
            assert(self.cookie_digest(ts, blake3_hex(req_signature@), self.secrets()[0]) == digest@);
            assert(self.cookie_signed(ts, blake3_hex(req_signature@), digest@));
        }
        Some(SessionCookie { name, value, max_age_seconds: self.cookie_max_age_seconds * 2 })
    }

    /// Issues the session cookie against the system clock; `None` where the
    /// clock cannot be read or the ring is empty.
    pub fn generate_cookie(&self, req_signature: &str) -> (r: Option<SessionCookie>)
        requires
            self.wf(),
        ensures
            self.security_tokens@.len() == 0 ==> r is None,
            match r {
                None => true,
                Some(c) => exists|now: u64| {
                    &&& c.name@ == self.cookie_name(req_signature@)
                    &&& c.value@ == base64_encoded(
                        encode_utf8(self.cookie_content(req_signature@, now, self.secrets()[0])),
                    )
                    &&& c.max_age_seconds == 2 * self.cookie_max_age_seconds
                },
            },
    {
        match unix_now() {
            Some(now) => self.generate_cookie_at(req_signature, now),
            None => None,
        }
    }

    /// Mints a redirect token for `url` and fingerprint `fp` at clock reading
    /// `now`, signed with `secret`.
    pub(crate) fn issue_redirect_token(&self, url: &str, fp: &str, secret: &str, now: u64) -> (r: String)
        requires
            self.wf(),
        ensures
            r@ == self.redirect_token(url@, fp@, now, secret@),
            self.secrets().contains(secret@) ==> self.token_text_accepts(r@, url@, fp@, now),
    {
        let encoded = url_encode(url);
        let fp_hash = blake3_hash_hex(fp);
        let mut token = decimal_string(now);
        let prefix = triple(token.as_str(), encoded.as_str(), fp_hash.as_str());
        let digest = self.sign_fields(prefix.as_slice(), secret);
        token.append(":");
        token.append(digest.as_str());
        proof {
            reveal_strlit(":");
            let ts = decimal(now as nat);
            assert(token@ =~= self.redirect_token(url@, fp@, now, secret@));
            assert(token@ == ts + seq![':'] + digest@);
            lemma_decimal_digits(now as nat);
            lemma_parse_decimal(now);
            assert(no_colon(ts)) by {
                assert forall|i: int| 0 <= i < ts.len() implies #[trigger] ts[i] != ':' by {
                    assert(is_digit(ts[i]));
                }
            }
            lemma_split_joined(ts, digest@);
            if self.secrets().contains(secret@) {
                let k = choose|k: int| 0 <= k < self.secrets().len() && self.secrets()[k] == secret@;
                assert(self.redirect_digest(ts, url_encoded(url@), blake3_hex(fp@), self.secrets()[k])
                    == digest@);
            }
        }
        token
    }

    /// Signs `prefix` followed by `secret`.
    fn sign_fields(&self, prefix: &[String], secret: &str) -> (r: String)
        ensures
            r@ == self.sign(views(prefix@).push(secret@)),
            no_colon(r@),
            is_hex_digest(r@),
    {
        let mut fields: Vec<String> = Vec::new();
        let mut i: usize = 0;
        while i < prefix.len()
            invariant
                i <= prefix@.len(),
                views(fields@) =~= views(prefix@.take(i as int)),
            decreases prefix.len() - i,
        {
            fields.push(prefix[i].clone());
            assert(views(prefix@.take(i + 1)) =~= views(prefix@.take(i as int)).push(prefix@[i as int]@));
            i = i + 1;
        }
        fields.push(String::from_str(secret));
        assert(prefix@.take(i as int) =~= prefix@);
        let r = blake3_hash_from_strings(fields.as_slice(), self);
        assert(views(fields@) =~= views(prefix@).push(secret@));
        assert forall|i: int| 0 <= i < r@.len() implies #[trigger] r@[i] != ':' by {
            assert(is_lower_hex(r@[i]));
        }
        r
    }

    /// Whether some secret of the ring, put after `prefix`, gives `digest`.
    fn check_ring(&self, prefix: &[String], digest: &str) -> (r: bool)
        ensures
            r == self.ring_signed(views(prefix@), digest@),
    {
        let provided = String::from_str(digest);
        let mut k: usize = 0;
        while k < self.security_tokens.len()
            invariant
                k <= self.security_tokens@.len(),
                provided@ == digest@,
                forall|j: int|
                    0 <= j < k ==> #[trigger] self.sign(views(prefix@).push(self.secrets()[j])) != digest@,
            decreases self.security_tokens.len() - k,
        {
            let expected = self.sign_fields(prefix, self.security_tokens[k].as_str());
            assert(self.secrets()[k as int] == self.security_tokens@[k as int]@);
            if expected == provided {
                assert(self.sign(views(prefix@).push(self.secrets()[k as int])) == digest@);
                return true;
            }
            k = k + 1;
        }
        false
    }
}

/// The strings `a`, `b`, in order.
fn pair(a: &str, b: &str) -> (r: Vec<String>)
    ensures
        views(r@) == seq![a@, b@],
{
    let mut v: Vec<String> = Vec::new();
    v.push(String::from_str(a));
    v.push(String::from_str(b));
    assert(views(v@) =~= seq![a@, b@]);
    v
}

/// The strings `a`, `b`, `c`, in order.
fn triple(a: &str, b: &str, c: &str) -> (r: Vec<String>)
    ensures
        views(r@) == seq![a@, b@, c@],
{
    let mut v: Vec<String> = Vec::new();
    v.push(String::from_str(a));
    v.push(String::from_str(b));
    v.push(String::from_str(c));
    assert(views(v@) =~= seq![a@, b@, c@]);
    v
}

impl SessionCookie {
    /// The `Set-Cookie` header value: `HttpOnly`, path `/`, and the cookie's
    /// lifetime in seconds.
    pub fn to_header_value(&self) -> (r: String)
        requires
            self.max_age_seconds >= 0,
        ensures
            r@ == self.name@ + seq!['='] + self.value@ + cookie_attributes(self.max_age_seconds as nat),
    {
        let r = set_cookie_text(self.name.as_str(), self.value.as_str(), true, "/", self.max_age_seconds);
        assert(r@ =~= self.name@ + seq!['='] + self.value@ + cookie_attributes(self.max_age_seconds as nat));
        r
    }
}

/// Hex BLAKE3 digest of `input`.
pub fn blake3_hash(input: &str) -> (r: String)
    ensures
        r@ == blake3_hex(input@),
        is_hex_digest(r@),
{
    blake3_hash_hex(input)
}

/// The signer: hex BLAKE3 digest of `inputs` joined with the configured
/// delimiter.
pub fn blake3_hash_from_strings(inputs: &[String], config: &AppParams) -> (r: String)
    ensures
        r@ == config.sign(views(inputs@)),
        r@.len() == 64,
        forall|i: int| 0 <= i < r@.len() ==> is_lower_hex(#[trigger] r@[i]),
{
    let joined = join_fields(inputs, config.signature_delimiter.as_str());
    blake3_hash_hex(joined.as_str())
}

} // verus!
