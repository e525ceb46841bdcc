//! The three endpoints of the verification service, and the routing that
//! leads to them, over a plain request and response.
use crate::app_params::AppParams;
use crate::primitives::{
    aes_gcm_encrypt, aes_gcm_sealed, base64_encode, base64_encoded, form_pairs, query_pairs,
    random_bytes, replace_text, replaced, semicolon_pieces, split_semicolons, trim_text, trimmed,
    unix_now, url_decode, url_decoded, url_encode, url_encoded,
};
use crate::request::{header_lookup, HttpRequest};
use crate::text::{strip_prefix, text_eq};
use vstd::prelude::*;
use vstd::string::*;
use vstd::utf8::encode_utf8;

verus! {

/// A response handed back to the dispatcher.
pub struct HttpResponse {
    pub status: u16,
    pub headers: Vec<(String, String)>,
    pub body: String,
}

impl HttpResponse {
    pub open spec fn header_views(&self) -> Seq<(Seq<char>, Seq<char>)> {
        self.headers@.map_values(|p: (String, String)| (p.0@, p.1@))
    }

    /// A response with `status`, no headers and no body.
    pub open spec fn is_bare(&self, status: u16) -> bool {
        self.status == status && self.headers@.len() == 0 && self.body@.len() == 0
    }
}

/// The first value given for `key` among `pairs`.
pub open spec fn first_value(pairs: Seq<(Seq<char>, Seq<char>)>, key: Seq<char>) -> Option<Seq<char>>
    decreases pairs.len(),
{
    if pairs.len() == 0 {
        None
    } else if pairs[0].0 == key {
        Some(pairs[0].1)
    } else {
        first_value(pairs.skip(1), key)
    }
}

pub open spec fn query_text(req: HttpRequest) -> Seq<char> {
    match req.query {
        Some(q) => q@,
        None => Seq::empty(),
    }
}

/// The decoded query parameter `key` of `req`, its first occurrence.
pub open spec fn query_param(req: HttpRequest, key: Seq<char>) -> Option<Seq<char>> {
    first_value(form_pairs(query_text(req)), key)
}

/// The value of the first cookie piece that, trimmed, starts with `key`.
pub open spec fn cookie_in_pieces(pieces: Seq<Seq<char>>, key: Seq<char>) -> Option<Seq<char>>
    decreases pieces.len(),
{
    if pieces.len() == 0 {
        None
    } else if key.is_prefix_of(trimmed(pieces[0])) {
        Some(trimmed(pieces[0]).skip(key.len() as int))
    } else {
        cookie_in_pieces(pieces.skip(1), key)
    }
}

/// The value of the cookie `name` in the request's `Cookie` header.
pub open spec fn request_cookie(req: HttpRequest, name: Seq<char>) -> Option<Seq<char>> {
    match header_lookup(req.header_views(), "cookie"@) {
        Some(Some(h)) => cookie_in_pieces(semicolon_pieces(h), name + seq!['=']),
        _ => None,
    }
}

/// GET, HEAD and OPTIONS change nothing and get no grace.
pub open spec fn is_safe_method(m: Seq<char>) -> bool {
    m == "GET"@ || m == "HEAD"@ || m == "OPTIONS"@
}

/// The fronting proxy's `x-request-uri` header must be text where present.
pub open spec fn request_uri_is_text(req: HttpRequest) -> bool {
    header_lookup(req.header_views(), "x-request-uri"@) != Some(None::<Seq<char>>)
}

/// The request URI the fronting proxy forwarded, `/` where it sent none.
pub open spec fn request_uri(req: HttpRequest) -> Seq<char> {
    match header_lookup(req.header_views(), "x-request-uri"@) {
        Some(Some(v)) => v,
        _ => "/"@,
    }
}

/// The path after the redirect endpoint's prefix; empty where it has none.
pub open spec fn path_token(req: HttpRequest) -> Seq<char> {
    if "/.chk/redirect/"@.is_prefix_of(req.path@) {
        req.path@.skip("/.chk/redirect/"@.len() as int)
    } else {
        Seq::empty()
    }
}

/// The challenge page: the template with its four markers filled in.
pub open spec fn challenge_page(
    template: Seq<char>,
    sealed: Seq<u8>,
    key: Seq<u8>,
    nonce: Seq<u8>,
    target: Seq<char>,
) -> Seq<char> {
    replaced(
        replaced(
            replaced(
                replaced(template, "{{encrypted_token}}"@, base64_encoded(sealed)),
                "{{key}}"@,
                base64_encoded(key),
            ),
            "{{iv}}"@,
            base64_encoded(nonce),
        ),
        "{{encoded_uri}}"@,
        target,
    )
}

/// Both challenge parameters are present.
pub open spec fn challenge_params_present(req: HttpRequest) -> bool {
    query_param(req, "token"@) is Some && query_param(req, "redir"@) is Some
}

/// Largest plaintext, in bytes, that AES-GCM seals.
pub open spec fn sealable(plain: Seq<u8>) -> bool {
    plain.len() <= 0x1000000000
}

impl AppParams {
    /// The request carries a session cookie for its fingerprint that is
    /// accepted at `now`, with grace for methods other than the safe ones.
    pub open spec fn verify_passes(&self, req: HttpRequest, now: u64) -> bool {
        match self.fingerprint(req) {
            None => false,
            Some(fp) => match request_cookie(req, self.cookie_name(fp)) {
                None => false,
                Some(v) => self.cookie_accepts(v, fp, !is_safe_method(req.method@), now),
            },
        }
    }

    /// The headers of the unauthorized response at `now`: a redirect token
    /// for the forwarded request URI, signed with the first secret, and that URI.
    pub open spec fn unauthorized_headers(&self, req: HttpRequest, now: u64) -> Seq<(Seq<char>, Seq<char>)> {
        let fp = match self.fingerprint(req) {
            Some(f) => f,
            None => Seq::empty(),
        };
        let secret = if self.secrets().len() > 0 {
            self.secrets()[0]
        } else {
            Seq::empty()
        };
        seq![
            ("X-Redir-Path"@, self.redirect_token(request_uri(req), fp, now, secret)),
            ("X-Encoded-Uri"@, request_uri(req)),
        ]
    }

    /// The unauthorized response at `now`: 401 with the headers above, or 400
    /// where the forwarded request URI is not text.
    pub open spec fn unauthorized_outcome(&self, req: HttpRequest, now: u64, r: HttpResponse) -> bool {
        if request_uri_is_text(req) {
            r.status == 401 && r.header_views() == self.unauthorized_headers(req, now) && r.body@.len()
                == 0
        } else {
            r.is_bare(400)
        }
    }

    /// The verify endpoint's response at `now`.
    pub open spec fn verify_outcome(&self, req: HttpRequest, now: u64, r: HttpResponse) -> bool {
        if self.verify_passes(req, now) {
            r.is_bare(200)
        } else {
            self.unauthorized_outcome(req, now, r)
        }
    }

    /// What the verify endpoint answers, whatever the clock reads: the
    /// response at some clock reading, or 500 where the clock cannot be read.
    pub open spec fn verify_result(&self, req: HttpRequest, r: HttpResponse) -> bool {
        r.is_bare(500) || exists|now: u64| #[trigger] self.verify_outcome(req, now, r)
    }

    /// The redirect-completion request holds a token that is accepted at `now`
    /// for its `redirect_uri` parameter and its fingerprint.
    pub open spec fn redirect_passes(&self, req: HttpRequest, now: u64) -> bool {
        let tok = path_token(req);
        &&& tok.len() > 0
        &&& query_param(req, "redirect_uri"@) is Some
        &&& self.fingerprint(req) is Some
        &&& self.token_accepts(tok, query_param(req, "redirect_uri"@)->0, self.fingerprint(req)->0, now)
    }

    /// The redirect-completion response at `now`: 307 to the target with the
    /// fresh session cookie, or 403 with an empty body.
    pub open spec fn redirect_outcome(&self, req: HttpRequest, now: u64, r: HttpResponse) -> bool {
        if self.redirect_passes(req, now) {
            let uri = query_param(req, "redirect_uri"@)->0;
            let fp = self.fingerprint(req)->0;
            &&& r.status == 307
            &&& r.body@.len() == 0
            &&& r.header_views().len() == if self.secrets().len() > 0 { 2int } else { 1int }
            &&& r.header_views()[0] == ("Location"@, uri)
            &&& self.secrets().len() > 0 ==> r.header_views()[1] == (
                "Set-Cookie"@,
                self.set_cookie_text(fp, now),
            )
        } else {
            r.is_bare(403)
        }
    }

    /// What the redirect-completion endpoint answers, whatever the clock reads.
    pub open spec fn redirect_result(&self, req: HttpRequest, r: HttpResponse) -> bool {
        r.is_bare(403) || exists|now: u64| #[trigger] self.redirect_outcome(req, now, r)
    }

    /// The challenge response with `key` and `nonce`: 400 where a parameter
    /// is missing, the page where the token can be sealed, else 500.
    pub open spec fn challenge_outcome(&self, req: HttpRequest, key: Seq<u8>, nonce: Seq<u8>, r: HttpResponse) -> bool {
        if !challenge_params_present(req) {
            r.status == 400 && r.headers@.len() == 0 && r.body@ == "Missing parameters"@
        } else if sealable(encode_utf8(query_param(req, "token"@)->0)) {
            &&& r.status == 200
            &&& r.header_views() == seq![("Content-Type"@, "text/html"@)]
            &&& r.body@ == challenge_page(
                self.js_challenge_template@,
                aes_gcm_sealed(key, nonce, encode_utf8(query_param(req, "token"@)->0)),
                key,
                nonce,
                query_param(req, "redir"@)->0,
            )
        } else {
            r.status == 500 && r.headers@.len() == 0 && r.body@ == "Encryption failed"@
        }
    }

    /// What the challenge endpoint answers, whatever the random source gives:
    /// the response for some 32-byte key and 12-byte nonce, or, with both
    /// parameters present, 500 where the random source fails.
    pub open spec fn challenge_result(&self, req: HttpRequest, r: HttpResponse) -> bool {
        ||| challenge_params_present(req) && r.status == 500 && r.headers@.len() == 0 && r.body@
            == "Random source unavailable"@
        ||| exists|key: Seq<u8>, nonce: Seq<u8>|
            key.len() == 32 && nonce.len() == 12 && #[trigger] self.challenge_outcome(req, key, nonce, r)
    }
}

/// 403 with an empty body.
pub fn response_403() -> (r: HttpResponse)
    ensures
        r.is_bare(403),
{
    HttpResponse { status: 403, headers: Vec::new(), body: String::new() }
}

/// The first value of query parameter `key`.
pub fn find_query_param(req: &HttpRequest, key: &str) -> (r: Option<String>)
    ensures
        match r {
            Some(v) => query_param(*req, key@) == Some(v@),
            None => query_param(*req, key@) is None,
        },
{
    let pairs = match &req.query {
        Some(q) => query_pairs(q.as_str()),
        None => query_pairs(""),
    };
    let ghost pv = form_pairs(query_text(*req));
    proof {
        if req.query is None {
            reveal_strlit("");
            assert(""@ =~= query_text(*req));
        }
        assert(pv.skip(0) =~= pv);
    }
    let mut i: usize = 0;
    while i < pairs.len()
        invariant
            i <= pairs@.len(),
            pv == form_pairs(query_text(*req)),
            pairs@.len() == pv.len(),
            forall|j: int| 0 <= j < pairs@.len() ==> (#[trigger] pairs@[j]).0@ == pv[j].0 && pairs@[j].1@ == pv[j].1,
            first_value(pv, key@) == first_value(pv.skip(i as int), key@),
        decreases pairs.len() - i,
    {
        assert(pv.skip(i as int).skip(1) =~= pv.skip(i + 1));
        assert(pv.skip(i as int)[0] == pv[i as int]);
        assert(pairs@[i as int].0@ == pv[i as int].0);
        if text_eq(pairs[i].0.as_str(), key) {
            return Some(pairs[i].1.clone());
        }
        i = i + 1;
    }
    None
}

/// The value of the cookie `name` in the request's `Cookie` header.
pub fn find_request_cookie(req: &HttpRequest, name: &str) -> (r: Option<String>)
    ensures
        match r {
            Some(v) => request_cookie(*req, name@) == Some(v@),
            None => request_cookie(*req, name@) is None,
        },
{
    let header = match req.header("cookie") {
        Some(Some(h)) => h,
        _ => return None,
    };
    let mut key = String::from_str(name);
    key.append("=");
    proof {
        reveal_strlit("=");
    }
    assert(key@ =~= name@ + seq!['=']);
    let pieces = split_semicolons(header.as_str());
    let ghost pv = semicolon_pieces(header@);
    assert(pv.skip(0) =~= pv);
    let mut i: usize = 0;
    while i < pieces.len()
        invariant
            i <= pieces@.len(),
            pv == semicolon_pieces(header@),
            pieces@.len() == pv.len(),
            forall|j: int| 0 <= j < pieces@.len() ==> (#[trigger] pieces@[j])@ == pv[j],
            request_cookie(*req, name@) == cookie_in_pieces(pv.skip(i as int), key@),
        decreases pieces.len() - i,
    {
        assert(pv.skip(i as int).skip(1) =~= pv.skip(i + 1));
        assert(pv.skip(i as int)[0] == pv[i as int]);
        let piece = trim_text(pieces[i].as_str());
        match strip_prefix(piece, key.as_str()) {
            Some(rest) => {
                return Some(String::from_str(rest));
            },
            None => {},
        }
        i = i + 1;
    }
    None
}

/// Whether `m` is GET, HEAD or OPTIONS.
pub fn method_is_safe(m: &str) -> (r: bool)
    ensures
        r == is_safe_method(m@),
{
    text_eq(m, "GET") || text_eq(m, "HEAD") || text_eq(m, "OPTIONS")
}

/// The unauthorized response at `now`: 401 carrying a fresh redirect token,
/// signed for the forwarded request URI, and that URI; 400 where that URI
/// is not text.
#[verifier::rlimit(100)]
pub fn unauthorized_response_at(req: &HttpRequest, config: &AppParams, now: u64) -> (r: HttpResponse)
    requires
        config.wf(),
    ensures
        config.unauthorized_outcome(*req, now, r),
        request_uri_is_text(*req) && config.secrets().len() > 0 && config.fingerprint(*req) is Some
            ==> config.token_text_accepts(
            r.header_views()[0].1,
            request_uri(*req),
            config.fingerprint(*req)->0,
            now,
        ),
{
    let uri = match req.header("x-request-uri") {
        Some(Some(v)) => v,
        Some(None) => return HttpResponse { status: 400, headers: Vec::new(), body: String::new() },
        None => String::from_str("/"),
    };
    let fp = match config.generate_request_signature(req) {
        Some(f) => f,
        None => String::new(),
    };
    let secret = if config.security_tokens.len() > 0 {
        config.security_tokens[0].clone()
    } else {
        String::new()
    };
    let token = config.issue_redirect_token(uri.as_str(), fp.as_str(), secret.as_str(), now);
    proof {
        if config.secrets().len() > 0 {
            assert(config.secrets()[0] == secret@);
            assert(config.secrets().contains(secret@));
            assert(config.token_text_accepts(token@, uri@, fp@, now));
        }
    }
    let mut headers: Vec<(String, String)> = Vec::new();
    headers.push((String::from_str("X-Redir-Path"), token));
    headers.push((String::from_str("X-Encoded-Uri"), uri));
    let ghost token_view = headers@[0].1@;
    let r = HttpResponse { status: 401, headers, body: String::new() };
    assert(r.header_views() =~= config.unauthorized_headers(*req, now));
    assert(r.header_views()[0].1 == token_view);
    assert(uri@ == request_uri(*req));
    r
}

/// The verify endpoint at clock reading `now`: 200 where the request's
/// session cookie is accepted, else the unauthorized response.
pub fn verify_handler_at(req: &HttpRequest, config: &AppParams, now: u64) -> (r: HttpResponse)
    requires
        config.wf(),
    ensures
        config.verify_outcome(*req, now, r),
{
    let fp = match config.generate_request_signature(req) {
        Some(f) => f,
        None => return unauthorized_response_at(req, config, now),
    };
    let fp_hash = crate::app_params::blake3_hash(fp.as_str());
    let name = replace_text(config.cookie_name_template.as_str(), "{}", fp_hash.as_str());
    let value = match find_request_cookie(req, name.as_str()) {
        Some(v) => v,
        None => return unauthorized_response_at(req, config, now),
    };
    let grace_required = !method_is_safe(req.method.as_str());
    if config.validate_cookie_at(value.as_str(), fp.as_str(), grace_required, now) {
        return HttpResponse { status: 200, headers: Vec::new(), body: String::new() };
    }
    unauthorized_response_at(req, config, now)
}

/// The redirect-completion endpoint at clock reading `now`: 307 to the
/// target with a fresh session cookie where the percent-encoded token in
/// the path is accepted, else 403 with an empty body.
pub fn redirect_handler_at(req: &HttpRequest, config: &AppParams, now: u64) -> (r: HttpResponse)
    requires
        config.wf(),
    ensures
        config.redirect_outcome(*req, now, r),
{
    let token = match strip_prefix(req.path.as_str(), "/.chk/redirect/") {
        Some(t) => t,
        None => "",
    };
    proof {
        reveal_strlit("");
    }
    if token.unicode_len() == 0 {
        return response_403();
    }
    let uri = match find_query_param(req, "redirect_uri") {
        Some(u) => u,
        None => return response_403(),
    };
    let encoded_uri = url_encode(uri.as_str());
    let fp = match config.generate_request_signature(req) {
        Some(f) => f,
        None => return response_403(),
    };
    if !config.validate_redirect_token_at(token, uri.as_str(), fp.as_str(), now) {
        return response_403();
    }
    let location = match url_decode(encoded_uri.as_str()) {
        Some(l) => l,
        None => return response_403(),
    };
    let mut headers: Vec<(String, String)> = Vec::new();
    headers.push((String::from_str("Location"), location));
    match config.generate_cookie_at(fp.as_str(), now) {
        Some(cookie) => {
            let text = cookie.to_header_value();
            headers.push((String::from_str("Set-Cookie"), text));
        },
        None => {},
    }
    let r = HttpResponse { status: 307, headers, body: String::new() };
    assert(r.header_views()[0] == ("Location"@, uri@));
    r
}

/// The challenge endpoint with the given key and nonce: 400 where the
/// `token` or `redir` parameter is missing; else the challenge page with
/// the token sealed under `key` and `nonce`, or 500 where sealing fails.
pub fn js_challenge_with(req: &HttpRequest, config: &AppParams, key: &[u8], nonce: &[u8]) -> (r: HttpResponse)
    requires
        key@.len() == 32,
        nonce@.len() == 12,
    ensures
        config.challenge_outcome(*req, key@, nonce@, r),
{
    let token = find_query_param(req, "token");
    let target = find_query_param(req, "redir");
    if token.is_none() || target.is_none() {
        return missing_parameters();
    }
    let token = token.unwrap();
    let target = target.unwrap();
    let sealed = match aes_gcm_encrypt(key, nonce, token.as_str().as_bytes()) {
        Some(c) => c,
        None => return HttpResponse { status: 500, headers: Vec::new(), body: String::from_str("Encryption failed") },
    };
    let sealed_b64 = base64_encode(sealed.as_slice());
    let key_b64 = base64_encode(key);
    let iv_b64 = base64_encode(nonce);
    let page = replace_text(config.js_challenge_template.as_str(), "{{encrypted_token}}", sealed_b64.as_str());
    let page = replace_text(page.as_str(), "{{key}}", key_b64.as_str());
    let page = replace_text(page.as_str(), "{{iv}}", iv_b64.as_str());
    let page = replace_text(page.as_str(), "{{encoded_uri}}", target.as_str());
    let mut headers: Vec<(String, String)> = Vec::new();
    headers.push((String::from_str("Content-Type"), String::from_str("text/html")));
    let r = HttpResponse { status: 200, headers, body: page };
    assert(r.header_views() =~= seq![("Content-Type"@, "text/html"@)]);
    r
}

/// 400 for a challenge request that lacks a parameter.
fn missing_parameters() -> (r: HttpResponse)
    ensures
        r.status == 400 && r.headers@.len() == 0 && r.body@ == "Missing parameters"@,
{
    HttpResponse { status: 400, headers: Vec::new(), body: String::from_str("Missing parameters") }
}

/// The unauthorized response against the system clock; 500 where the clock
/// cannot be read.
pub fn unauthorized_response(req: &HttpRequest, config: &AppParams) -> (r: HttpResponse)
    requires
        config.wf(),
    ensures
        r.is_bare(500) || exists|now: u64| #[trigger] config.unauthorized_outcome(*req, now, r),
{
    match unix_now() {
        Some(now) => {
            let r = unauthorized_response_at(req, config, now);
            assert(config.unauthorized_outcome(*req, now, r));
            r
        },
        None => HttpResponse { status: 500, headers: Vec::new(), body: String::new() },
    }
}

/// The verify endpoint against the system clock; 500 where the clock cannot
/// be read.
pub fn verify_handler(req: &HttpRequest, config: &AppParams) -> (r: HttpResponse)
    requires
        config.wf(),
    ensures
        config.verify_result(*req, r),
{
    match unix_now() {
        Some(now) => {
            let r = verify_handler_at(req, config, now);
            assert(config.verify_outcome(*req, now, r));
            r
        },
        None => HttpResponse { status: 500, headers: Vec::new(), body: String::new() },
    }
}

/// The redirect-completion endpoint against the system clock; 403 where the
/// clock cannot be read.
pub fn redirect_handler(req: &HttpRequest, config: &AppParams) -> (r: HttpResponse)
    requires
        config.wf(),
    ensures
        config.redirect_result(*req, r),
{
    match unix_now() {
        Some(now) => {
            let r = redirect_handler_at(req, config, now);
            assert(config.redirect_outcome(*req, now, r));
            r
        },
        None => response_403(),
    }
}

/// The challenge endpoint: checks the parameters, then seals the token
/// under a fresh random key and nonce; 500 where the secure random source
/// fails.
pub fn js_challenge_handler(req: &HttpRequest, config: &AppParams) -> (r: HttpResponse)
    ensures
        config.challenge_result(*req, r),
{
    if find_query_param(req, "token").is_none() || find_query_param(req, "redir").is_none() {
        let r = missing_parameters();
        let ghost k = Seq::new(32, |i: int| 0u8);
        let ghost n = Seq::new(12, |i: int| 0u8);
        assert(config.challenge_outcome(*req, k, n, r));
        return r;
    }
    let key = match random_bytes(32) {
        Some(k) => k,
        None => return random_failure(),
    };
    let nonce = match random_bytes(12) {
        Some(n) => n,
        None => return random_failure(),
    };
    let r = js_challenge_with(req, config, key.as_slice(), nonce.as_slice());
    assert(config.challenge_outcome(*req, key@, nonce@, r));
    r
}

/// 500 where the secure random source fails.
fn random_failure() -> (r: HttpResponse)
    ensures
        r.status == 500 && r.headers@.len() == 0 && r.body@ == "Random source unavailable"@,
{
    HttpResponse { status: 500, headers: Vec::new(), body: String::from_str("Random source unavailable") }
}

/// Where a request's path leads.
pub open spec fn route_of(path: Seq<char>) -> int {
    if path == "/ping"@ {
        0
    } else if path == "/.chk/verify"@ {
        1
    } else if "/.chk/redirect/"@.is_prefix_of(path) {
        2
    } else if path == "/.chk/js/"@ {
        3
    } else {
        4
    }
}

/// Dispatches a request by its path: `/ping` answers `pong`, the three
/// endpoints answer as their handlers do, anything else is 404.
pub fn handle_request(req: &HttpRequest, config: &AppParams) -> (r: HttpResponse)
    requires
        config.wf(),
    ensures
        route_of(req.path@) == 0 ==> r.status == 200 && r.headers@.len() == 0 && r.body@ == "pong"@,
        route_of(req.path@) == 1 ==> config.verify_result(*req, r),
        route_of(req.path@) == 2 ==> config.redirect_result(*req, r),
        route_of(req.path@) == 3 ==> config.challenge_result(*req, r),
        route_of(req.path@) == 4 ==> r.is_bare(404),
{
    let path = req.path.as_str();
    if text_eq(path, "/ping") {
        HttpResponse { status: 200, headers: Vec::new(), body: String::from_str("pong") }
    } else if text_eq(path, "/.chk/verify") {
        verify_handler(req, config)
    } else if strip_prefix(path, "/.chk/redirect/").is_some() {
        redirect_handler(req, config)
    } else if text_eq(path, "/.chk/js/") {
        js_challenge_handler(req, config)
    } else {
        HttpResponse { status: 404, headers: Vec::new(), body: String::new() }
    }
}

} // verus!
