use aes_gcm::aead::Aead;
use aes_gcm::{Aes256Gcm, KeyInit, Nonce};
use antibot::text::{decimal_string, parse_u64};
use antibot::{
    blake3_hash, blake3_hash_from_strings, handle_request, js_challenge_handler, js_challenge_with,
    redirect_handler_at, unauthorized_response_at, verify_handler_at, AppParams, HttpRequest,
    HttpResponse, SessionCookie,
};
use base64::engine::general_purpose;
use base64::Engine;

const VALIDITY: i64 = 3600;

fn params(secrets: &[&str]) -> AppParams {
    AppParams {
        security_tokens: secrets.iter().map(|s| s.to_string()).collect(),
        signature_headers: vec!["X-UA".to_string()],
        signature_delimiter: "|".to_string(),
        cookie_name_template: "session_{}".to_string(),
        cookie_max_age_seconds: VALIDITY,
        redirect_token_max_age_seconds: 60,
        js_challenge_template_path: String::new(),
        js_challenge_template: "{{encrypted_token}}|{{key}}|{{iv}}|{{encoded_uri}}".to_string(),
    }
}

fn request(method: &str, path: &str, query: Option<&str>, headers: &[(&str, &str)]) -> HttpRequest {
    HttpRequest {
        method: method.to_string(),
        path: path.to_string(),
        query: query.map(|q| q.to_string()),
        headers: headers.iter().map(|(n, v)| (n.to_string(), Some(v.to_string()))).collect(),
    }
}

fn header<'a>(r: &'a HttpResponse, name: &str) -> Option<&'a str> {
    r.headers.iter().find(|(n, _)| n == name).map(|(_, v)| v.as_str())
}

fn ua_request() -> HttpRequest {
    request("GET", "/.chk/verify", None, &[("x-ua", "bot-test")])
}

fn decoded_content(value: &str) -> String {
    String::from_utf8(general_purpose::STANDARD.decode(value).unwrap()).unwrap()
}

fn with_digest(content: &str, digest: &str) -> String {
    let ts = content.split(':').next().unwrap();
    general_purpose::STANDARD.encode(format!("{}:{}", ts, digest))
}

#[test]
fn end_to_end_cookie_windows() {
    let p = params(&["s1"]);
    let fp = p.generate_request_signature(&ua_request()).unwrap();
    assert_eq!(fp, "bot-test");
    let cookie = p.generate_cookie_at(&fp, 1000).unwrap();
    assert!(p.validate_cookie_at(&cookie.value, &fp, false, 1000 + VALIDITY as u64 - 1));
    assert!(!p.validate_cookie_at(&cookie.value, &fp, false, 1000 + VALIDITY as u64 + 1));
    assert!(p.validate_cookie_at(&cookie.value, &fp, true, 1000 + VALIDITY as u64 + 1));
}

#[test]
fn issued_cookie_wire_format() {
    let p = params(&["s1"]);
    let cookie = p.generate_cookie_at("bot-test", 1000).unwrap();
    let hash = blake3_hash("bot-test");
    assert_eq!(cookie.name, format!("session_{}", hash));
    assert_eq!(cookie.max_age_seconds, 2 * VALIDITY);
    let digest = blake3_hash_from_strings(
        &["1000".to_string(), hash.clone(), "s1".to_string()],
        &p,
    );
    assert_eq!(decoded_content(&cookie.value), format!("1000:{}", digest));
    assert_eq!(
        cookie.to_header_value(),
        format!("session_{}={}; HttpOnly; Path=/; Max-Age=7200", hash, cookie.value)
    );
}

#[test]
fn round_trip_right_after_issuance() {
    let p = params(&["s1"]);
    for fp in ["", "bot-test", "a|b", "ünï"] {
        let cookie = p.generate_cookie_at(fp, 5).unwrap();
        assert!(p.validate_cookie_at(&cookie.value, fp, false, 5));
        assert!(p.validate_cookie(&p.generate_cookie(fp).unwrap().value, fp, false));
    }
}

#[test]
fn no_cookie_without_secrets() {
    let p = params(&[]);
    assert!(p.generate_cookie_at("bot-test", 5).is_none());
}

#[test]
fn rotation_keeps_and_drops_secrets() {
    let old = params(&["s1"]);
    let cookie = old.generate_cookie_at("fp", 1000).unwrap();
    let rotated = params(&["s2", "s1"]);
    assert!(rotated.validate_cookie_at(&cookie.value, "fp", false, 1000));
    let removed = params(&["s2"]);
    assert!(!removed.validate_cookie_at(&cookie.value, "fp", false, 1000));
    assert!(!removed.validate_cookie_at(&cookie.value, "fp", true, 1000));
}

#[test]
fn grace_asymmetry_between_windows() {
    let p = params(&["s1"]);
    let cookie = p.generate_cookie_at("fp", 1000).unwrap();
    let now = 1000 + VALIDITY as u64 + VALIDITY as u64 / 2;
    assert!(!p.validate_cookie_at(&cookie.value, "fp", false, now));
    assert!(p.validate_cookie_at(&cookie.value, "fp", true, now));
}

#[test]
fn clock_skew_counts_as_age_zero() {
    let p = params(&["s1"]);
    let cookie = p.generate_cookie_at("fp", 5000).unwrap();
    assert!(p.validate_cookie_at(&cookie.value, "fp", false, 10));
}

#[test]
fn tampered_digest_or_fingerprint_fails() {
    let p = params(&["s1"]);
    let cookie = p.generate_cookie_at("fp", 1000).unwrap();
    let content = decoded_content(&cookie.value);
    let digest: Vec<char> = content.split(':').nth(1).unwrap().chars().collect();
    for i in 0..digest.len() {
        let mut d = digest.clone();
        d[i] = if d[i] == 'a' { 'b' } else { 'a' };
        let forged = with_digest(&content, &d.iter().collect::<String>());
        assert!(!p.validate_cookie_at(&forged, "fp", true, 1000));
    }
    assert!(!p.validate_cookie_at(&cookie.value, "other", true, 1000));
}

#[test]
fn malformed_cookies_fail() {
    let p = params(&["s1"]);
    assert!(!p.validate_cookie_at("%%%", "fp", true, 1));
    let enc = |s: &str| general_purpose::STANDARD.encode(s);
    assert!(!p.validate_cookie_at(&enc("1000"), "fp", true, 1));
    assert!(!p.validate_cookie_at(&enc("1000:a:b"), "fp", true, 1));
    assert!(!p.validate_cookie_at(&enc("x1000:abc"), "fp", true, 1));
    assert!(!p.validate_cookie_at(&general_purpose::STANDARD.encode([0xffu8, b':', b'1']), "fp", true, 1));
}

#[test]
fn fingerprint_slots() {
    let mut p = params(&["s1"]);
    p.signature_headers = vec!["X-UA".to_string(), "Accept-Language".to_string()];
    let r = request("GET", "/", None, &[("x-ua", "bot-test")]);
    assert_eq!(p.generate_request_signature(&r).unwrap(), "bot-test|");
    let r = request("GET", "/", None, &[("accept-language", "en"), ("x-ua", "u")]);
    assert_eq!(p.generate_request_signature(&r).unwrap(), "u|en");
    let mut bad = request("GET", "/", None, &[("x-ua", "u")]);
    bad.headers.push(("accept-language".to_string(), None));
    assert!(p.generate_request_signature(&bad).is_none());
}

#[test]
fn fingerprint_deterministic() {
    let p = params(&["s1"]);
    let a = request("GET", "/a", None, &[("x-ua", "same"), ("other", "1")]);
    let b = request("POST", "/b", None, &[("X-UA", "same")]);
    let c = request("GET", "/a", None, &[("x-ua", "different")]);
    let fa = p.generate_request_signature(&a).unwrap();
    let fb = p.generate_request_signature(&b).unwrap();
    let fc = p.generate_request_signature(&c).unwrap();
    assert_eq!(fa, fb);
    assert_eq!(blake3_hash(&fa), blake3_hash(&fb));
    assert_ne!(blake3_hash(&fa), blake3_hash(&fc));
}

#[test]
fn blake3_known_value() {
    assert_eq!(
        blake3_hash(""),
        "af1349b9f5f9a1a6a0404dea36dcc9499bcb25c9adc112b7cc9a93cae41f3262"
    );
    let p = params(&["s1"]);
    assert_eq!(
        blake3_hash_from_strings(&["a".to_string(), "b".to_string()], &p),
        blake3_hash("a|b")
    );
}

#[test]
fn unauthorized_carries_redirect_token() {
    let p = params(&["s1"]);
    let r = request("GET", "/.chk/verify", None, &[("x-ua", "bot-test"), ("x-request-uri", "/page?a=1")]);
    let resp = unauthorized_response_at(&r, &p, 2000);
    assert_eq!(resp.status, 401);
    assert_eq!(header(&resp, "X-Encoded-Uri"), Some("/page?a=1"));
    let token = header(&resp, "X-Redir-Path").unwrap();
    let digest = blake3_hash_from_strings(
        &[
            "2000".to_string(),
            "%2Fpage%3Fa%3D1".to_string(),
            blake3_hash("bot-test"),
            "s1".to_string(),
        ],
        &p,
    );
    assert_eq!(token, format!("2000:{}", digest));
    assert!(p.validate_redirect_token_at(token, "/page?a=1", "bot-test", 2000));
    let no_uri = request("GET", "/.chk/verify", None, &[("x-ua", "bot-test")]);
    assert_eq!(header(&unauthorized_response_at(&no_uri, &p, 1), "X-Encoded-Uri"), Some("/"));
}

#[test]
fn redirect_token_expires_before_cookie() {
    let p = params(&["s1"]);
    let r = request("GET", "/.chk/verify", None, &[("x-ua", "fp"), ("x-request-uri", "/x")]);
    let token = header(&unauthorized_response_at(&r, &p, 1000), "X-Redir-Path").unwrap().to_string();
    let cookie = p.generate_cookie_at("fp", 1000).unwrap();
    assert!(p.validate_redirect_token_at(&token, "/x", "fp", 1060));
    assert!(!p.validate_redirect_token_at(&token, "/x", "fp", 1061));
    assert!(p.validate_cookie_at(&cookie.value, "fp", false, 1061));
    assert!(!p.validate_redirect_token_at(&token, "/y", "fp", 1000));
    assert!(!p.validate_redirect_token_at(&token, "/x", "other", 1000));
    assert!(!p.validate_redirect_token_at("1000", "/x", "fp", 1000));
}

#[test]
fn verify_endpoint_accepts_valid_cookie() {
    let p = params(&["s1"]);
    let cookie = p.generate_cookie_at("bot-test", 1000).unwrap();
    let line = format!("other=1; {}={}", cookie.name, cookie.value);
    let get = request("GET", "/.chk/verify", None, &[("x-ua", "bot-test"), ("cookie", &line)]);
    let ok = verify_handler_at(&get, &p, 1001);
    assert_eq!(ok.status, 200);
    assert!(ok.headers.is_empty() && ok.body.is_empty());
    let late = 1000 + VALIDITY as u64 + 1;
    assert_eq!(verify_handler_at(&get, &p, late).status, 401);
    let post = request("POST", "/.chk/verify", None, &[("x-ua", "bot-test"), ("cookie", &line)]);
    assert_eq!(verify_handler_at(&post, &p, late).status, 200);
    let bare = request("GET", "/.chk/verify", None, &[("x-ua", "bot-test")]);
    let denied = verify_handler_at(&bare, &p, 1001);
    assert_eq!(denied.status, 401);
    assert_eq!(header(&denied, "X-Encoded-Uri"), Some("/"));
}

#[test]
fn redirect_endpoint_sets_cookie() {
    let p = params(&["s1"]);
    let r = request("GET", "/.chk/verify", None, &[("x-ua", "fp"), ("x-request-uri", "/page?a=1")]);
    let token = header(&unauthorized_response_at(&r, &p, 1000), "X-Redir-Path").unwrap().to_string();
    let path = format!("/.chk/redirect/{}", token.replace(':', "%3A"));
    let query = "redirect_uri=%2Fpage%3Fa%3D1";
    let back = request("GET", &path, Some(query), &[("x-ua", "fp")]);
    let resp = redirect_handler_at(&back, &p, 1010);
    assert_eq!(resp.status, 307);
    assert_eq!(header(&resp, "Location"), Some("/page?a=1"));
    let cookie = p.generate_cookie_at("fp", 1010).unwrap();
    assert_eq!(header(&resp, "Set-Cookie"), Some(cookie.to_header_value().as_str()));
    let expired = redirect_handler_at(&back, &p, 1100);
    assert_eq!(expired.status, 403);
    assert!(expired.headers.is_empty() && expired.body.is_empty());
    let no_target = request("GET", &path, None, &[("x-ua", "fp")]);
    assert_eq!(redirect_handler_at(&no_target, &p, 1010).status, 403);
    let no_token = request("GET", "/.chk/redirect/", Some(query), &[("x-ua", "fp")]);
    assert_eq!(redirect_handler_at(&no_token, &p, 1010).status, 403);
}

#[test]
fn challenge_is_fresh_each_time() {
    let p = params(&["s1"]);
    let r = request("GET", "/.chk/js/", Some("token=abc&redir=%2Fx"), &[]);
    let a = js_challenge_handler(&r, &p);
    let b = js_challenge_handler(&r, &p);
    assert_eq!(a.status, 200);
    assert_eq!(b.status, 200);
    let pa: Vec<&str> = a.body.split('|').collect();
    let pb: Vec<&str> = b.body.split('|').collect();
    assert_eq!(pa.len(), 4);
    assert_ne!(pa[0], pb[0]);
    assert_ne!(pa[1], pb[1]);
    assert_ne!(pa[2], pb[2]);
    assert_eq!(pa[3], "/x");
    let key = general_purpose::STANDARD.decode(pa[1]).unwrap();
    let iv = general_purpose::STANDARD.decode(pa[2]).unwrap();
    assert_eq!(key.len(), 32);
    assert_eq!(iv.len(), 12);
    let ct = general_purpose::STANDARD.decode(pa[0]).unwrap();
    let cipher = Aes256Gcm::new_from_slice(&key).unwrap();
    let plain = cipher.decrypt(Nonce::from_slice(&iv), ct.as_slice()).unwrap();
    assert_eq!(plain, b"abc");
}

#[test]
fn challenge_with_given_key() {
    let p = params(&["s1"]);
    let r = request("GET", "/.chk/js/", Some("token=abc&redir=%2Fx"), &[]);
    let key = [7u8; 32];
    let iv = [9u8; 12];
    let resp = js_challenge_with(&r, &p, &key, &iv);
    assert_eq!(resp.status, 200);
    assert_eq!(resp.headers, vec![("Content-Type".to_string(), "text/html".to_string())]);
    let parts: Vec<&str> = resp.body.split('|').collect();
    assert_eq!(parts[1], general_purpose::STANDARD.encode(key));
    assert_eq!(parts[2], general_purpose::STANDARD.encode(iv));
    let ct = Aes256Gcm::new_from_slice(&key).unwrap().encrypt(Nonce::from_slice(&iv), b"abc".as_slice()).unwrap();
    assert_eq!(parts[0], general_purpose::STANDARD.encode(ct));
}

#[test]
fn challenge_missing_parameters() {
    let p = params(&["s1"]);
    for q in [None, Some("token=abc"), Some("redir=%2F")] {
        let r = request("GET", "/.chk/js/", q, &[]);
        let resp = js_challenge_handler(&r, &p);
        assert_eq!(resp.status, 400);
        assert_eq!(resp.body, "Missing parameters");
    }
}

#[test]
fn routing() {
    let p = params(&["s1"]);
    let ping = handle_request(&request("GET", "/ping", None, &[]), &p);
    assert_eq!((ping.status, ping.body.as_str()), (200, "pong"));
    assert_eq!(handle_request(&request("GET", "/nope", None, &[]), &p).status, 404);
    assert_eq!(handle_request(&request("GET", "/.chk/verify", None, &[("x-ua", "u")]), &p).status, 401);
    assert_eq!(handle_request(&request("GET", "/.chk/redirect/1:2", None, &[]), &p).status, 403);
    assert_eq!(handle_request(&request("GET", "/.chk/js/", None, &[]), &p).status, 400);
}

#[test]
fn decimal_text() {
    assert_eq!(parse_u64("+12"), Some(12));
    assert_eq!(parse_u64("0012"), Some(12));
    assert_eq!(parse_u64("18446744073709551615"), Some(u64::MAX));
    assert_eq!(parse_u64("18446744073709551616"), None);
    assert_eq!(parse_u64(""), None);
    assert_eq!(parse_u64("+"), None);
    assert_eq!(parse_u64("-1"), None);
    assert_eq!(decimal_string(0), "0");
    assert_eq!(decimal_string(1234), "1234");
}

#[test]
fn set_cookie_text() {
    let c = SessionCookie { name: "n".to_string(), value: "v".to_string(), max_age_seconds: 10 };
    assert_eq!(c.to_header_value(), "n=v; HttpOnly; Path=/; Max-Age=10");
}

#[test]
fn redirect_token_is_percent_decoded() {
    let p = params(&["s1"]);
    let r = request("GET", "/.chk/verify", None, &[("x-ua", "fp"), ("x-request-uri", "/x")]);
    let token = header(&unauthorized_response_at(&r, &p, 1000), "X-Redir-Path").unwrap().to_string();
    let encoded = token.replace(':', "%3A");
    assert!(p.validate_redirect_token_at(&encoded, "/x", "fp", 1000));
    assert!(!p.validate_redirect_token_at("1000%ff:abc", "/x", "fp", 1000));
    assert!(!p.validate_redirect_token_at(&format!("{}%ff", token), "/x", "fp", 1000));
}

#[test]
fn request_uri_not_text_is_bad_request() {
    let p = params(&["s1"]);
    let mut r = request("GET", "/.chk/verify", None, &[("x-ua", "fp")]);
    r.headers.push(("x-request-uri".to_string(), None));
    let resp = verify_handler_at(&r, &p, 1000);
    assert_eq!(resp.status, 400);
    assert!(resp.headers.is_empty() && resp.body.is_empty());
}

#[test]
fn verify_denial_carries_both_headers() {
    let p = params(&["s1"]);
    let r = request("GET", "/.chk/verify", None, &[("x-ua", "fp"), ("x-request-uri", "/y")]);
    let resp = verify_handler_at(&r, &p, 1000);
    assert_eq!(resp.status, 401);
    assert_eq!(resp.headers.len(), 2);
    assert!(header(&resp, "X-Redir-Path").unwrap().starts_with("1000:"));
    assert_eq!(header(&resp, "X-Encoded-Uri"), Some("/y"));
    assert!(resp.body.is_empty());
}

#[test]
fn blake3_digest_form() {
    let h = blake3_hash("bot-test");
    assert_eq!(h.len(), 64);
    assert!(h.chars().all(|c| c.is_ascii_digit() || ('a'..='f').contains(&c)));
}
