use base64::Engine;
use openssl::hash::MessageDigest;
use openssl::pkey::PKey;
use openssl::rsa::Rsa;
use openssl::sign::Signer;
use plex_catalog::auth::{
    bearer_token, certs_url, get_token_pieces, token_action, token_pieces_from, token_claims_ok, verify_token, CSHAuth, CertKey,
    Gate, JwksCache, KeyError, TokenAction, TokenError, TokenHeader, TokenVerdict, User,
};

fn b64(bytes: &[u8]) -> String {
    base64::engine::general_purpose::URL_SAFE_NO_PAD.encode(bytes)
}

fn user(exp: u32) -> User {
    User {
        exp,
        iat: None,
        auth_time: None,
        jti: None,
        iss: None,
        aud: None,
        sub: "subject".to_string(),
        typ: None,
        azp: None,
        nonce: None,
        session_state: None,
        scope: None,
        sid: None,
        email_verified: None,
        name: Some("Test User".to_string()),
        groups: None,
        preferred_username: "tester".to_string(),
        given_name: None,
        family_name: None,
        email: None,
    }
}

fn header(alg: &str, kid: &str) -> TokenHeader {
    TokenHeader { alg: alg.to_string(), kid: kid.to_string(), typ: "JWT".to_string() }
}

struct Signed {
    cert: CertKey,
    header_64: String,
    payload_64: String,
    signature: Vec<u8>,
}

fn signed_token(kid: &str) -> Signed {
    let rsa = Rsa::generate(2048).unwrap();
    let n = rsa.n().to_vec();
    let e = rsa.e().to_vec();
    let pkey = PKey::from_rsa(rsa).unwrap();
    let header_64 = b64(br#"{"alg":"RS256","kid":"k1","typ":"JWT"}"#);
    let payload_64 = b64(br#"{"exp":4000000000,"sub":"subject","preferred_username":"tester"}"#);
    let mut signer = Signer::new(MessageDigest::sha256(), &pkey).unwrap();
    signer.update(header_64.as_bytes()).unwrap();
    signer.update(b".").unwrap();
    signer.update(payload_64.as_bytes()).unwrap();
    let signature = signer.sign_to_vec().unwrap();
    let cert = CertKey {
        kid: kid.to_string(),
        kty: "RSA".to_string(),
        alg: "RS256".to_string(),
        key_use: "sig".to_string(),
        n: b64(&n),
        e: b64(&e),
    };
    Signed { cert, header_64, payload_64, signature }
}

#[test]
fn token_pieces_decode_three_parts() {
    let token = format!("{}.{}.{}", b64(b"{\"a\":1}"), b64(b"{\"b\":2}"), b64(&[1, 2, 3]));
    let pieces = get_token_pieces(&token).unwrap();
    assert_eq!(pieces.header_json, b"{\"a\":1}".to_vec());
    assert_eq!(pieces.payload_json, b"{\"b\":2}".to_vec());
    assert_eq!(pieces.signature, vec![1, 2, 3]);
    assert_eq!(pieces.header_64, b64(b"{\"a\":1}"));
    assert_eq!(pieces.payload_64, b64(b"{\"b\":2}"));
}

#[test]
fn token_pieces_ignore_extra_parts() {
    let token = format!("{}.{}.{}.ignored", b64(b"h"), b64(b"p"), b64(b"s"));
    let pieces = get_token_pieces(&token).unwrap();
    assert_eq!(pieces.signature, b"s".to_vec());
}

#[test]
fn token_pieces_errors() {
    assert_eq!(get_token_pieces("!!!").err(), Some(TokenError::HeaderEncoding));
    assert_eq!(get_token_pieces(&b64(b"h")).err(), Some(TokenError::MissingPayload));
    assert_eq!(
        get_token_pieces(&format!("{}.@@", b64(b"h"))).err(),
        Some(TokenError::PayloadEncoding)
    );
    assert_eq!(
        get_token_pieces(&format!("{}.{}", b64(b"h"), b64(b"p"))).err(),
        Some(TokenError::MissingSignature)
    );
    assert_eq!(
        get_token_pieces(&format!("{}.{}.a", b64(b"h"), b64(b"p"))).err(),
        Some(TokenError::SignatureEncoding)
    );
}

#[test]
fn claims_check_expiry_and_algorithm() {
    assert!(token_claims_ok(&header("RS256", "k"), &user(100), 100));
    assert!(!token_claims_ok(&header("RS256", "k"), &user(99), 100));
    assert!(!token_claims_ok(&header("HS256", "k"), &user(1000), 100));
    assert!(!token_claims_ok(&header("rs256", "k"), &user(1000), 100));
}

#[test]
fn claims_compare_with_time_cut_to_32_bits() {
    // 2^32 + 5 seconds reads as 5
    assert!(token_claims_ok(&header("RS256", "k"), &user(6), (1i64 << 32) + 5));
}

#[test]
fn signed_token_verifies_with_cached_key() {
    let signed = signed_token("k1");
    let mut cache = JwksCache::new();
    assert!(cache.insert_keys(&vec![signed.cert.clone()]).is_ok());
    assert!(cache.contains_kid("k1"));
    let token = format!("{}.{}.{}", signed.header_64, signed.payload_64, b64(&signed.signature));
    let pieces = get_token_pieces(&token).unwrap();
    assert_eq!(pieces.signature, signed.signature);
    let verdict = verify_token(
        &cache,
        &header("RS256", "k1"),
        &pieces.header_64,
        &user(4_000_000_000),
        &pieces.payload_64,
        &pieces.signature,
        1_700_000_000,
    );
    assert_eq!(verdict, TokenVerdict::Valid);
}

#[test]
fn tampered_token_is_invalid() {
    let signed = signed_token("k1");
    let mut cache = JwksCache::new();
    cache.insert_keys(&vec![signed.cert.clone()]).unwrap();
    let mut sig = signed.signature.clone();
    sig[0] ^= 1;
    let verdict = verify_token(
        &cache,
        &header("RS256", "k1"),
        &signed.header_64,
        &user(4_000_000_000),
        &signed.payload_64,
        &sig,
        1_700_000_000,
    );
    assert_eq!(verdict, TokenVerdict::Invalid);
    let other_payload = b64(b"{\"exp\":4000000000}");
    let verdict = verify_token(
        &cache,
        &header("RS256", "k1"),
        &signed.header_64,
        &user(4_000_000_000),
        &other_payload,
        &signed.signature,
        1_700_000_000,
    );
    assert_eq!(verdict, TokenVerdict::Invalid);
}

#[test]
fn unknown_key_and_failed_claims() {
    let signed = signed_token("k1");
    let mut cache = JwksCache::new();
    cache.insert_keys(&vec![signed.cert.clone()]).unwrap();
    let unknown = verify_token(
        &cache,
        &header("RS256", "other"),
        &signed.header_64,
        &user(4_000_000_000),
        &signed.payload_64,
        &signed.signature,
        1_700_000_000,
    );
    assert_eq!(unknown, TokenVerdict::UnknownKey);
    let expired = verify_token(
        &cache,
        &header("RS256", "other"),
        &signed.header_64,
        &user(10),
        &signed.payload_64,
        &signed.signature,
        1_700_000_000,
    );
    assert_eq!(expired, TokenVerdict::Invalid);
}

#[test]
fn key_refresh_skips_cached_ids_and_stops_at_bad_key() {
    let good = signed_token("k1").cert;
    let mut cache = JwksCache::new();
    let bad = CertKey { kid: "k2".to_string(), n: "***".to_string(), ..good.clone() };
    let third = CertKey { kid: "k3".to_string(), ..good.clone() };
    let r = cache.insert_keys(&vec![good.clone(), good.clone(), bad, third]);
    assert_eq!(r, Err(KeyError::Encoding));
    assert!(cache.contains_kid("k1"));
    assert!(!cache.contains_kid("k2"));
    assert!(!cache.contains_kid("k3"));
    assert_eq!(cache.find("k1"), Some(0));
}

#[test]
fn key_refresh_twice_adds_nothing_new() {
    let a = signed_token("a").cert;
    let b = CertKey { kid: "b".to_string(), ..a.clone() };
    let mut cache = JwksCache::new();
    assert_eq!(cache.insert_keys(&vec![a.clone(), b.clone()]), Ok(()));
    assert_eq!(cache.insert_keys(&vec![a, b]), Ok(()));
    assert_eq!(cache.find("a"), Some(0));
    assert_eq!(cache.find("b"), Some(1));
}

#[test]
fn certs_url_of_authority() {
    assert_eq!(certs_url(""), None);
    assert_eq!(
        certs_url("https://sso.example/realms/csh//").as_deref(),
        Some("https://sso.example/realms/csh/protocol/openid-connect/certs")
    );
}

#[test]
fn bearer_token_requires_prefix() {
    assert_eq!(bearer_token(Some("Bearer abc")).as_deref(), Some("abc"));
    assert_eq!(bearer_token(Some("bearer abc")), None);
    assert_eq!(bearer_token(None), None);
}

#[test]
fn middleware_setting_and_gate() {
    assert!(CSHAuth::enabled(None).is_enabled());
    assert!(CSHAuth::enabled(Some("true")).is_enabled());
    assert!(CSHAuth::enabled(Some("no")).is_enabled());
    assert!(!CSHAuth::enabled(Some("false")).is_enabled());
    assert!(!CSHAuth::disabled().is_enabled());
    let on = CSHAuth::enabled(None).new_transform(7u8);
    assert_eq!(*on.service(), 7u8);
    assert_eq!(on.gate(None), Gate::Reject);
    assert_eq!(on.gate(Some("Bearer Bearer tok")), Gate::Check("tok".to_string()));
    assert_eq!(on.gate(Some("tok")), Gate::Check("tok".to_string()));
    let off = CSHAuth::disabled().new_transform(());
    assert_eq!(off.gate(None), Gate::Pass);
}

#[test]
fn pieces_from_given_decodings() {
    let parts = vec!["h".to_string(), "p".to_string(), "s".to_string()];
    let ok = token_pieces_from(&parts, &vec![Some(vec![1]), Some(vec![2]), Some(vec![3])]).unwrap();
    assert_eq!((ok.header_64.as_str(), ok.payload_64.as_str()), ("h", "p"));
    assert_eq!((ok.header_json, ok.payload_json, ok.signature), (vec![1], vec![2], vec![3]));
    assert_eq!(
        token_pieces_from(&parts, &vec![Some(vec![1]), None, None]).err(),
        Some(TokenError::PayloadEncoding)
    );
    assert_eq!(
        token_pieces_from(&parts[..2].to_vec(), &vec![Some(vec![1]), Some(vec![2])]).err(),
        Some(TokenError::MissingSignature)
    );
    assert_eq!(
        token_pieces_from(&parts[..1].to_vec(), &vec![None]).err(),
        Some(TokenError::HeaderEncoding)
    );
}

#[test]
fn key_with_empty_modulus_is_rejected() {
    let good = signed_token("k1").cert;
    let empty = CertKey { kid: "z".to_string(), n: String::new(), ..good };
    let mut cache = JwksCache::new();
    assert_eq!(cache.insert_keys(&vec![empty]), Err(KeyError::Rejected));
    assert!(!cache.contains_kid("z"));
}

#[test]
fn cached_key_is_kept_when_its_id_is_published_again() {
    let first = signed_token("k1");
    let second = signed_token("k1");
    let mut cache = JwksCache::new();
    assert_eq!(cache.insert_keys(&vec![first.cert.clone()]), Ok(()));
    assert_eq!(cache.insert_keys(&vec![second.cert.clone()]), Ok(()));
    let check = |s: &Signed| {
        verify_token(
            &cache,
            &header("RS256", "k1"),
            &s.header_64,
            &user(4_000_000_000),
            &s.payload_64,
            &s.signature,
            1_700_000_000,
        )
    };
    assert_eq!(check(&first), TokenVerdict::Valid);
    assert_eq!(check(&second), TokenVerdict::Invalid);
}

#[test]
fn unknown_key_refreshes_once() {
    assert_eq!(token_action(Some(TokenVerdict::Valid), false), TokenAction::Accept);
    assert_eq!(token_action(Some(TokenVerdict::Invalid), false), TokenAction::Reject);
    assert_eq!(token_action(Some(TokenVerdict::UnknownKey), false), TokenAction::RefreshKeys);
    assert_eq!(token_action(Some(TokenVerdict::UnknownKey), true), TokenAction::Reject);
    assert_eq!(token_action(Some(TokenVerdict::Valid), true), TokenAction::Accept);
    assert_eq!(token_action(None, true), TokenAction::Reject);
}
