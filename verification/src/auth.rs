//! Bearer-token authentication against the identity provider.
//!
//! A token is three base64 pieces joined by dots: a JSON header, a JSON
//! payload of claims, and an RS256 signature over the first two pieces. This
//! module splits and decodes a token, checks its claims, keeps the cache of
//! the provider's signing keys, and decides what the middleware does with a
//! request. Reading the JSON into `TokenHeader` and `User`, and fetching the
//! provider's keys, happen around it.
use vstd::prelude::*;
use vstd::utf8::encode_utf8;
use crate::crypto::{
    base64_url_decode, decode_base64_url, rs256_valid, rs256_verify, rsa_public_key_accepted,
    rsa_public_key_builds,
};
use crate::text::{
    chars_eq_str, chars_of, hex_upper, lemma_hex_upper_shape, lemma_split_char_shape, opt_view,
    split_char, split_on_char, str_eq, strip_prefix, strip_prefix_str, to_hex_upper,
    trim_end_char, trim_end_char_str, trim_start_matches, trim_start_matches_str,
};

verus! {

/// The header of a token.
#[derive(Debug, Clone)]
pub struct TokenHeader {
    pub alg: String,
    pub kid: String,
    pub typ: String,
}

/// The claims of a token: the signed-in user.
#[derive(Debug, Clone)]
pub struct User {
    pub exp: u32,
    pub iat: Option<u32>,
    pub auth_time: Option<u32>,
    pub jti: Option<String>,
    pub iss: Option<String>,
    pub aud: Option<String>,
    pub sub: String,
    pub typ: Option<String>,
    pub azp: Option<String>,
    pub nonce: Option<String>,
    pub session_state: Option<String>,
    pub scope: Option<String>,
    pub sid: Option<String>,
    pub email_verified: Option<bool>,
    pub name: Option<String>,
    pub groups: Option<Vec<String>>,
    pub preferred_username: String,
    pub given_name: Option<String>,
    pub family_name: Option<String>,
    pub email: Option<String>,
}

/// The decoded pieces of a token: each base64 text as it came, and the
/// bytes it decodes to.
pub struct TokenPieces {
    pub header_64: String,
    pub header_json: Vec<u8>,
    pub payload_64: String,
    pub payload_json: Vec<u8>,
    pub signature: Vec<u8>,
}

impl View for TokenPieces {
    type V = (Seq<char>, Seq<u8>, Seq<char>, Seq<u8>, Seq<u8>);

    open spec fn view(&self) -> Self::V {
        (self.header_64@, self.header_json@, self.payload_64@, self.payload_json@, self.signature@)
    }
}

/// Why a token could not be split into its pieces.
#[derive(Debug, Clone, Copy, PartialEq, Eq, Structural)]
pub enum TokenError {
    HeaderEncoding,
    MissingPayload,
    PayloadEncoding,
    MissingSignature,
    SignatureEncoding,
}

/// The bytes a base64 piece of a token decodes to.
pub open spec fn decoded_piece(piece: Seq<char>) -> Option<Seq<u8>> {
    base64_url_decode(encode_utf8(piece))
}

/// The pieces of a token, given the parts it was cut into at its dots and
/// what the first parts decode to, or the first reason it has none: the
/// first three parts are taken in order, and any further part is ignored.
pub open spec fn pieces_from_decoded(parts: Seq<Seq<char>>, decoded: Seq<Option<Seq<u8>>>) -> Result<
    (Seq<char>, Seq<u8>, Seq<char>, Seq<u8>, Seq<u8>),
    TokenError,
> {
    match decoded[0] {
        None => Err(TokenError::HeaderEncoding),
        Some(header) => if parts.len() < 2 {
            Err(TokenError::MissingPayload)
        } else {
            match decoded[1] {
                None => Err(TokenError::PayloadEncoding),
                Some(payload) => if parts.len() < 3 {
                    Err(TokenError::MissingSignature)
                } else {
                    match decoded[2] {
                        None => Err(TokenError::SignatureEncoding),
                        Some(signature) => Ok((parts[0], header, parts[1], payload, signature)),
                    }
                },
            }
        },
    }
}

/// The pieces of a token: its parts at the dots, each decoded from base64.
pub open spec fn token_pieces_of(token: Seq<char>) -> Result<
    (Seq<char>, Seq<u8>, Seq<char>, Seq<u8>, Seq<u8>),
    TokenError,
> {
    let parts = split_char(token, '.');
    pieces_from_decoded(parts, parts.map_values(|p: Seq<char>| decoded_piece(p)))
}

/// Decodes one base64 piece of a token.
fn decode_piece(piece: &String) -> (r: Option<Vec<u8>>)
    ensures
        match r {
            Some(bytes) => decoded_piece(piece@) == Some(bytes@),
            None => decoded_piece(piece@) is None,
        },
{
    match decode_base64_url(piece.as_str().as_bytes()) {
        Ok(bytes) => Some(bytes),
        Err(_) => None,
    }
}

/// The bytes of optional byte vectors.
pub open spec fn opt_bytes(v: Seq<Option<Vec<u8>>>) -> Seq<Option<Seq<u8>>> {
    v.map_values(|o: Option<Vec<u8>>| match o {
        Some(b) => Some(b@),
        None => None,
    })
}

/// A copy of a byte vector.
fn copy_bytes(v: &Vec<u8>) -> (r: Vec<u8>)
    ensures
        r@ == v@,
{
    let mut r: Vec<u8> = Vec::new();
    let mut i: usize = 0;
    while i < v.len()
        invariant
            i <= v.len(),
            r@ == v@.take(i as int),
        decreases v.len() - i,
    {
        r.push(v[i]);
        i = i + 1;
        assert(r@ =~= v@.take(i as int));
    }
    assert(v@.take(v.len() as int) =~= v@);
    r
}

/// The pieces of a token from its parts and what its first parts decode to
/// (`decoded[i]` for part `i`, for the first three parts at least).
pub fn token_pieces_from(parts: &Vec<String>, decoded: &Vec<Option<Vec<u8>>>) -> (r: Result<
    TokenPieces,
    TokenError,
>)
    requires
        parts.len() >= 1,
        decoded.len() >= 3 || decoded.len() >= parts.len(),
    ensures
        match r {
            Ok(pieces) => pieces_from_decoded(parts@.map_values(|p: String| p@), opt_bytes(decoded@))
                == Ok::<_, TokenError>(pieces@),
            Err(e) => pieces_from_decoded(parts@.map_values(|p: String| p@), opt_bytes(decoded@))
                == Err::<(Seq<char>, Seq<u8>, Seq<char>, Seq<u8>, Seq<u8>), TokenError>(e),
        },
{
    let ghost views = parts@.map_values(|p: String| p@);
    let ghost dec = opt_bytes(decoded@);
    assert(views[0] == parts@[0]@);
    assert(dec[0] == match decoded@[0] {
        Some(b) => Some(b@),
        None => None::<Seq<u8>>,
    });
    let header = match &decoded[0] {
        Some(h) => copy_bytes(h),
        None => return Err(TokenError::HeaderEncoding),
    };
    if parts.len() < 2 {
        return Err(TokenError::MissingPayload);
    }
    assert(views[1] == parts@[1]@);
    assert(dec[1] == match decoded@[1] {
        Some(b) => Some(b@),
        None => None::<Seq<u8>>,
    });
    let payload = match &decoded[1] {
        Some(p) => copy_bytes(p),
        None => return Err(TokenError::PayloadEncoding),
    };
    if parts.len() < 3 {
        return Err(TokenError::MissingSignature);
    }
    assert(dec[2] == match decoded@[2] {
        Some(b) => Some(b@),
        None => None::<Seq<u8>>,
    });
    let signature = match &decoded[2] {
        Some(s) => copy_bytes(s),
        None => return Err(TokenError::SignatureEncoding),
    };
    Ok(
        TokenPieces {
            header_64: parts[0].clone(),
            header_json: header,
            payload_64: parts[1].clone(),
            payload_json: payload,
            signature,
        },
    )
}

/// Splits a token at its dots and decodes its header, payload and
/// signature.
pub fn get_token_pieces(token: &str) -> (r: Result<TokenPieces, TokenError>)
    ensures
        match r {
            Ok(pieces) => token_pieces_of(token@) == Ok::<_, TokenError>(pieces@),
            Err(e) => token_pieces_of(token@) == Err::<
                (Seq<char>, Seq<u8>, Seq<char>, Seq<u8>, Seq<u8>),
                TokenError,
            >(e),
        },
{
    let parts = split_on_char(token, '.');
    let ghost views = parts@.map_values(|p: String| p@);
    proof {
        lemma_split_char_shape(token@, '.');
    }
    let mut decoded: Vec<Option<Vec<u8>>> = Vec::new();
    let mut i: usize = 0;
    while i < parts.len() && i < 3
        invariant
            i <= parts.len(),
            i <= 3,
            views == parts@.map_values(|p: String| p@),
            decoded@.len() == i,
            forall|k: int|
                0 <= k < i ==> #[trigger] opt_bytes(decoded@)[k] == decoded_piece(views[k]),
        decreases 3 - i,
    {
        let d = decode_piece(&parts[i]);
        let ghost before = decoded@;
        decoded.push(d);
        proof {
            assert(views[i as int] == parts@[i as int]@);
            assert forall|k: int| 0 <= k < i + 1 implies #[trigger] opt_bytes(decoded@)[k]
                == decoded_piece(views[k]) by {
                if k < i {
                    assert(decoded@[k] == before[k]);
                    assert(opt_bytes(before)[k] == decoded_piece(views[k]));
                }
            }
        }
        i = i + 1;
    }
    let r = token_pieces_from(&parts, &decoded);
    proof {
        let dec = opt_bytes(decoded@);
        let all = views.map_values(|p: Seq<char>| decoded_piece(p));
        assert(dec[0] == all[0]);
        if views.len() >= 2 {
            assert(dec[1] == all[1]);
        }
        if views.len() >= 3 {
            assert(dec[2] == all[2]);
        }
        assert(pieces_from_decoded(views, dec) == pieces_from_decoded(views, all));
    }
    r
}

/// Whether the claims admit the token at the time `now` (seconds since the
/// epoch): it has not expired, its expiry compared with the time cut to 32
/// bits, and it is signed with RS256.
pub open spec fn claims_ok(header: TokenHeader, payload: User, now: i64) -> bool {
    &&& payload.exp >= (now as u32)
    &&& header.alg@ == "RS256"@
}

/// Checks the claims of a token at the time `now`.
pub fn token_claims_ok(header: &TokenHeader, payload: &User, now: i64) -> (r: bool)
    ensures
        r == claims_ok(*header, *payload, now),
{
    #[verifier::truncate]
    let now32 = now as u32;
    if payload.exp < now32 {
        return false;
    }
    let alg = chars_of(header.alg.as_str());
    chars_eq_str(&alg, "RS256")
}

// ---------------------------------------------------------------------------
// The signing keys of the identity provider
// ---------------------------------------------------------------------------

/// One key of the provider's key set, as published.
#[derive(Debug, Clone)]
pub struct CertKey {
    pub kid: String,
    pub kty: String,
    pub alg: String,
    pub key_use: String,
    pub n: String,
    pub e: String,
}

/// Why adding the published keys to the cache stopped.
#[derive(Debug, Clone, Copy, PartialEq, Eq, Structural)]
pub enum KeyError {
    /// The modulus or the exponent of a key is not valid base64.
    Encoding,
    /// OpenSSL refused to build the key from its components.
    Rejected,
}

/// The ids of the published keys, in order.
pub open spec fn cert_kids(certs: Seq<CertKey>) -> Seq<Seq<char>> {
    certs.map_values(|k: CertKey| k.kid@)
}

/// The key ids held after adding, in order, the keys `kids` to a cache that
/// holds `existing`: an id already held is skipped.
pub open spec fn kids_after(existing: Seq<Seq<char>>, kids: Seq<Seq<char>>) -> Seq<Seq<char>>
    decreases kids.len(),
{
    if kids.len() == 0 {
        existing
    } else {
        let prev = kids_after(existing, kids.drop_last());
        if prev.contains(kids.last()) {
            prev
        } else {
            prev.push(kids.last())
        }
    }
}

/// Adding published keys never drops or reorders a cached key, and afterwards
/// every published key id is cached.
pub proof fn law_refresh_keeps_and_covers(existing: Seq<Seq<char>>, kids: Seq<Seq<char>>)
    ensures
        kids_after(existing, kids).len() >= existing.len(),
        kids_after(existing, kids).take(existing.len() as int) == existing,
        forall|k: Seq<char>| #[trigger] kids.contains(k) ==> kids_after(existing, kids).contains(k),
    decreases kids.len(),
{
    if kids.len() > 0 {
        law_refresh_keeps_and_covers(existing, kids.drop_last());
        let prev = kids_after(existing, kids.drop_last());
        if !prev.contains(kids.last()) {
            assert(prev.push(kids.last()).take(existing.len() as int) =~= prev.take(
                existing.len() as int,
            ));
        }
        assert forall|k: Seq<char>| #[trigger] kids.contains(k) implies kids_after(
            existing,
            kids,
        ).contains(k) by {
            let i = choose|i: int| 0 <= i < kids.len() && kids[i] == k;
            if i < kids.len() - 1 {
                assert(kids.drop_last()[i] == k);
                assert(kids.drop_last().contains(k));
                let j = choose|j: int| 0 <= j < prev.len() && prev[j] == k;
                if !prev.contains(kids.last()) {
                    assert(prev.push(kids.last())[j] == k);
                }
            } else {
                if !prev.contains(kids.last()) {
                    assert(prev.push(kids.last())[prev.len() as int] == k);
                }
            }
        }
    }
}

/// Adding keys whose ids are all cached already changes nothing.
pub proof fn lemma_kids_after_known(existing: Seq<Seq<char>>, kids: Seq<Seq<char>>)
    requires
        forall|i: int| 0 <= i < kids.len() ==> existing.contains(#[trigger] kids[i]),
    ensures
        kids_after(existing, kids) == existing,
    decreases kids.len(),
{
    if kids.len() > 0 {
        lemma_kids_after_known(existing, kids.drop_last());
        assert(existing.contains(kids[kids.len() - 1]));
    }
}

/// Fetching the same key set a second time adds nothing.
pub proof fn law_refresh_idempotent(existing: Seq<Seq<char>>, kids: Seq<Seq<char>>)
    ensures
        kids_after(kids_after(existing, kids), kids) == kids_after(existing, kids),
{
    law_refresh_keeps_and_covers(existing, kids);
    assert forall|i: int| 0 <= i < kids.len() implies kids_after(existing, kids).contains(
        #[trigger] kids[i],
    ) by {
        assert(kids.contains(kids[i]));
    }
    lemma_kids_after_known(kids_after(existing, kids), kids);
}

/// Whether the key at position `j` is not yet held when its turn comes.
pub open spec fn is_new_at(existing: Seq<Seq<char>>, certs: Seq<CertKey>, j: int) -> bool {
    !kids_after(existing, cert_kids(certs).take(j)).contains(certs[j].kid@)
}

/// Whether both components of a published key are valid base64.
pub open spec fn cert_decodes(key: CertKey) -> bool {
    &&& decoded_piece(key.n@) is Some
    &&& decoded_piece(key.e@) is Some
}

/// Whether a published key decodes and OpenSSL builds a public key of it.
pub open spec fn cert_builds(key: CertKey) -> bool {
    &&& cert_decodes(key)
    &&& rsa_public_key_builds(cert_hex(key).0, cert_hex(key).1)
}

/// The hexadecimal modulus and exponent that a published key is built from:
/// its base64 components decoded and written as upper-case hexadecimal.
pub open spec fn cert_hex(key: CertKey) -> (Seq<char>, Seq<char>) {
    let n = match decoded_piece(key.n@) {
        Some(b) => b,
        None => Seq::empty(),
    };
    let e = match decoded_piece(key.e@) {
        Some(b) => b,
        None => Seq::empty(),
    };
    (hex_upper(n), hex_upper(e))
}

/// One cached key: its id and its components as hexadecimal text.
struct CachedKey {
    kid: String,
    n_hex: String,
    e_hex: String,
}

/// No two entries share a key id, and no component text holds a NUL.
spec fn entries_wf(entries: Seq<CachedKey>) -> bool {
    &&& forall|i: int, j: int|
        0 <= i < j < entries.len() ==> #[trigger] entries[i].kid@ != #[trigger] entries[j].kid@
    &&& forall|i: int|
        0 <= i < entries.len() ==> !(#[trigger] entries[i]).n_hex@.contains('\0')
            && !entries[i].e_hex@.contains('\0')
}

/// The components held under a key id, from the entry that holds it.
spec fn entry_key(entries: Seq<CachedKey>, kid: Seq<char>) -> (Seq<char>, Seq<char>) {
    let i = choose|i: int| 0 <= i < entries.len() && entries[i].kid@ == kid;
    (entries[i].n_hex@, entries[i].e_hex@)
}

/// Under its own id an entry's components are found.
proof fn lemma_entry_key_at(entries: Seq<CachedKey>, i: int)
    requires
        entries_wf(entries),
        0 <= i < entries.len(),
    ensures
        entry_key(entries, entries[i].kid@) == (entries[i].n_hex@, entries[i].e_hex@),
{
    let k = entries[i].kid@;
    assert(0 <= i < entries.len() && entries[i].kid@ == k);
    let c = choose|c: int| 0 <= c < entries.len() && entries[c].kid@ == k;
    if c != i {
        if c < i {
            assert(entries[c].kid@ != entries[i].kid@);
        } else {
            assert(entries[i].kid@ != entries[c].kid@);
        }
    }
}

/// Adding an entry under a new id leaves what the other ids hold.
proof fn lemma_push_keeps_keys(entries: Seq<CachedKey>, x: CachedKey, i: int)
    requires
        entries_wf(entries.push(x)),
        0 <= i < entries.len(),
    ensures
        entries_wf(entries),
        entry_key(entries.push(x), entries[i].kid@) == entry_key(entries, entries[i].kid@),
{
    let pushed = entries.push(x);
    assert forall|a: int, b: int| 0 <= a < b < entries.len() implies #[trigger] entries[a].kid@
        != #[trigger] entries[b].kid@ by {
        assert(pushed[a] == entries[a] && pushed[b] == entries[b]);
    }
    assert forall|a: int| 0 <= a < entries.len() implies !(#[trigger] entries[a]).n_hex@.contains(
        '\0',
    ) && !entries[a].e_hex@.contains('\0') by {
        assert(pushed[a] == entries[a]);
    }
    lemma_entry_key_at(entries, i);
    assert(pushed[i] == entries[i]);
    lemma_entry_key_at(pushed, i);
}

/// The ids of the entries, in order.
spec fn entry_kids(entries: Seq<CachedKey>) -> Seq<Seq<char>> {
    entries.map_values(|e: CachedKey| e.kid@)
}

/// Where every id of `before` holds what it held there, every id that
/// `before` held does.
proof fn lemma_keys_kept(before: Seq<CachedKey>, after: Seq<CachedKey>)
    requires
        forall|m: int|
            0 <= m < before.len() ==> entry_key(after, #[trigger] before[m].kid@) == entry_key(
                before,
                before[m].kid@,
            ),
    ensures
        forall|k: Seq<char>| #[trigger]
            entry_kids(before).contains(k) ==> entry_key(after, k) == entry_key(before, k),
{
    assert forall|k: Seq<char>| #[trigger]
        entry_kids(before).contains(k) implies entry_key(after, k) == entry_key(before, k) by {
        let kids = entry_kids(before);
        let m = choose|m: int| 0 <= m < kids.len() && kids[m] == k;
        assert(before[m].kid@ == k);
    }
}

/// The cache of the provider's public keys, by key id; no id is held twice.
pub struct JwksCache {
    entries: Vec<CachedKey>,
}

impl JwksCache {
    /// The ids of the cached keys, in the order they were added.
    pub closed spec fn kid_seq(&self) -> Seq<Seq<char>> {
        entry_kids(self.entries@)
    }

    /// The hexadecimal modulus and exponent cached under a key id.
    pub closed spec fn key_of(&self, kid: Seq<char>) -> (Seq<char>, Seq<char>) {
        entry_key(self.entries@, kid)
    }

    /// No id twice.
    #[verifier::type_invariant]
    closed spec fn wf(&self) -> bool {
        entries_wf(self.entries@)
    }

    /// An empty cache.
    pub fn new() -> (c: Self)
        ensures
            c.kid_seq() == Seq::<Seq<char>>::empty(),
    {
        let c = JwksCache { entries: Vec::new() };
        assert(c.kid_seq() =~= Seq::<Seq<char>>::empty());
        c
    }

    /// The position of the key with the given id.
    pub fn find(&self, kid: &str) -> (r: Option<usize>)
        ensures
            match r {
                Some(i) => i < self.kid_seq().len() && self.kid_seq()[i as int] == kid@,
                None => !self.kid_seq().contains(kid@),
            },
    {
        let mut i: usize = 0;
        while i < self.entries.len()
            invariant
                i <= self.entries.len(),
                forall|j: int| 0 <= j < i ==> self.entries@[j].kid@ != kid@,
            decreases self.entries.len() - i,
        {
            if str_eq(self.entries[i].kid.as_str(), kid) {
                return Some(i);
            }
            i = i + 1;
        }
        proof {
            if self.kid_seq().contains(kid@) {
                let j = choose|j: int| 0 <= j < self.kid_seq().len() && self.kid_seq()[j] == kid@;
                assert(self.entries@[j].kid@ == kid@);
            }
        }
        None
    }

    /// Whether a key with the given id is cached.
    pub fn contains_kid(&self, kid: &str) -> (r: bool)
        ensures
            r == self.kid_seq().contains(kid@),
    {
        self.find(kid).is_some()
    }

    /// Builds the key of each published key whose id is not cached yet, in
    /// order, and caches its components; stops at the first key that does
    /// not decode or that OpenSSL does not build, and succeeds when every new
    /// key builds. The keys cached before the stop stay cached with their
    /// components, and every key cached before the call keeps its components.
    pub fn insert_keys(&mut self, certs: &Vec<CertKey>) -> (r: Result<(), KeyError>)
        ensures
            forall|k: Seq<char>| #[trigger]
                old(self).kid_seq().contains(k) ==> final(self).key_of(k) == old(self).key_of(k),
            match r {
                Ok(()) => {
                    &&& final(self).kid_seq() == kids_after(old(self).kid_seq(), cert_kids(certs@))
                    &&& forall|j: int|
                        0 <= j < certs@.len() && is_new_at(old(self).kid_seq(), certs@, j)
                            ==> cert_builds(certs@[j]) && final(self).key_of(certs@[j].kid@)
                            == cert_hex(certs@[j])
                },
                Err(e) => exists|j: int|
                    {
                        &&& 0 <= j < certs@.len()
                        &&& is_new_at(old(self).kid_seq(), certs@, j)
                        &&& final(self).kid_seq() == kids_after(
                            old(self).kid_seq(),
                            cert_kids(certs@).take(j),
                        )
                        &&& forall|i: int|
                            0 <= i < j && is_new_at(old(self).kid_seq(), certs@, i)
                                ==> cert_builds(certs@[i]) && final(self).key_of(certs@[i].kid@)
                                == cert_hex(certs@[i])
                        &&& !cert_builds(certs@[j])
                        &&& (e == KeyError::Encoding <==> !cert_decodes(certs@[j]))
                    },
            },
    {
        let ghost start = self.kid_seq();
        let ghost before = self.entries@;
        let ghost kids = cert_kids(certs@);
        let mut i: usize = 0;
        assert(kids.take(0) =~= Seq::<Seq<char>>::empty());
        while i < certs.len()
            invariant
                i <= certs.len(),
                start == old(self).kid_seq(),
                before == old(self).entries@,
                kids == cert_kids(certs@),
                self.kid_seq() == kids_after(start, kids.take(i as int)),
                before.len() <= self.entries@.len(),
                forall|m: int| 0 <= m < before.len() ==> #[trigger] self.entries@[m] == before[m],
                forall|m: int|
                    0 <= m < before.len() ==> entry_key(self.entries@, #[trigger] before[m].kid@)
                        == entry_key(before, before[m].kid@),
                forall|j: int|
                    0 <= j < i && is_new_at(start, certs@, j) ==> cert_builds(certs@[j])
                        && self.kid_seq().contains(certs@[j].kid@) && self.key_of(certs@[j].kid@)
                        == cert_hex(certs@[j]),
            decreases certs.len() - i,
        {
            let key = &certs[i];
            assert(kids.take(i + 1).drop_last() =~= kids.take(i as int));
            assert(kids.take(i + 1).last() == key.kid@);
            if !self.contains_kid(key.kid.as_str()) {
                let built = build_key(key);
                match built {
                    Ok((n_hex, e_hex)) => {
                        proof {
                            use_type_invariant(&*self);
                        }
                        let ghost cur = self.entries@;
                        let entry = CachedKey { kid: key.kid.clone(), n_hex, e_hex };
                        assert(entries_wf(cur.push(entry))) by {
                            assert forall|a: int, b: int|
                                0 <= a < b < cur.push(entry).len() implies #[trigger] cur.push(
                                    entry,
                                )[a].kid@ != #[trigger] cur.push(entry)[b].kid@ by {
                                if b == cur.len() {
                                    assert(self.kid_seq()[a] == cur[a].kid@);
                                }
                            }
                        }
                        proof {
                            assert forall|j: int|
                                0 <= j < i && is_new_at(start, certs@, j) implies self.key_of(
                                    certs@[j].kid@,
                                ) == entry_key(cur.push(entry), certs@[j].kid@) && cur.push(
                                    entry,
                                ).map_values(|e: CachedKey| e.kid@).contains(certs@[j].kid@) by {
                                let m = choose|m: int|
                                    0 <= m < self.kid_seq().len() && self.kid_seq()[m]
                                        == certs@[j].kid@;
                                assert(cur[m].kid@ == certs@[j].kid@);
                                lemma_push_keeps_keys(cur, entry, m);
                                assert(cur.push(entry).map_values(|e: CachedKey| e.kid@)[m]
                                    == certs@[j].kid@);
                            }
                            assert forall|m: int| 0 <= m < before.len() implies entry_key(
                                cur.push(entry),
                                #[trigger] before[m].kid@,
                            ) == entry_key(before, before[m].kid@) by {
                                assert(cur[m] == before[m]);
                                lemma_push_keeps_keys(cur, entry, m);
                            }
                        }
                        let mut entries: Vec<CachedKey> = Vec::new();
                        std::mem::swap(&mut entries, &mut self.entries);
                        entries.push(entry);
                        self.entries = entries;
                        proof {
                            assert(self.kid_seq() =~= kids_after(start, kids.take(i as int)).push(
                                key.kid@,
                            ));
                            assert(self.kid_seq()[cur.len() as int] == key.kid@);
                            lemma_entry_key_at(self.entries@, cur.len() as int);
                        }
                    },
                    Err(e) => {
                        assert(is_new_at(start, certs@, i as int));
                        proof {
                            lemma_keys_kept(before, self.entries@);
                        }
                        return Err(e);
                    },
                }
            }
            i = i + 1;
        }
        assert(kids.take(certs.len() as int) =~= kids);
        proof {
            lemma_keys_kept(before, self.entries@);
        }
        Ok(())
    }
}

/// Checks that OpenSSL builds the public key of one published key from its
/// base64 modulus and exponent, written as upper-case hexadecimal digits,
/// and gives back those two hexadecimal texts.
fn build_key(key: &CertKey) -> (r: Result<(String, String), KeyError>)
    ensures
        r is Ok <==> cert_builds(*key),
        r matches Err(e) ==> (e == KeyError::Encoding <==> !cert_decodes(*key)),
        r matches Ok(h) ==> (h.0@, h.1@) == cert_hex(*key) && !h.0@.contains('\0')
            && !h.1@.contains('\0'),
{
    let n = match decode_base64_url(key.n.as_str().as_bytes()) {
        Ok(bytes) => bytes,
        Err(_) => return Err(KeyError::Encoding),
    };
    let e = match decode_base64_url(key.e.as_str().as_bytes()) {
        Ok(bytes) => bytes,
        Err(_) => return Err(KeyError::Encoding),
    };
    let n_hex = to_hex_upper(n.as_slice());
    let e_hex = to_hex_upper(e.as_slice());
    proof {
        lemma_hex_upper_shape(n@);
        lemma_hex_upper_shape(e@);
        if n_hex@.contains('\0') {
            let k = choose|k: int| 0 <= k < n_hex@.len() && n_hex@[k] == '\0';
            assert(hex_upper(n@)[k] == '\0');
        }
        if e_hex@.contains('\0') {
            let k = choose|k: int| 0 <= k < e_hex@.len() && e_hex@[k] == '\0';
            assert(hex_upper(e@)[k] == '\0');
        }
    }
    if rsa_public_key_accepted(n_hex.as_str(), e_hex.as_str()) {
        Ok((n_hex, e_hex))
    } else {
        Err(KeyError::Rejected)
    }
}

// ---------------------------------------------------------------------------
// Checking a token
// ---------------------------------------------------------------------------

/// The address of the provider's key set, under the provider's address
/// without its trailing slashes; none when no provider is configured.
pub open spec fn certs_url_of(authority: Seq<char>) -> Option<Seq<char>> {
    if authority.len() == 0 {
        None
    } else {
        Some(trim_end_char(authority, '/') + "/protocol/openid-connect/certs"@)
    }
}

/// The address from which the provider's keys are fetched.
pub fn certs_url(authority: &str) -> (r: Option<String>)
    ensures
        opt_view(r) == certs_url_of(authority@),
{
    if authority.is_empty() {
        return None;
    }
    let mut url = trim_end_char_str(authority, '/');
    url.append("/protocol/openid-connect/certs");
    Some(url)
}

/// What the check of a token found.
#[derive(Debug, Clone, Copy, PartialEq, Eq, Structural)]
pub enum TokenVerdict {
    /// The claims hold and the signature matches the cached key.
    Valid,
    /// The claims fail, or the signature does not match.
    Invalid,
    /// The claims hold, but no key with the token's key id is cached: the
    /// keys are to be fetched again and the token checked once more.
    UnknownKey,
}

/// The bytes an RS256 signature of a token covers: the header's base64
/// text, a dot and the payload's base64 text.
pub open spec fn signed_data(header_64: Seq<char>, payload_64: Seq<char>) -> Seq<u8> {
    encode_utf8(header_64) + seq![46u8] + encode_utf8(payload_64)
}

/// Appends bytes to a buffer.
fn push_bytes(out: &mut Vec<u8>, bytes: &[u8])
    ensures
        final(out)@ == old(out)@ + bytes@,
{
    let mut i: usize = 0;
    while i < bytes.len()
        invariant
            i <= bytes.len(),
            out@ == old(out)@ + bytes@.take(i as int),
        decreases bytes.len() - i,
    {
        out.push(bytes[i]);
        i = i + 1;
        assert(out@ =~= old(out)@ + bytes@.take(i as int));
    }
    assert(bytes@.take(bytes.len() as int) =~= bytes@);
}

/// The signed bytes of a token.
fn signed_bytes(header_64: &str, payload_64: &str) -> (r: Vec<u8>)
    ensures
        r@ == signed_data(header_64@, payload_64@),
{
    let mut data: Vec<u8> = Vec::new();
    push_bytes(&mut data, header_64.as_bytes());
    data.push(46u8);
    push_bytes(&mut data, payload_64.as_bytes());
    assert(data@ =~= signed_data(header_64@, payload_64@));
    data
}

/// Checks a token at the time `now`: its claims first, then its RS256
/// signature over `header_64`, a dot and `payload_64`, with the cached key
/// that the header names.
pub fn verify_token(
    cache: &JwksCache,
    header: &TokenHeader,
    header_64: &str,
    payload: &User,
    payload_64: &str,
    signature: &[u8],
    now: i64,
) -> (r: TokenVerdict)
    ensures
        !claims_ok(*header, *payload, now) ==> r == TokenVerdict::Invalid,
        claims_ok(*header, *payload, now) && !cache.kid_seq().contains(header.kid@) ==> r
            == TokenVerdict::UnknownKey,
        claims_ok(*header, *payload, now) && cache.kid_seq().contains(header.kid@) ==> {
            let key = cache.key_of(header.kid@);
            &&& r != TokenVerdict::UnknownKey
            &&& (r == TokenVerdict::Valid <==> rs256_valid(
                key.0,
                key.1,
                signed_data(header_64@, payload_64@),
                signature@,
            ))
        },
{
    if !token_claims_ok(header, payload, now) {
        return TokenVerdict::Invalid;
    }
    let index = match cache.find(header.kid.as_str()) {
        Some(i) => i,
        None => return TokenVerdict::UnknownKey,
    };
    proof {
        use_type_invariant(cache);
        assert(cache.kid_seq()[index as int] == cache.entries@[index as int].kid@);
        lemma_entry_key_at(cache.entries@, index as int);
    }
    let entry = &cache.entries[index];
    let data = signed_bytes(header_64, payload_64);
    if rs256_verify(entry.n_hex.as_str(), entry.e_hex.as_str(), data.as_slice(), signature) {
        TokenVerdict::Valid
    } else {
        TokenVerdict::Invalid
    }
}

/// What the middleware does with a token after a check.
#[derive(Debug, Clone, Copy, PartialEq, Eq, Structural)]
pub enum TokenAction {
    /// Let the request through as the token's user.
    Accept,
    /// Answer 401.
    Reject,
    /// Fetch the provider's keys again, then check the token once more.
    RefreshKeys,
}

/// The action for a check's verdict, where `verdict` is none when fetching
/// the keys failed, and `refreshed` says whether the keys were fetched for
/// this token already: only a valid token is accepted, and an unknown key
/// leads to one fetch of the keys at most.
pub open spec fn token_action_spec(verdict: Option<TokenVerdict>, refreshed: bool) -> TokenAction {
    match verdict {
        Some(TokenVerdict::Valid) => TokenAction::Accept,
        Some(TokenVerdict::UnknownKey) => if refreshed {
            TokenAction::Reject
        } else {
            TokenAction::RefreshKeys
        },
        _ => TokenAction::Reject,
    }
}

/// Decides what to do with a token after a check.
pub fn token_action(verdict: Option<TokenVerdict>, refreshed: bool) -> (r: TokenAction)
    ensures
        r == token_action_spec(verdict, refreshed),
{
    match verdict {
        Some(TokenVerdict::Valid) => TokenAction::Accept,
        Some(TokenVerdict::UnknownKey) => if refreshed {
            TokenAction::Reject
        } else {
            TokenAction::RefreshKeys
        },
        _ => TokenAction::Reject,
    }
}

/// A token is accepted exactly when a check found it valid, and the keys are
/// fetched again at most once for it.
pub proof fn law_token_action(verdict: Option<TokenVerdict>, refreshed: bool)
    ensures
        token_action_spec(verdict, refreshed) == TokenAction::Accept <==> verdict == Some(
            TokenVerdict::Valid,
        ),
        refreshed ==> token_action_spec(verdict, refreshed) != TokenAction::RefreshKeys,
{
}

/// The token of an `Authorization` header that must read `Bearer <token>`;
/// none without a header or without that prefix.
pub fn bearer_token(authorization: Option<&str>) -> (r: Option<String>)
    ensures
        opt_view(r) == match authorization {
            Some(h) => strip_prefix(h@, "Bearer "@),
            None => None,
        },
{
    match authorization {
        Some(h) => strip_prefix_str(h, "Bearer "),
        None => None,
    }
}

// ---------------------------------------------------------------------------
// The middleware
// ---------------------------------------------------------------------------

/// Whether a value of the `SSO_ENABLED` setting turns authentication on: it
/// does unless the value reads `false`; an absent or unreadable value leaves
/// it on.
pub open spec fn sso_enabled_by(setting: Option<Seq<char>>) -> bool {
    setting != Some("false"@)
}

/// The authentication middleware: when enabled, every request must carry a
/// valid token.
#[derive(Clone, Debug)]
pub struct CSHAuth {
    enabled: bool,
}

impl CSHAuth {
    /// Whether the middleware checks requests.
    pub closed spec fn active(&self) -> bool {
        self.enabled
    }

    /// The middleware as the `SSO_ENABLED` setting configures it.
    pub fn enabled(setting: Option<&str>) -> (r: Self)
        ensures
            r.active() == sso_enabled_by(
                match setting {
                    Some(s) => Some(s@),
                    None => None,
                },
            ),
    {
        let on = match setting {
            Some(s) => !str_eq(s, "false"),
            None => true,
        };
        CSHAuth { enabled: on }
    }

    /// The middleware that lets every request through.
    pub fn disabled() -> (r: Self)
        ensures
            !r.active(),
    {
        CSHAuth { enabled: false }
    }

    /// Whether the middleware checks requests.
    pub fn is_enabled(&self) -> (r: bool)
        ensures
            r == self.active(),
    {
        self.enabled
    }

    /// Wraps the next service of the chain.
    pub fn new_transform<S>(&self, service: S) -> (r: CSHAuthService<S>)
        ensures
            r.active() == self.active(),
            r.inner() == service,
    {
        CSHAuthService { service, enabled: self.enabled }
    }
}

/// What the middleware does with a request before looking at its token.
#[derive(Debug, Clone, PartialEq, Eq)]
pub enum Gate {
    /// Hand the request on unchecked.
    Pass,
    /// Answer 401 Unauthorized.
    Reject,
    /// Check this token, then hand the request on or answer 401.
    Check(String),
}

/// The middleware around one service.
pub struct CSHAuthService<S> {
    service: S,
    enabled: bool,
}

impl<S> CSHAuthService<S> {
    /// Whether requests are checked.
    pub closed spec fn active(&self) -> bool {
        self.enabled
    }

    /// The wrapped service.
    pub closed spec fn inner(&self) -> S {
        self.service
    }

    /// The wrapped service.
    pub fn service(&self) -> (r: &S)
        ensures
            *r == self.inner(),
    {
        &self.service
    }

    /// What to do with a request whose `Authorization` header reads
    /// `authorization` (none where it is missing or not text): the token is
    /// the header with every leading `Bearer ` removed.
    pub fn gate(&self, authorization: Option<&str>) -> (r: Gate)
        ensures
            !self.active() ==> r == Gate::Pass,
            self.active() && authorization is None ==> r == Gate::Reject,
            self.active() && authorization is Some ==> (r matches Gate::Check(t) && t@
                == trim_start_matches(authorization->0@, "Bearer "@)),
    {
        if !self.enabled {
            return Gate::Pass;
        }
        match authorization {
            Some(h) => Gate::Check(trim_start_matches_str(h, "Bearer ")),
            None => Gate::Reject,
        }
    }
}


} // verus!
