//! The credentials minter: hands out one-time tokens and exchanges them for
//! signed user credentials.

use vstd::prelude::*;
use vstd::utf8::encode_utf8;
use crate::text::{ascii_uppercase, is_ascii_text};

verus! {

/// The subject on which one-time tokens are requested.
pub const SUBJECT_OTT_GEN: &'static str = "wasmdome.internal.ott.gen";
/// The subject on which credentials are claimed.
pub const SUBJECT_CREDS_GEN: &'static str = "wasmdome.public.creds.claim";
/// The queue group the minters share.
pub const QUEUE: &'static str = "credsminter";
/// How long minted credentials last, in minutes.
pub const CREDS_EXPIRE_MINUTES: u64 = 20;
/// How long a one-time token lasts when nothing else is configured, in
/// seconds.
pub const OTT_DEFAULT_EXPIRES_SECONDS: u32 = 300;

/// Asks for a one-time token for an account.
#[derive(Debug)]
pub struct TokenRequest {
    pub account_key: String,
}

/// Asks to exchange a one-time token for credentials.
#[derive(Debug)]
pub struct CredentialsRequest {
    pub account_key: String,
    pub token: String,
}

/// The answer to a credentials claim.
#[derive(Debug)]
pub enum CredentialsResponse {
    Valid { user_jwt: String, user_secret: String },
    Error(String),
}

/// Whether a character is a digit or an ASCII letter.
pub open spec fn is_base62(c: char) -> bool {
    ('0' <= c && c <= '9') || ('A' <= c && c <= 'Z') || ('a' <= c && c <= 'z')
}

/// Trusted: `nuid::next` returns a fresh identifier of 22 characters, each
/// a digit or an ASCII letter. Which identifier comes back is left open.
#[verifier::external_body]
fn next_nuid() -> (r: String)
    ensures
        r@.len() == 22,
        forall|i: int| 0 <= i < 22 ==> is_base62(#[trigger] r@[i]),
{
    nuid::next().to_string()
}

/// The upper-case form of a text, as Unicode defines it (what
/// `str::to_uppercase` returns).
pub uninterp spec fn uppercase_of(s: Seq<char>) -> Seq<char>;

/// Trusted: `str::to_uppercase` returns the Unicode upper-case form of its
/// argument, a function of the argument alone; an ASCII character maps to
/// its ASCII upper-case form (`a` to `z` becoming `A` to `Z`), so an ASCII
/// text becomes its ASCII upper-case form.
#[verifier::external_body]
fn to_uppercase(s: &str) -> (r: String)
    ensures
        r@ == uppercase_of(s@),
        is_ascii_text(s@) ==> r@ == ascii_uppercase(s@),
{
    s.to_uppercase()
}

/// The one-time token made from a drawn identifier: the identifier in
/// upper case.
pub fn ott_from_id(id: &str) -> (r: String)
    ensures
        r@ == uppercase_of(id@),
        is_ascii_text(id@) ==> r@ == ascii_uppercase(id@),
{
    to_uppercase(id)
}

/// A fresh one-time token: a new identifier of 22 digits and ASCII
/// letters, in upper case.
pub fn new_ott() -> (r: String)
    ensures
        exists|n: Seq<char>|
            n.len() == 22 && (forall|i: int| 0 <= i < 22 ==> is_base62(#[trigger] n[i])) && r@ == ascii_uppercase(n),
{
    let id = next_nuid();
    assert(is_ascii_text(id@)) by {
        assert forall|i: int| 0 <= i < id@.len() implies (#[trigger] id@[i] as u32) < 128 by {
            assert(is_base62(id@[i]));
        }
    }
    ott_from_id(id.as_str())
}

/// The key under which a one-time token is stored.
pub fn ott_key(ott: &str) -> (k: String)
    ensures
        k@ == "wasmdome:ott:"@ + ott@,
{
    String::from_str("wasmdome:ott:").concat(ott)
}

/// The outcome of a claim, before any credentials are minted.
#[derive(Debug)]
pub enum Exchange {
    /// The claim is refused with this answer.
    Reject(CredentialsResponse),
    /// The token is good: mint credentials and retire the token.
    Grant,
}

/// Decides a claim by what is stored under its token: nothing (or an
/// unreadable value) is no such token; an account other than the
/// claimant's is refused; the claimant's own account is granted.
pub fn exchange_token(stored: Option<&str>, req: &CredentialsRequest) -> (r: Exchange)
    ensures
        match stored {
            None => r matches Exchange::Reject(CredentialsResponse::Error(m)) && m@ == "No such token"@,
            Some(account) => if account@ != req.account_key@ {
                r matches Exchange::Reject(CredentialsResponse::Error(m))
                    && m@ == "Attempt to exchange token for invalid account"@
            } else {
                r is Grant
            },
        },
{
    match stored {
        None => Exchange::Reject(CredentialsResponse::Error(String::from_str("No such token"))),
        Some(account) => {
            if !crate::text::same_text(account, req.account_key.as_str()) {
                Exchange::Reject(
                    CredentialsResponse::Error(String::from_str("Attempt to exchange token for invalid account")),
                )
            } else {
                Exchange::Grant
            }
        },
    }
}

/// The expiry of credentials issued at `now` (in seconds since the epoch).
pub fn credentials_expiry(now: u64) -> (exp: u64)
    requires
        now + 60 * CREDS_EXPIRE_MINUTES <= u64::MAX,
    ensures
        exp == now + 60 * CREDS_EXPIRE_MINUTES,
{
    (60 * CREDS_EXPIRE_MINUTES) + now
}

/// The NATS subjects a minted user may publish on: the engine provider,
/// and inboxes for replies.
pub open spec fn user_pub_allow() -> Seq<Seq<char>> {
    seq!["wasmbus.provider.wasmdome.engine.default"@, "_INBOX.>"@]
}

/// The NATS subjects a minted user may subscribe to: the actor target
/// subjects on the bus, and inboxes.
pub open spec fn user_sub_allow() -> Seq<Seq<char>> {
    seq!["wasmbus.actor.*"@, "INBOX.>"@]
}

/// The claims of minted user credentials.
#[derive(Debug)]
pub struct UserClaims {
    /// The id of these claims.
    pub jti: String,
    /// When they expire, in seconds since the epoch.
    pub exp: u64,
    /// When they were issued, in seconds since the epoch.
    pub iat: u64,
    /// The public key of the issuer.
    pub iss: String,
    pub name: String,
    /// The public key of the user.
    pub sub: String,
    /// The kind of claims: always `user`.
    pub claim_type: String,
    pub pub_allow: Vec<String>,
    pub sub_allow: Vec<String>,
}

/// The claims of user credentials for `sub`, issued by `iss` under the id
/// `jti`: expiring `CREDS_EXPIRE_MINUTES` after `now`, issued at `iat`,
/// allowed to talk to the engine provider and to receive on actor subjects.
pub fn user_claims(sub: &str, iss: &str, name: &str, jti: String, now: u64, iat: u64) -> (c: UserClaims)
    requires
        now + 60 * CREDS_EXPIRE_MINUTES <= u64::MAX,
    ensures
        c.jti@ == jti@,
        c.exp == now + 60 * CREDS_EXPIRE_MINUTES,
        c.iat == iat,
        c.iss@ == iss@,
        c.name@ == name@,
        c.sub@ == sub@,
        c.claim_type@ == "user"@,
        crate::events::strings_view(c.pub_allow@) == user_pub_allow(),
        crate::events::strings_view(c.sub_allow@) == user_sub_allow(),
{
    let pub_allow = vec![
        String::from_str("wasmbus.provider.wasmdome.engine.default"),
        String::from_str("_INBOX.>"),
    ];
    let sub_allow = vec![String::from_str("wasmbus.actor.*"), String::from_str("INBOX.>")];
    assert(crate::events::strings_view(pub_allow@) =~= user_pub_allow());
    assert(crate::events::strings_view(sub_allow@) =~= user_sub_allow());
    UserClaims {
        jti,
        exp: credentials_expiry(now),
        iat,
        iss: String::from_str(iss),
        name: String::from_str(name),
        sub: String::from_str(sub),
        claim_type: String::from_str("user"),
        pub_allow,
        sub_allow,
    }
}

/// The character of the URL-safe Base64 alphabet for a 6-bit value:
/// `A`-`Z`, `a`-`z`, `0`-`9`, then `-` and `_`.
pub open spec fn base64_url_char(v: int) -> char {
    if v < 26 {
        (('A' as int) + v) as char
    } else if v < 52 {
        (('a' as int) + v - 26) as char
    } else if v < 62 {
        (('0' as int) + v - 52) as char
    } else if v == 62 {
        '-'
    } else {
        '_'
    }
}

/// The URL-safe, unpadded Base64 text of some bytes: each group of three
/// bytes becomes four characters of six bits each, and a last group of one
/// or two bytes becomes two or three characters, its bits padded with
/// zeros.
pub open spec fn base64_url(bytes: Seq<u8>) -> Seq<char>
    decreases bytes.len(),
{
    if bytes.len() == 0 {
        Seq::empty()
    } else if bytes.len() == 1 {
        let b0 = bytes[0] as int;
        seq![base64_url_char(b0 / 4), base64_url_char((b0 % 4) * 16)]
    } else if bytes.len() == 2 {
        let (b0, b1) = (bytes[0] as int, bytes[1] as int);
        seq![base64_url_char(b0 / 4), base64_url_char((b0 % 4) * 16 + b1 / 16), base64_url_char((b1 % 16) * 4)]
    } else {
        let (b0, b1, b2) = (bytes[0] as int, bytes[1] as int, bytes[2] as int);
        seq![
            base64_url_char(b0 / 4),
            base64_url_char((b0 % 4) * 16 + b1 / 16),
            base64_url_char((b1 % 16) * 4 + b2 / 64),
            base64_url_char(b2 % 64),
        ] + base64_url(bytes.subrange(3, bytes.len() as int))
    }
}

/// Trusted: `base64::encode_config` with `base64::URL_SAFE_NO_PAD` returns
/// the URL-safe Base64 encoding of its input without padding (RFC 4648,
/// section 5), as `base64_url` spells it out. It panics only when the
/// encoded length overflows a `usize`, which the bound rules out.
#[verifier::external_body]
fn encode_url_safe(input: &[u8]) -> (r: String)
    requires
        input@.len() <= usize::MAX / 2,
    ensures
        r@ == base64_url(input@),
{
    base64::encode_config(input, base64::URL_SAFE_NO_PAD)
}

#[verifier::external_type_specification]
#[verifier::external_body]
pub struct ExNkeysError(nkeys::error::Error);

/// Whether a text is a seed that `nkeys::KeyPair::from_seed` accepts.
pub uninterp spec fn valid_seed(seed: Seq<char>) -> bool;

/// The Ed25519 signature of `input` by the key pair that `seed` encodes.
pub uninterp spec fn seed_signature(seed: Seq<char>, input: Seq<u8>) -> Seq<u8>;

/// Trusted: `nkeys::KeyPair::from_seed` decodes the seed text (and fails on
/// a text that is no valid seed, which depends on the text alone); the key
/// pair it gives holds its seed, so `nkeys::KeyPair::sign` on it always
/// succeeds, giving the 64 bytes of the deterministic Ed25519 signature of
/// the input, a function of the seed and the input alone.
#[verifier::external_body]
fn sign_with_seed(seed: &str, input: &[u8]) -> (r: Result<Vec<u8>, nkeys::error::Error>)
    ensures
        r is Ok <==> valid_seed(seed@),
        r matches Ok(sig) ==> sig@ == seed_signature(seed@, input@) && sig@.len() == 64,
{
    nkeys::KeyPair::from_seed(seed)?.sign(input)
}

/// The public key (as `nkeys` encodes it) of the key pair that `seed`
/// encodes.
pub uninterp spec fn seed_public_key(seed: Seq<char>) -> Seq<char>;

/// Trusted: `nkeys::KeyPair::from_seed` accepts exactly the valid seeds,
/// and `nkeys::KeyPair::public_key` of the pair it gives is the encoded
/// public key, a function of the seed alone.
#[verifier::external_body]
fn public_key_of_seed(seed: &str) -> (r: Result<String, nkeys::error::Error>)
    ensures
        r is Ok <==> valid_seed(seed@),
        r matches Ok(k) ==> k@ == seed_public_key(seed@),
{
    Ok(nkeys::KeyPair::from_seed(seed)?.public_key())
}

/// Trusted: `nkeys::KeyPair::new_user` makes a fresh user key pair from
/// random bytes, and `nkeys::KeyPair::seed` of it always succeeds, giving a
/// seed that `from_seed` accepts and that encodes the same key pair, so its
/// public key (from `nkeys::KeyPair::public_key`) is that of the seed.
/// Which key pair comes back is left open.
#[verifier::external_body]
fn new_user_keys() -> (r: Result<(String, String), nkeys::error::Error>)
    ensures
        r is Ok,
        valid_seed(r->Ok_0.1@),
        r->Ok_0.0@ == seed_public_key(r->Ok_0.1@),
{
    let kp = nkeys::KeyPair::new_user();
    Ok((kp.public_key(), kp.seed()?))
}

/// The parties of minted credentials: the issuer's public key and a fresh
/// user's public key and seed.
#[derive(Debug)]
pub struct MintParties {
    pub issuer: String,
    pub user_public: String,
    pub user_seed: String,
}

/// Finds the parties of new credentials: the issuer is the key pair of the
/// signing seed, the user a fresh key pair. It fails exactly when the
/// signing seed is no valid seed.
pub fn mint_parties(signing_seed: &str) -> (r: Result<MintParties, CredsError>)
    ensures
        r is Ok <==> valid_seed(signing_seed@),
        r matches Ok(p) ==> p.issuer@ == seed_public_key(signing_seed@) && valid_seed(p.user_seed@)
            && p.user_public@ == seed_public_key(p.user_seed@),
{
    let issuer = match public_key_of_seed(signing_seed) {
        Ok(k) => k,
        Err(_) => {
            return Err(CredsError::SigningFailed);
        },
    };
    match new_user_keys() {
        Ok((user_public, user_seed)) => Ok(MintParties { issuer, user_public, user_seed }),
        Err(_) => Err(CredsError::SigningFailed),
    }
}

/// A JSON text as a segment of a token: its UTF-8 bytes in URL-safe Base64
/// without padding.
pub fn to_jwt_segment(json: &str) -> (r: String)
    requires
        encode_utf8(json@).len() <= usize::MAX / 2,
    ensures
        r@ == base64_url(encode_utf8(json@)),
{
    let bytes = json.as_bytes_vec();
    encode_url_safe(bytes.as_slice())
}

/// The signed part of a token: the header and claims segments joined by a
/// dot.
pub open spec fn signed_part(header_json: Seq<char>, claims_json: Seq<char>) -> Seq<char> {
    base64_url(encode_utf8(header_json)) + "."@ + base64_url(encode_utf8(claims_json))
}

/// A signed token: header and claims segments, then the segment of the
/// signature of the two, joined by dots.
pub open spec fn jwt(header_json: Seq<char>, claims_json: Seq<char>, sig: Seq<u8>) -> Seq<char> {
    signed_part(header_json, claims_json) + "."@ + base64_url(sig)
}

/// Why a token could not be made.
#[derive(Debug, Clone, Copy, PartialEq, Eq, Structural)]
pub enum CredsError {
    /// The signing seed is no valid seed, so nothing could sign.
    SigningFailed,
}

/// Closes a token with the outcome of signing it: the signed part, a dot and
/// the segment of the signature; or, where signing failed, the error.
pub fn finish_token(head_and_claims: &str, signature: Result<Vec<u8>, nkeys::error::Error>) -> (r: Result<String, CredsError>)
    requires
        signature matches Ok(sig) ==> sig@.len() <= usize::MAX / 2,
    ensures
        match signature {
            Ok(sig) => r matches Ok(s) && s@ == head_and_claims@ + "."@ + base64_url(sig@),
            Err(_) => r == Err::<String, CredsError>(CredsError::SigningFailed),
        },
{
    match signature {
        Ok(sig) => {
            let sig64 = encode_url_safe(sig.as_slice());
            Ok(String::from_str(head_and_claims).concat(".").concat(sig64.as_str()))
        },
        Err(_) => Err(CredsError::SigningFailed),
    }
}

/// Encodes and signs a token: the segments of the header and the claims,
/// and the segment of their signature by the key pair of the seed `seed`.
/// It fails exactly when `seed` is no valid seed.
pub fn encode(header_json: &str, claims_json: &str, seed: &str) -> (r: Result<String, CredsError>)
    requires
        encode_utf8(header_json@).len() <= usize::MAX / 2,
        encode_utf8(claims_json@).len() <= usize::MAX / 2,
    ensures
        r is Ok <==> valid_seed(seed@),
        r matches Ok(s) ==> s@ == jwt(
            header_json@,
            claims_json@,
            seed_signature(seed@, encode_utf8(signed_part(header_json@, claims_json@))),
        ),
{
    let jheader = to_jwt_segment(header_json);
    let jclaims = to_jwt_segment(claims_json);
    let head_and_claims = jheader.concat(".").concat(jclaims.as_str());
    proof {
        reveal_strlit(".");
    }
    let bytes = head_and_claims.as_str().as_bytes_vec();
    assert(head_and_claims@ == signed_part(header_json@, claims_json@));
    let signature = sign_with_seed(seed, bytes.as_slice());
    let ghost outcome = signature;
    let r = finish_token(head_and_claims.as_str(), signature);
    proof {
        if let Ok(sig) = outcome {
            assert(r->Ok_0@ == jwt(header_json@, claims_json@, sig@));
        }
    }
    r
}

} // verus!
