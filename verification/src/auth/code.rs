//! The code verifier and the code challenge of the sign-in, and what the
//! service answers to them.

use vstd::prelude::*;
use vstd::string::*;
use crate::text::{char_at, chars_of, string_of};

verus! {

/// What is sent to the service to trade an authorisation code for tokens.
#[derive(Debug, PartialEq)]
pub struct AccessTokenRequestParams {
    pub grant_type: String,
    pub code: String,
    pub client_id: String,
    pub redirect_uri: String,
    pub code_verifier: String,
}

/// What is kept on disk between two runs.
#[derive(Debug, PartialEq)]
pub struct AuthFileContent {
    pub token: String,
    pub refresh_token: String,
    /// The time in seconds since the epoch after which the token is no
    /// longer good.
    pub expires_after: u64,
}

/// What the service answers to a request for tokens.
#[derive(Debug, PartialEq)]
pub struct AccessTokenResponse {
    pub access_token: String,
    pub token_type: String,
    /// For how many seconds the token is good.
    pub expires_in: u64,
    pub refresh_token: String,
    pub scope: String,
}

impl Clone for AccessTokenResponse {
    fn clone(&self) -> (r: Self)
        ensures
            r.access_token@ == self.access_token@,
            r.token_type@ == self.token_type@,
            r.expires_in == self.expires_in,
            r.refresh_token@ == self.refresh_token@,
            r.scope@ == self.scope@,
    {
        AccessTokenResponse {
            access_token: self.access_token.clone(),
            token_type: self.token_type.clone(),
            expires_in: self.expires_in,
            refresh_token: self.refresh_token.clone(),
            scope: self.scope.clone(),
        }
    }
}

/// Why the sign-in failed inside the library.
#[derive(Clone, Copy, Debug, PartialEq, Eq, Structural)]
pub enum AuthError {
    /// The system gave no random bytes.
    NoRandomness,
    /// The parameters of the redirect do not begin with `code=`.
    InvalidRedirect,
    /// The service answered with an error.
    Refused,
}

/// The text that standard base64 with padding writes for the bytes
/// `bytes`.
pub uninterp spec fn base64_standard(bytes: Seq<u8>) -> Seq<char>;

/// `Engine::encode` of base64 on the engine `BASE64_STANDARD`: the bytes in
/// standard base64 with padding. The result depends on the bytes alone.
/// The crate panics where the length of the text does not fit in `usize`,
/// so the bytes must be far fewer.
#[verifier::external_body]
fn encode_base64(bytes: &[u8]) -> (r: String)
    requires
        bytes@.len() <= 0x3fff_ffff,
    ensures
        r@ == base64_standard(bytes@),
{
    base64::Engine::encode(&base64::prelude::BASE64_STANDARD, bytes)
}

/// The SHA-256 digest of the text `text` in UTF-8.
pub uninterp spec fn sha256_digest(text: Seq<char>) -> Seq<u8>;

/// `digest` of ring with the algorithm `SHA256` on the bytes of the text:
/// the digest as bytes, of which that algorithm gives 32. The result
/// depends on the text alone. ring fails on an input of `2^61` bytes or
/// more.
#[verifier::external_body]
fn digest_sha256(text: &str) -> (r: Vec<u8>)
    requires
        text@.len() < 0x0800_0000_0000_0000,
    ensures
        r@ == sha256_digest(text@),
        r@.len() == 32,
{
    ring::digest::digest(&ring::digest::SHA256, text.as_bytes()).as_ref().to_vec()
}

/// `SecureRandom::fill` of ring on a `SystemRandom`: `count` random bytes,
/// or nothing where the system gives none. Of the bytes only their number
/// is known.
#[verifier::external_body]
fn random_bytes(count: usize) -> (r: Option<Vec<u8>>)
    ensures
        r is Some ==> r->0@.len() == count,
{
    let mut buf = vec![0u8; count];
    match ring::rand::SecureRandom::fill(&ring::rand::SystemRandom::new(), &mut buf) {
        Ok(()) => Some(buf),
        Err(_) => None,
    }
}

/// The character that stands for `c` in a text that may stand in an
/// address: `-` for `+`, `_` for `/`, nothing for `=`, and the character
/// itself for any other.
pub open spec fn url_safe_char(c: char) -> Seq<char> {
    if c == '=' {
        seq![]
    } else if c == '+' {
        seq!['-']
    } else if c == '/' {
        seq!['_']
    } else {
        seq![c]
    }
}

/// `text` as it may stand in an address.
pub open spec fn url_safe(text: Seq<char>) -> Seq<char>
    decreases text.len(),
{
    if text.len() == 0 {
        seq![]
    } else {
        url_safe(text.drop_last()) + url_safe_char(text.last())
    }
}

/// Rewrites a text in standard base64 so that it may stand in an address.
pub fn make_url_safe(text: &str) -> (r: String)
    ensures
        r@ == url_safe(text@),
{
    let chars = chars_of(text);
    let mut out: Vec<char> = Vec::new();
    let mut i: usize = 0;
    assert(chars@.take(0) =~= Seq::<char>::empty());
    while i < chars.len()
        invariant
            i <= chars.len(),
            out@ == url_safe(chars@.take(i as int)),
        decreases chars.len() - i,
    {
        let c = chars[i];
        proof {
            assert(chars@.take(i + 1).drop_last() =~= chars@.take(i as int));
            assert(chars@.take(i + 1).last() == c);
        }
        if c == '=' {
            assert(out@ + url_safe_char(c) =~= out@);
        } else if c == '+' {
            out.push('-');
        } else if c == '/' {
            out.push('_');
        } else {
            out.push(c);
        }
        i += 1;
    }
    assert(chars@.take(chars.len() as int) =~= chars@);
    string_of(out.as_slice())
}

/// The bytes of a digest in base64 as it may stand in an address.
pub fn b64(hash: &[u8]) -> (r: String)
    requires
        hash@.len() <= 0x3fff_ffff,
    ensures
        r@ == url_safe(base64_standard(hash@)),
{
    let encoded = encode_base64(hash);
    make_url_safe(encoded.as_str())
}

/// The SHA-256 digest of a code.
pub fn sha256(code: &str) -> (r: Vec<u8>)
    requires
        code@.len() < 0x0800_0000_0000_0000,
    ensures
        r@ == sha256_digest(code@),
        r@.len() == 32,
{
    digest_sha256(code)
}

/// The code challenge that belongs to a code verifier: its SHA-256 digest
/// in standard base64.
pub fn code_challenge(verifier: &str) -> (r: String)
    requires
        verifier@.len() < 0x0800_0000_0000_0000,
    ensures
        r@ == base64_standard(sha256_digest(verifier@)),
{
    let hash = digest_sha256(verifier);
    encode_base64(hash.as_slice())
}

/// The letters and digits that a code verifier is made of.
pub open spec fn verifier_alphabet() -> Seq<char> {
    "ABCDEFGHIJKLMNOPQRSTUVWXYZabcdefghijklmnopqrstuvwxyz0123456789"@
}

/// What a random byte adds to a code verifier. The byte picks one of 64
/// places by its lowest six bits: the first and the last place are empty,
/// and between them stand the 62 letters and digits.
pub open spec fn verifier_char(byte: u8) -> Seq<char> {
    let place = byte % 64;
    if 1 <= place <= 62 {
        seq![verifier_alphabet()[place - 1]]
    } else {
        seq![]
    }
}

/// The code verifier that the random bytes `bytes` make.
pub open spec fn verifier_spec(bytes: Seq<u8>) -> Seq<char>
    decreases bytes.len(),
{
    if bytes.len() == 0 {
        seq![]
    } else {
        verifier_spec(bytes.drop_last()) + verifier_char(bytes.last())
    }
}

/// The code verifier that the random bytes `bytes` make.
pub fn verifier_from(bytes: &[u8]) -> (r: String)
    ensures
        r@ == verifier_spec(bytes@),
{
    let possible = chars_of("ABCDEFGHIJKLMNOPQRSTUVWXYZabcdefghijklmnopqrstuvwxyz0123456789");
    proof {
        reveal_strlit("ABCDEFGHIJKLMNOPQRSTUVWXYZabcdefghijklmnopqrstuvwxyz0123456789");
    }
    let mut values: Vec<char> = Vec::new();
    let mut i: usize = 0;
    assert(bytes@.take(0) =~= Seq::<u8>::empty());
    while i < bytes.len()
        invariant
            i <= bytes.len(),
            possible@ == verifier_alphabet(),
            possible@.len() == 62,
            values@ == verifier_spec(bytes@.take(i as int)),
        decreases bytes.len() - i,
    {
        let place = bytes[i] % 64;
        proof {
            assert(bytes@.take(i + 1).drop_last() =~= bytes@.take(i as int));
            assert(bytes@.take(i + 1).last() == bytes@[i as int]);
        }
        if 1 <= place && place <= 62 {
            values.push(char_at(possible.as_slice(), (place - 1) as usize));
        } else {
            assert(values@ + verifier_char(bytes@[i as int]) =~= values@);
        }
        i += 1;
    }
    assert(bytes@.take(bytes.len() as int) =~= bytes@);
    string_of(values.as_slice())
}

/// A fresh code verifier, made of 128 random bytes.
pub fn code_verifier() -> (r: Result<String, AuthError>)
    ensures
        match r {
            Ok(text) => exists|bytes: Seq<u8>|
                bytes.len() == 128 && text@ == #[trigger] verifier_spec(bytes),
            Err(e) => e == AuthError::NoRandomness,
        },
{
    match random_bytes(128) {
        Some(buf) => Ok(verifier_from(buf.as_slice())),
        None => Err(AuthError::NoRandomness),
    }
}

/// Whether the time at which a token ends, which arrived at the time `now`
/// and is good for `expires_in` seconds, can be held.
pub fn check_expiry(now: u64, expires_in: u64) -> (r: bool)
    ensures
        r == (now + expires_in <= u64::MAX),
{
    now <= u64::MAX - expires_in
}

/// Whether a text is short enough for its digest to be taken.
pub fn check_hashable(text: &str) -> (r: bool)
    ensures
        r == (text@.len() < 0x0800_0000_0000_0000),
{
    (text.unicode_len() as u64) < 0x0800_0000_0000_0000
}

/// What is kept on disk of the tokens that arrived at the time `now`:
/// the two tokens and the time after which the access token is no longer
/// good.
pub fn create_file_content(atd: AccessTokenResponse, now: u64) -> (r: AuthFileContent)
    requires
        now + atd.expires_in <= u64::MAX,
    ensures
        r.token@ == atd.access_token@,
        r.refresh_token@ == atd.refresh_token@,
        r.expires_after == now + atd.expires_in,
{
    AuthFileContent {
        token: atd.access_token,
        refresh_token: atd.refresh_token,
        expires_after: now + atd.expires_in,
    }
}

/// What is sent to trade the authorisation code `code` for tokens.
pub fn access_token_request(
    client_id: String,
    code: String,
    code_verifier: String,
    redirect: String,
) -> (r: AccessTokenRequestParams)
    ensures
        r.grant_type@ == "authorization_code"@,
        r.client_id == client_id,
        r.code == code,
        r.code_verifier == code_verifier,
        r.redirect_uri == redirect,
{
    AccessTokenRequestParams {
        grant_type: String::from_str("authorization_code"),
        client_id,
        code,
        code_verifier,
        redirect_uri: redirect,
    }
}

/// The body of the service's answer where the answer has the status 200,
/// and an error for any other status.
pub fn check_token_response(status: u16, body: String) -> (r: Result<String, AuthError>)
    ensures
        r == (if status == 200 {
            Ok::<String, AuthError>(body)
        } else {
            Err::<String, AuthError>(AuthError::Refused)
        }),
{
    if status == 200 {
        Ok(body)
    } else {
        Err(AuthError::Refused)
    }
}

} // verus!
