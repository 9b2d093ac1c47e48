use base64::Engine;
use rand::RngCore;
use vstd::prelude::*;
use vstd::string::StringExecFns;

use crate::protocol::{decimal, decimal_text, json_string, quote};
use crate::validation::{AppError, FORBIDDEN};

verus! {

#[verifier::external_type_specification]
#[verifier::external_body]
pub struct ExCipher(libaes::Cipher);

/// Message for a token that cannot be read.
pub const INVALID_TOKEN_MESSAGE: &'static str = "Token invalide.";

/// Message for a token past its expiry.
pub const EXPIRED_TOKEN_MESSAGE: &'static str = "Token expiré.";

/// Length in bytes of the nonce that starts every token.
pub const NONCE_LEN: usize = 16;

/// Name of the standard base64 text, with padding, of the bytes `b`.
pub uninterp spec fn base64_text(b: Seq<u8>) -> Seq<char>;

/// Name of the bytes whose standard base64 text is `s`; `None` when `s` is
/// not such a text.
pub uninterp spec fn base64_bytes(s: Seq<char>) -> Option<Seq<u8>>;

/// The decimal text of a signed integer.
pub open spec fn signed_decimal(n: int) -> Seq<char> {
    if n < 0 {
        seq!['-'] + decimal((-n) as nat)
    } else {
        decimal(n as nat)
    }
}

/// The JSON text of the claims of a token: `{"exp":<exp>,"sub":<sub>}`.
pub open spec fn claims_text(exp: int, sub: Seq<char>) -> Seq<char> {
    "{\"exp\":"@ + signed_decimal(exp) + ",\"sub\":"@ + json_string(sub) + "}"@
}

/// Relies on base64's `STANDARD` engine `encode`, a function of the bytes.
#[verifier::external_body]
fn to_base64(b: &Vec<u8>) -> (r: String)
    ensures
        r@ == base64_text(b@),
{
    base64::engine::general_purpose::STANDARD.encode(b)
}

/// Relies on base64's `STANDARD` engine `decode`, a function of the text;
/// its error becomes `None`.
#[verifier::external_body]
fn from_base64(s: &str) -> (r: Option<Vec<u8>>)
    ensures
        r matches Some(b) ==> base64_bytes(s@) == Some(b@),
        r is None ==> base64_bytes(s@) is None,
{
    base64::engine::general_purpose::STANDARD.decode(s).ok()
}

/// The decimal text of `n`, with a minus sign when it is negative.
pub fn signed_decimal_text(n: i64) -> (r: String)
    ensures
        r@ == signed_decimal(n as int),
{
    if n < 0 {
        let magnitude: u64 = if n == i64::MIN {
            9223372036854775808u64
        } else {
            (-n) as u64
        };
        let mut r = String::from_str("-");
        let digits = decimal_text(magnitude);
        r.append(digits.as_str());
        proof {
            reveal_strlit("-");
        }
        assert(r@ =~= seq!['-'] + decimal((-n) as nat));
        r
    } else {
        decimal_text(n as u64)
    }
}

/// Relies on `String::from_utf8`: the text whose UTF-8 encoding is `b`,
/// `None` when `b` is not valid UTF-8.
#[verifier::external_body]
fn utf8_text(b: Vec<u8>) -> (r: Option<String>)
    ensures
        r matches Some(s) ==> vstd::utf8::encode_utf8(s@) == b@,
{
    String::from_utf8(b).ok()
}

/// Name of the claims that serde_json reads from `text`: `None` unless it
/// is a JSON object whose member `exp` is an integer that fits in an `i64`
/// and whose member `sub` is a string.
pub uninterp spec fn claims_fields(text: Seq<char>) -> Option<(int, Seq<char>)>;

/// Relies on `serde_json::from_str` into a `Value`, `Value::get`,
/// `Value::as_i64` and `Value::as_str`; the result depends on the text alone.
#[verifier::external_body]
fn read_claims(text: &str) -> (r: Option<(i64, String)>)
    ensures
        match r {
            None => claims_fields(text@) is None,
            Some(c) => claims_fields(text@) == Some((c.0 as int, c.1@)),
        },
{
    let v: serde_json::Value = serde_json::from_str(text).ok()?;
    let exp = v.get("exp")?.as_i64()?;
    let sub = v.get("sub")?.as_str()?.to_string();
    Some((exp, sub))
}

/// Relies on `chrono::Utc::now` and `timestamp`: the current time in
/// seconds since the Unix epoch.
#[verifier::external_body]
fn now_timestamp() -> (r: i64) {
    chrono::Utc::now().timestamp()
}

/// Relies on rand's `thread_rng` and `RngCore::fill_bytes`: sixteen random
/// bytes.
#[verifier::external_body]
fn random_nonce() -> (r: Vec<u8>)
    ensures
        r@.len() == NONCE_LEN,
{
    let mut nonce = [0u8; 16];
    rand::thread_rng().fill_bytes(&mut nonce);
    nonce.to_vec()
}

/// Relies on libaes's `Cipher::cbc_encrypt`, which panics on an IV shorter
/// than one block.
#[verifier::external_body]
fn cbc_encrypt(cipher: &libaes::Cipher, iv: &Vec<u8>, data: &[u8]) -> (r: Vec<u8>)
    requires
        iv@.len() >= NONCE_LEN,
{
    cipher.cbc_encrypt(iv, data)
}

/// Relies on libaes's `Cipher::cbc_decrypt`, which panics on an IV shorter
/// than one block.
#[verifier::external_body]
fn cbc_decrypt(cipher: &libaes::Cipher, iv: &Vec<u8>, data: &Vec<u8>) -> (r: Vec<u8>)
    requires
        iv@.len() >= NONCE_LEN,
{
    cipher.cbc_decrypt(iv, data)
}

/// The claims carried by an encrypted token: an expiry timestamp and a
/// subject.
#[derive(Debug)]
pub struct Token {
    pub exp: i64,
    pub sub: String,
}

/// Splits a decoded token into its nonce and the encrypted claims; `None`
/// when it is shorter than a nonce.
pub fn split_nonce(bytes: Vec<u8>) -> (r: Option<(Vec<u8>, Vec<u8>)>)
    ensures
        r is None <==> bytes@.len() < NONCE_LEN,
        r matches Some(p) ==> p.0@ == bytes@.take(NONCE_LEN as int) && p.1@ == bytes@.skip(
            NONCE_LEN as int,
        ),
{
    if bytes.len() < NONCE_LEN {
        return None;
    }
    let mut nonce = bytes;
    let rest = nonce.split_off(NONCE_LEN);
    Some((nonce, rest))
}

/// The nonce followed by the encrypted claims.
pub fn seal(nonce: &Vec<u8>, encrypted: &Vec<u8>) -> (r: Vec<u8>)
    ensures
        r@ == nonce@ + encrypted@,
{
    let mut r: Vec<u8> = Vec::new();
    let mut i: usize = 0;
    while i < nonce.len()
        invariant
            i <= nonce.len(),
            r@ == nonce@.take(i as int),
        decreases nonce.len() - i,
    {
        r.push(nonce[i]);
        assert(nonce@.take(i + 1) =~= nonce@.take(i as int).push(nonce@[i as int]));
        i += 1;
    }
    let mut j: usize = 0;
    while j < encrypted.len()
        invariant
            j <= encrypted.len(),
            r@ == nonce@ + encrypted@.take(j as int),
        decreases encrypted.len() - j,
    {
        r.push(encrypted[j]);
        assert(encrypted@.take(j + 1) =~= encrypted@.take(j as int).push(encrypted@[j as int]));
        j += 1;
    }
    assert(nonce@.take(nonce.len() as int) =~= nonce@);
    assert(encrypted@.take(encrypted.len() as int) =~= encrypted@);
    r
}

fn refused(message: &str) -> (r: Result<String, AppError>)
    ensures
        r is Err,
        r->Err_0.status_code == FORBIDDEN,
        r->Err_0.message is Some,
        r->Err_0.message->Some_0@ == message@,
{
    Err(AppError::forbidden_error(Some(String::from_str(message))))
}

impl Token {
    /// The JSON text of the claims.
    pub fn to_json(&self) -> (r: String)
        ensures
            r@ == claims_text(self.exp as int, self.sub@),
    {
        let mut r = String::from_str("{\"exp\":");
        let e = signed_decimal_text(self.exp);
        r.append(e.as_str());
        r.append(",\"sub\":");
        let q = quote(self.sub.as_str());
        r.append(q.as_str());
        r.append("}");
        r
    }

    /// Reads the claims from JSON text: an object with an integer `exp` and
    /// a string `sub`.
    pub fn from_json(text: &str) -> (r: Option<Token>)
        ensures
            match r {
                None => claims_fields(text@) is None,
                Some(t) => claims_fields(text@) == Some((t.exp as int, t.sub@)),
            },
    {
        match read_claims(text) {
            Some((exp, sub)) => Some(Token { exp, sub }),
            None => None,
        }
    }

    /// The subject of a token read at time `now`: refused once `now` has
    /// reached the expiry.
    pub fn check_expiry(self, now: i64) -> (r: Result<String, AppError>)
        ensures
            self.exp <= now ==> r is Err && r->Err_0.status_code == FORBIDDEN
                && r->Err_0.message is Some && r->Err_0.message->Some_0@ == EXPIRED_TOKEN_MESSAGE@,
            self.exp > now ==> r == Ok::<String, AppError>(self.sub),
    {
        if self.exp <= now {
            return refused(EXPIRED_TOKEN_MESSAGE);
        }
        Ok(self.sub)
    }

    /// An encrypted token for `sub` that expires `exp_in` seconds from now:
    /// a random nonce followed by the claims encrypted with it, in base64.
    /// `None` when the expiry does not fit in an `i64`.
    pub fn create(sub: String, exp_in: i64, cipher: &libaes::Cipher) -> (r: Option<String>)
        ensures
            r matches Some(t) ==> exists|nonce: Seq<u8>, sealed: Seq<u8>|
                nonce.len() == NONCE_LEN && t@ == base64_text(nonce + sealed),
    {
        let now = now_timestamp();
        let exp = match now.checked_add(exp_in) {
            Some(e) => e,
            None => {
                return None;
            },
        };
        let claims = Token { exp, sub }.to_json();
        let nonce = random_nonce();
        let encrypted = cbc_encrypt(cipher, &nonce, claims.as_str().as_bytes());
        let t = to_base64(&seal(&nonce, &encrypted));
        assert(t@ == base64_text(nonce@ + encrypted@));
        Some(t)
    }

    /// The subject of an encrypted token. Refused with "Token invalide."
    /// when it is not base64, is shorter than a nonce, or does not decrypt
    /// to claims; refused with "Token expiré." once it has expired.
    pub fn decode(token: &str, cipher: &libaes::Cipher) -> (r: Result<String, AppError>)
        ensures
            r is Err ==> r->Err_0.status_code == FORBIDDEN && r->Err_0.message is Some && (
            r->Err_0.message->Some_0@ == INVALID_TOKEN_MESSAGE@ || r->Err_0.message->Some_0@
                == EXPIRED_TOKEN_MESSAGE@),
            base64_bytes(token@) is None ==> r is Err && r->Err_0.message->Some_0@
                == INVALID_TOKEN_MESSAGE@,
            base64_bytes(token@) matches Some(b) && b.len() < NONCE_LEN ==> r is Err
                && r->Err_0.message->Some_0@ == INVALID_TOKEN_MESSAGE@,
    {
        let bytes = match from_base64(token) {
            Some(b) => b,
            None => {
                return refused(INVALID_TOKEN_MESSAGE);
            },
        };
        let (nonce, data) = match split_nonce(bytes) {
            Some(p) => p,
            None => {
                return refused(INVALID_TOKEN_MESSAGE);
            },
        };
        let decrypted = cbc_decrypt(cipher, &nonce, &data);
        let text = match utf8_text(decrypted) {
            Some(t) => t,
            None => {
                return refused(INVALID_TOKEN_MESSAGE);
            },
        };
        let claims = match Token::from_json(text.as_str()) {
            Some(c) => c,
            None => {
                return refused(INVALID_TOKEN_MESSAGE);
            },
        };
        claims.check_expiry(now_timestamp())
    }
}

} // verus!
