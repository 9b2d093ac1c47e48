use sha2::Digest;
use vstd::prelude::*;
use vstd::string::{StrSliceExecFns, StringExecFns};

use crate::models::RegisterUser;

verus! {

/// HTTP status of a refused request.
pub const FORBIDDEN: u16 = 403;

/// HTTP status of a failure on the server's side.
pub const INTERNAL_SERVER_ERROR: u16 = 500;

/// An error answered to an HTTP request: a status and an optional message.
#[derive(Debug)]
pub struct AppError {
    pub status_code: u16,
    pub message: Option<String>,
}

impl AppError {
    /// An error with this status and message.
    pub fn new(status_code: u16, message: Option<String>) -> (r: AppError)
        ensures
            r.status_code == status_code,
            r.message == message,
    {
        AppError { status_code, message }
    }

    /// A server-side failure, with no message.
    pub fn internal_server_error() -> (r: AppError)
        ensures
            r.status_code == INTERNAL_SERVER_ERROR,
            r.message is None,
    {
        AppError { status_code: INTERNAL_SERVER_ERROR, message: None }
    }

    /// A refused request, with this message.
    pub fn forbidden_error(message: Option<String>) -> (r: AppError)
        ensures
            r.status_code == FORBIDDEN,
            r.message == message,
    {
        AppError { status_code: FORBIDDEN, message }
    }

    /// The refusal of an action that needs an authenticated user.
    pub fn you_have_to_be_connected_to_perform_this_action_error() -> (r: AppError)
        ensures
            r.status_code == FORBIDDEN,
            r.message is Some,
            r.message->Some_0@ == NOT_CONNECTED_MESSAGE@,
    {
        AppError { status_code: FORBIDDEN, message: Some(String::from_str(NOT_CONNECTED_MESSAGE)) }
    }
}

/// Message of the refusal of an action that needs an authenticated user.
pub const NOT_CONNECTED_MESSAGE: &'static str = "Vous devez être connecté pour effectuer cette action";

/// Message for a post title of the wrong length.
pub const TITLE_LENGTH_MESSAGE: &'static str = "Le titre d'un post doit contenir entre 3 et 50 caractères.";

/// Message for a post content of the wrong length.
pub const CONTENT_LENGTH_MESSAGE: &'static str =
    "Le contenu d'un post doit contenir entre 10 et 1 000 caractères.";

/// Message for a post description of the wrong length.
pub const DESCRIPTION_LENGTH_MESSAGE: &'static str =
    "La description d'un post doit contenir entre 5 et 100 caractères.";

/// Message for a username of the wrong length.
pub const USERNAME_LENGTH_MESSAGE: &'static str =
    "Le nom d'utilisateur doit contenir entre 5 et 12 caractères.";

/// Message for a username that does not begin with a letter.
pub const USERNAME_FIRST_LETTER_MESSAGE: &'static str =
    "Le nom d'utilisateur doit commencer par une lettre.";

/// Message for a username with a character other than a letter, a digit or
/// an underscore.
pub const USERNAME_CHARSET_MESSAGE: &'static str =
    "Le nom d'utilisateur ne doit contenir que des lettres, des chiffres et des underscores.";

/// Message for an invalid email address.
pub const EMAIL_MESSAGE: &'static str = "L'email est invalide.";

/// Message for a password that is too short.
pub const PASSWORD_MESSAGE: &'static str = "Mot de passe trop court.";

/// The length of the UTF-8 encoding of `s`, in bytes.
pub open spec fn byte_len(s: Seq<char>) -> nat {
    vstd::utf8::encode_utf8(s).len()
}

/// Whether `n` lies between `lo` and `hi`, both included.
pub open spec fn within(n: nat, lo: nat, hi: nat) -> bool {
    lo <= n <= hi
}

/// The message refusing a post whose title, description and content have
/// these lengths in bytes, checked in the order title, content, description;
/// `None` when the post is accepted.
pub open spec fn post_data_error(title_len: nat, description_len: nat, content_len: nat) -> Option<
    Seq<char>,
> {
    if !within(title_len, 3, 50) {
        Some(TITLE_LENGTH_MESSAGE@)
    } else if !within(content_len, 10, 1000) {
        Some(CONTENT_LENGTH_MESSAGE@)
    } else if !within(description_len, 5, 100) {
        Some(DESCRIPTION_LENGTH_MESSAGE@)
    } else {
        None
    }
}

/// Whether `r` is the answer that `expected` calls for: success, or a
/// refusal with that message.
pub open spec fn answers(r: Result<(), AppError>, expected: Option<Seq<char>>) -> bool {
    match expected {
        None => r is Ok,
        Some(m) => {
            &&& r is Err
            &&& r->Err_0.status_code == FORBIDDEN
            &&& r->Err_0.message is Some
            &&& r->Err_0.message->Some_0@ == m
        },
    }
}

fn forbidden(message: &str) -> (r: Result<(), AppError>)
    ensures
        answers(r, Some(message@)),
{
    Err(AppError::forbidden_error(Some(String::from_str(message))))
}

/// Checks the lengths, in bytes, of a new post's title (3 to 50), content
/// (10 to 1000) and description (5 to 100).
pub fn check_new_post_data(auth_user_id: i64, title: &str, description: &str, content: &str) -> (r:
    Result<(), AppError>)
    ensures
        answers(
            r,
            post_data_error(title.len() as nat, description.len() as nat, content.len() as nat),
        ),
{
    if title.len() < 3 || title.len() > 50 {
        return forbidden(TITLE_LENGTH_MESSAGE);
    }
    if content.len() < 10 || content.len() > 1000 {
        return forbidden(CONTENT_LENGTH_MESSAGE);
    }
    if description.len() < 5 || description.len() > 100 {
        return forbidden(DESCRIPTION_LENGTH_MESSAGE);
    }
    Ok(())
}

/// Name of `char::is_alphabetic`: whether `c` has Unicode's Alphabetic
/// property.
pub uninterp spec fn is_letter(c: char) -> bool;

/// Name of `char::is_alphanumeric`: whether `c` is alphabetic or numeric.
pub uninterp spec fn is_letter_or_digit(c: char) -> bool;

/// The ASCII letters.
pub open spec fn is_ascii_letter(c: char) -> bool {
    ('a' <= c && c <= 'z') || ('A' <= c && c <= 'Z')
}

/// Relies on `char::is_alphabetic`; among ASCII characters exactly the
/// letters are alphabetic.
#[verifier::external_body]
fn letter(c: char) -> (r: bool)
    ensures
        r == is_letter(c),
        (c as u32) < 128 ==> (r <==> is_ascii_letter(c)),
{
    c.is_alphabetic()
}

/// Relies on `char::is_alphanumeric`; among ASCII characters exactly the
/// letters and digits are alphanumeric.
#[verifier::external_body]
fn letter_or_digit(c: char) -> (r: bool)
    ensures
        r == is_letter_or_digit(c),
        (c as u32) < 128 ==> (r <==> (is_ascii_letter(c) || ('0' <= c && c <= '9'))),
{
    c.is_alphanumeric()
}

/// The message refusing a username of these characters and this length in
/// bytes: 5 to 12 bytes, a letter first, then letters, digits and
/// underscores; `None` when it is accepted.
pub open spec fn username_error(chars: Seq<char>, byte_len: nat) -> Option<Seq<char>> {
    if !within(byte_len, 5, 12) {
        Some(USERNAME_LENGTH_MESSAGE@)
    } else if chars.len() == 0 || !is_letter(chars[0]) {
        Some(USERNAME_FIRST_LETTER_MESSAGE@)
    } else if exists|i: int|
        1 <= i < chars.len() && !is_letter_or_digit(#[trigger] chars[i]) && chars[i] != '_' {
        Some(USERNAME_CHARSET_MESSAGE@)
    } else {
        None
    }
}

/// Checks a username: 5 to 12 bytes long, beginning with a letter, and
/// made of letters, digits and underscores.
pub fn check_username(username: &str) -> (r: Result<(), AppError>)
    ensures
        answers(r, username_error(username@, username.len() as nat)),
{
    if username.len() < 5 || username.len() > 12 {
        return forbidden(USERNAME_LENGTH_MESSAGE);
    }
    let n = username.unicode_len();
    if n == 0 || !letter(username.get_char(0)) {
        return forbidden(USERNAME_FIRST_LETTER_MESSAGE);
    }
    let mut i: usize = 1;
    while i < n
        invariant
            1 <= i <= n,
            n == username@.len(),
            is_letter(username@[0]),
            5 <= username.len() <= 12,
            forall|j: int| 1 <= j < i ==> #[trigger] is_letter_or_digit(username@[j]) || username@[j]
                == '_',
        decreases n - i,
    {
        let c = username.get_char(i);
        if !letter_or_digit(c) && c != '_' {
            assert(!is_letter_or_digit(username@[i as int]) && username@[i as int] != '_');
            return forbidden(USERNAME_CHARSET_MESSAGE);
        }
        i += 1;
    }
    Ok(())
}

/// Name of `email_address::EmailAddress::is_valid`: whether the text is an
/// email address as RFC 5322 and its updates describe it.
pub uninterp spec fn is_email_address(s: Seq<char>) -> bool;

/// Relies on `email_address::EmailAddress::is_valid`, which depends on the
/// text alone.
#[verifier::external_body]
fn email_is_valid(email: &str) -> (r: bool)
    ensures
        r == is_email_address(email@),
{
    email_address::EmailAddress::is_valid(email)
}

/// Checks that `email` is a valid email address.
pub fn check_email_address(email: &str) -> (r: Result<(), AppError>)
    ensures
        answers(
            r,
            if is_email_address(email@) {
                None
            } else {
                Some(EMAIL_MESSAGE@)
            },
        ),
{
    if !email_is_valid(email) {
        return forbidden(EMAIL_MESSAGE);
    }
    Ok(())
}

/// The message refusing a registration, checked in the order username,
/// email, password (at least 8 bytes); `None` when it is accepted.
pub open spec fn register_error(
    username: Seq<char>,
    username_len: nat,
    email: Seq<char>,
    password_len: nat,
) -> Option<Seq<char>> {
    if username_error(username, username_len) is Some {
        username_error(username, username_len)
    } else if !is_email_address(email) {
        Some(EMAIL_MESSAGE@)
    } else if password_len < 8 {
        Some(PASSWORD_MESSAGE@)
    } else {
        None
    }
}

/// Checks the data of a registration: username, email, then password.
pub fn check_register_infos(user: &RegisterUser) -> (r: Result<(), AppError>)
    requires
        byte_len(user.username@) <= usize::MAX,
        byte_len(user.password@) <= usize::MAX,
    ensures
        answers(
            r,
            register_error(
                user.username@,
                byte_len(user.username@),
                user.email@,
                byte_len(user.password@),
            ),
        ),
{
    match check_username(user.username.as_str()) {
        Err(e) => {
            return Err(e);
        },
        Ok(()) => {},
    }
    match check_email_address(user.email.as_str()) {
        Err(e) => {
            return Err(e);
        },
        Ok(()) => {},
    }
    if user.password.as_str().len() < 8 {
        return forbidden(PASSWORD_MESSAGE);
    }
    Ok(())
}

/// Message for a birthdate out of range.
pub const BIRTHDATE_MESSAGE: &'static str = "Date de naissance invalide.";

/// The Unix timestamp of 1900-01-01T00:00:00Z, the earliest birthdate.
pub const FIRST_BIRTHDATE: i64 = -2208988800;

/// Checks a birthdate given as a Unix timestamp in seconds: no earlier than
/// 1900 and no later than `now`.
pub fn check_birthdate(birthdate: i64, now: i64) -> (r: Result<(), AppError>)
    ensures
        answers(
            r,
            if FIRST_BIRTHDATE <= birthdate <= now {
                None
            } else {
                Some(BIRTHDATE_MESSAGE@)
            },
        ),
{
    if birthdate < FIRST_BIRTHDATE || birthdate > now {
        return forbidden(BIRTHDATE_MESSAGE);
    }
    Ok(())
}

/// Name of the lowercase hexadecimal SHA-512 digest of the UTF-8 bytes of
/// `s`.
pub uninterp spec fn sha512_hex(s: Seq<char>) -> Seq<char>;

/// Relies on sha2's `Sha512` and the `LowerHex` of its output: a digest of
/// 64 bytes, written as 128 hexadecimal digits.
#[verifier::external_body]
fn sha512_hex_of(password: &str) -> (r: String)
    ensures
        r@ == sha512_hex(password@),
        r@.len() == 128,
{
    let mut hasher = sha2::Sha512::new();
    hasher.update(password);
    format!("{:x}", hasher.finalize())
}

/// The stored form of a password: its SHA-512 digest in hexadecimal.
pub fn hash_password(password: &str) -> (r: String)
    ensures
        r@ == sha512_hex(password@),
        r@.len() == 128,
{
    sha512_hex_of(password)
}

} // verus!
