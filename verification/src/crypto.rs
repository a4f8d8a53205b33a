//! Digests, text encodings and password hashes, as the outside crates compute them.
//!
//! Nothing in this file is proved: each function hands its arguments to an outside crate and states
//! what that crate promises of the result.
use argon2::password_hash::rand_core::OsRng;
use argon2::password_hash::{PasswordHash, PasswordHasher, PasswordVerifier, SaltString};
use argon2::Argon2;
use base64::engine::general_purpose::URL_SAFE_NO_PAD;
use base64::Engine;
use sha2::{Digest, Sha256};
use vstd::prelude::*;

verus! {

/// Why a password hash could not be read or made (`password_hash::Error`).
#[verifier::external_type_specification]
#[verifier::external_body]
pub struct ExPasswordHashError(argon2::password_hash::Error);

/// Why a base64 text could not be read (`base64::DecodeError`).
#[verifier::external_type_specification]
#[verifier::external_body]
pub struct ExDecodeError(base64::DecodeError);

/// The SHA-256 digest of some bytes.
pub uninterp spec fn sha256(data: Seq<u8>) -> Seq<u8>;

/// `Sha256::digest` of the crate sha2: the digest of `data`, which has 32 bytes.
#[verifier::external_body]
pub(crate) fn sha256_digest(data: &[u8]) -> (r: Vec<u8>)
    ensures
        r@ == sha256(data@),
        r@.len() == 32,
{
    Sha256::digest(data).to_vec()
}

/// The character occurs in URL-safe base64.
pub open spec fn is_base64url(c: char) -> bool {
    ('a' <= c <= 'z') || ('A' <= c <= 'Z') || ('0' <= c <= '9') || c == '-' || c == '_'
}

/// The URL-safe base64 text of some bytes, without padding.
pub uninterp spec fn base64url(data: Seq<u8>) -> Seq<char>;

/// The bytes that an unpadded URL-safe base64 text stands for, if it is one.
pub uninterp spec fn base64url_bytes(text: Seq<char>) -> Option<Seq<u8>>;

/// `URL_SAFE_NO_PAD.encode` of the crate base64: the text of `data`, in the URL-safe alphabet, from
/// which `data` can be read back. The text must fit in memory.
#[verifier::external_body]
pub(crate) fn base64url_encode(data: &[u8]) -> (r: String)
    requires
        data@.len() * 2 <= isize::MAX,
    ensures
        r@ == base64url(data@),
        base64url_bytes(r@) == Some(data@),
        forall|i: int| 0 <= i < r@.len() ==> is_base64url(#[trigger] r@[i]),
{
    URL_SAFE_NO_PAD.encode(data)
}

/// `URL_SAFE_NO_PAD.decode` of the crate base64: the bytes that `text` stands for, or an error
/// where it is no unpadded URL-safe base64.
#[verifier::external_body]
pub(crate) fn base64url_decode(text: &str) -> (r: Result<Vec<u8>, base64::DecodeError>)
    ensures
        match r {
            Ok(data) => base64url_bytes(text@) == Some(data@),
            Err(_) => base64url_bytes(text@) is None,
        },
{
    URL_SAFE_NO_PAD.decode(text)
}

/// The character occurs in standard base64.
pub open spec fn is_base64(c: char) -> bool {
    ('a' <= c <= 'z') || ('A' <= c <= 'Z') || ('0' <= c <= '9') || c == '+' || c == '/'
}

/// The text has the shape of a salt: 22 characters of standard base64, as 16 bytes take.
pub open spec fn is_salt(s: Seq<char>) -> bool {
    s.len() == 22 && forall|i: int| 0 <= i < s.len() ==> is_base64(#[trigger] s[i])
}

/// `SaltString::generate` of the crate password-hash, with the randomness of the operating system:
/// 16 random bytes as 22 characters of standard base64. Which bytes they are is left to chance.
#[verifier::external_body]
pub(crate) fn random_salt() -> (r: String)
    ensures
        is_salt(r@),
{
    SaltString::generate(&mut OsRng).as_str().to_owned()
}

/// The Argon2id hash of a password with a salt, as a PHC string, if they can be hashed.
pub uninterp spec fn argon2_hash_of(password: Seq<char>, salt: Seq<char>) -> Option<Seq<char>>;

/// The parameters that a PHC string names, in order, each with its value where that is a decimal
/// number; nothing where the text is no PHC string.
pub uninterp spec fn phc_params_of(text: Seq<char>) -> Option<Seq<(Seq<char>, Option<u32>)>>;

/// The text is a PHC string.
pub open spec fn phc_valid(text: Seq<char>) -> bool {
    phc_params_of(text) is Some
}

/// Parameters as mathematical values.
pub open spec fn param_views(params: Seq<(String, Option<u32>)>) -> Seq<(Seq<char>, Option<u32>)> {
    params.map_values(|p: (String, Option<u32>)| (p.0@, p.1))
}

/// The number of lanes that parameters ask for, if they do: the last one that is named decides.
pub open spec fn lanes_of(params: Seq<(Seq<char>, Option<u32>)>) -> Option<u32>
    decreases params.len(),
{
    if params.len() == 0 {
        None
    } else if params.last().0 == "p"@ {
        params.last().1
    } else {
        lanes_of(params.drop_last())
    }
}

/// Argon2 can take the number of lanes: eight times it is a number of 32 bits.
pub open spec fn lanes_fit(params: Seq<(Seq<char>, Option<u32>)>) -> bool {
    match lanes_of(params) {
        Some(lanes) => lanes < 536_870_912,
        None => true,
    }
}

/// The password is the one that the PHC string was made from.
pub uninterp spec fn phc_accepts(text: Seq<char>, password: Seq<char>) -> bool;

/// `Argon2::hash_password` of the crate argon2, with its default parameters, of which one is a
/// single lane: the hash of `password` with `salt`, which is a PHC string that accepts this
/// password. It fails where the salt is none or the password is longer than Argon2 takes.
#[verifier::external_body]
pub(crate) fn argon2_hash(password: &str, salt: &str) -> (r: Result<
    String,
    argon2::password_hash::Error,
>)
    ensures
        match r {
            Ok(hash) => argon2_hash_of(password@, salt@) == Some(hash@) && phc_valid(hash@)
                && lanes_fit(phc_params_of(hash@)->0) && phc_accepts(hash@, password@),
            Err(_) => argon2_hash_of(password@, salt@) is None,
        },
{
    let salt = SaltString::from_b64(salt)?;
    Argon2::default().hash_password(password.as_bytes(), &salt).map(|hash| hash.to_string())
}

/// `PasswordHash::new` of the crate password-hash, and the parameters that it reads: those that the
/// PHC string `text` names, each with its value where `Value::decimal` reads one; an error where
/// `text` is no PHC string.
#[verifier::external_body]
pub(crate) fn phc_params(text: &str) -> (r: Result<
    Vec<(String, Option<u32>)>,
    argon2::password_hash::Error,
>)
    ensures
        match r {
            Ok(params) => phc_params_of(text@) == Some(param_views(params@)),
            Err(_) => phc_params_of(text@) is None,
        },
{
    let hash = PasswordHash::new(text)?;
    let params = hash.params.iter().map(|(name, value)| {
        (name.as_str().to_owned(), value.decimal().ok())
    });
    Ok(params.collect())
}

/// `Argon2::verify_password` of the crate argon2: whether `password` is the one that the PHC string
/// `text` was made from, by the parameters in `text`. With too many lanes the crate overflows, so
/// these are left out. Whether the working memory that `text` asks for can be had depends on the
/// machine; where it cannot, the program ends, and nothing is said of that.
#[verifier::external_body]
pub(crate) fn argon2_verify(password: &str, text: &str) -> (r: Result<
    (),
    argon2::password_hash::Error,
>)
    requires
        phc_valid(text@),
        lanes_fit(phc_params_of(text@)->0),
    ensures
        r is Ok == phc_accepts(text@, password@),
{
    let hash = PasswordHash::new(text)?;
    Argon2::default().verify_password(password.as_bytes(), &hash)
}

} // verus!
