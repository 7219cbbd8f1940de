//! Credential handling: picking the secret for a run and building the
//! authorization header. The base64 step of basic authentication is done by
//! the `base64` crate and spoken of through a named result.

use vstd::prelude::*;
use vstd::string::StrSliceExecFns;
use crate::errors::SyncError;

verus! {

/// What the standard-alphabet, padded base64 encoding of a text's UTF-8
/// bytes is. The result is a function of the text alone.
pub uninterp spec fn base64_of(s: Seq<char>) -> Seq<char>;

/// Relies on the `base64` crate's standard-alphabet padded engine: encoding
/// the UTF-8 bytes of a text is a function of the text alone.
#[verifier::external_body]
fn b64_encode(s: &str) -> (r: String)
    ensures
        r@ == base64_of(s@),
{
    base64::Engine::encode(&base64::engine::general_purpose::STANDARD, s.as_bytes())
}

/// The basic-authentication header for a principal and a secret.
pub fn basic_auth(user: &str, pass: &str) -> (r: String)
    ensures
        r@ == "Basic "@ + base64_of(user@ + ":"@ + pass@),
{
    let mut creds = user.to_owned();
    creds.append(":");
    creds.append(pass);
    let encoded = b64_encode(creds.as_str());
    let mut r = String::from_str("Basic ");
    r.append(encoded.as_str());
    r
}

/// The bearer header for an access token.
pub fn bearer_header(token: &str) -> (r: String)
    ensures
        r@ == "Bearer "@ + token@,
{
    let mut r = String::from_str("Bearer ");
    r.append(token);
    r
}

/// An optional string by its text.
pub open spec fn opt_view(o: Option<String>) -> Option<Seq<char>> {
    match o {
        Some(s) => Some(s@),
        None => None,
    }
}

/// The secret a run uses: the environment variable's value when it is set
/// and non-empty; otherwise the prompted value when a prompt was answered;
/// otherwise nothing.
pub open spec fn secret_model(env_val: Option<Seq<char>>, prompted: Option<Seq<char>>) -> Option<
    Seq<char>,
> {
    if env_val matches Some(v) && v.len() > 0 {
        env_val
    } else if prompted is Some {
        prompted
    } else {
        None
    }
}

/// Whether a run still needs to prompt for the secret: only when the
/// environment yielded nothing usable and interactive input is permitted.
pub fn needs_prompt(env_val: &Option<String>, no_input: bool) -> (r: bool)
    ensures
        r == (!no_input && !(opt_view(*env_val) matches Some(v) && v.len() > 0)),
{
    if no_input {
        return false;
    }
    match env_val {
        Some(v) => v.as_str().unicode_len() == 0,
        None => true,
    }
}

/// Picks the secret for a run from the environment variable's value and the
/// prompt's answer, in that order; fails with `MissingCredential` when
/// neither yields one.
pub fn pick_secret(env_val: Option<String>, prompted: Option<String>) -> (r: Result<
    String,
    SyncError,
>)
    ensures
        r is Ok <==> secret_model(opt_view(env_val), opt_view(prompted)) is Some,
        (r matches Ok(s) ==> secret_model(opt_view(env_val), opt_view(prompted)) == Some(s@)),
        (r matches Err(e) ==> e is MissingCredential),
{
    match env_val {
        Some(v) => {
            if v.as_str().unicode_len() > 0 {
                return Ok(v);
            }
            match prompted {
                Some(p) => Ok(p),
                None => Err(SyncError::MissingCredential),
            }
        },
        None => {
            match prompted {
                Some(p) => Ok(p),
                None => Err(SyncError::MissingCredential),
            }
        },
    }
}

} // verus!
