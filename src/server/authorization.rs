//! Checking a request's `Authorization` header against the API secret.
use base64::Engine;
use vstd::prelude::*;
use crate::text::chars_of;

verus! {

/// The bytes that standard base64 decodes `s` to, if it is valid.
pub uninterp spec fn base64_decoded(s: Seq<char>) -> Option<Seq<u8>>;

/// Relies on `base64::engine::general_purpose::STANDARD.decode`: a decoding
/// of the text alone.
#[verifier::external_body]
fn decode_base64(s: &str) -> (r: Option<Vec<u8>>)
    ensures
        match r {
            Some(v) => base64_decoded(s@) == Some(v@),
            None => base64_decoded(s@) is None,
        },
{
    base64::engine::general_purpose::STANDARD.decode(s).ok()
}

/// The text that `bytes` hold, if they are valid UTF-8.
pub uninterp spec fn utf8_decoded(bytes: Seq<u8>) -> Option<Seq<char>>;

/// Relies on `std::str::from_utf8`: a decoding of the bytes alone.
#[verifier::external_body]
fn decode_utf8(bytes: &Vec<u8>) -> (r: Option<String>)
    ensures
        match r {
            Some(t) => utf8_decoded(bytes@) == Some(t@),
            None => utf8_decoded(bytes@) is None,
        },
{
    std::str::from_utf8(bytes.as_slice()).ok().map(|t| t.to_string())
}

/// The scheme prefix of Basic credentials.
pub const BASIC_PREFIX: &'static str = "Basic ";

/// Whether decoded credentials are the secret.
pub open spec fn credentials_match(decoded: Option<Seq<char>>, secret: Seq<char>) -> bool {
    decoded == Some(secret)
}

/// Whether a header value carries Basic credentials that decode to the
/// secret.
pub open spec fn authorized(header: Option<Seq<char>>, secret: Seq<char>) -> bool {
    match header {
        None => false,
        Some(h) => {
            &&& h.len() >= 6
            &&& h.take(6) == BASIC_PREFIX@
            &&& base64_decoded(h.skip(6)) is Some
            &&& credentials_match(utf8_decoded(base64_decoded(h.skip(6))->Some_0), secret)
        },
    }
}

/// Whether the decoded text of Basic credentials is the secret.
pub fn check_decoded_credentials(decoded: Option<&str>, secret: &str) -> (r: bool)
    ensures
        r == credentials_match(
            match decoded {
                Some(d) => Some(d@),
                None => None,
            },
            secret@,
        ),
{
    match decoded {
        None => false,
        Some(d) => crate::text::chars_eq_str(&chars_of(d), secret),
    }
}

/// Accepts a request whose `Authorization` header holds Basic credentials
/// that decode to the secret.
pub fn check_authorization(header: Option<&str>, secret: &str) -> (r: Result<(), ()>)
    ensures
        r is Ok == authorized(
            match header {
                Some(h) => Some(h@),
                None => None,
            },
            secret@,
        ),
{
    let h = match header {
        Some(h) => h,
        None => return Err(()),
    };
    let chars = chars_of(h);
    proof {
        reveal_strlit("Basic ");
    }
    if chars.len() < 6 {
        return Err(());
    }
    let mut prefix: Vec<char> = Vec::new();
    let mut rest: Vec<char> = Vec::new();
    let mut i: usize = 0;
    while i < chars.len()
        invariant
            i <= chars@.len(),
            chars@.len() >= 6,
            prefix@ == chars@.take(if i < 6 { i as int } else { 6 }),
            rest@ == if i <= 6 { Seq::<char>::empty() } else { chars@.subrange(6, i as int) },
        decreases chars@.len() - i,
    {
        if i < 6 {
            prefix.push(chars[i]);
            assert(prefix@ =~= chars@.take(i + 1));
        } else {
            rest.push(chars[i]);
            assert(rest@ =~= chars@.subrange(6, i + 1));
        }
        i = i + 1;
    }
    assert(rest@ =~= chars@.skip(6));
    if !crate::text::chars_eq_str(&prefix, BASIC_PREFIX) {
        return Err(());
    }
    let encoded = crate::text::string_from_chars(&rest);
    let bytes = match decode_base64(encoded.as_str()) {
        Some(b) => b,
        None => return Err(()),
    };
    let text = decode_utf8(&bytes);
    let ok = match &text {
        Some(t) => check_decoded_credentials(Some(t.as_str()), secret),
        None => check_decoded_credentials(None, secret),
    };
    if ok {
        Ok(())
    } else {
        Err(())
    }
}

} // verus!
