//! The whole decoding pipeline for one QR payload: UTF-8 reading, numeric
//! digit-pair reversal, JWT payload extraction, base64url decoding, raw
//! deflate inflation, and the JSON decode into the typed record.

use vstd::prelude::*;
use crate::error::DecodeError;
use crate::model::Body;
use crate::model::BodyV;
use crate::model::body_from_text;
use crate::model::body_view;
use crate::model::decode_body_text;
use crate::numeric::all_digits;
use crate::numeric::decode_digit_pairs;
use crate::numeric::decode_pairs;
use crate::split::has_char_from;
use crate::split::segment_after;
use crate::split::segment_after_first;
use crate::util::utf8_to_str;

verus! {

/// What `base64::decode_config` with the URL-safe, unpadded alphabet returns
/// for the given input bytes, when they are valid base64 in that alphabet.
pub uninterp spec fn b64url_decoded(b: Seq<u8>) -> Option<Seq<u8>>;

/// What `inflate::inflate_bytes` returns for the given bytes, when they are
/// a valid raw deflate stream.
pub uninterp spec fn inflated(b: Seq<u8>) -> Option<Seq<u8>>;

/// Relies on `base64::decode_config` with `base64::URL_SAFE_NO_PAD`: decodes
/// the URL-safe, unpadded base64 reading of the bytes; the result depends on
/// the input alone.
#[verifier::external_body]
fn b64url_decode(b: &[u8]) -> (r: Option<Vec<u8>>)
    requires
        b@.len() + 3 <= usize::MAX,
    ensures
        r is Some <==> b64url_decoded(b@) is Some,
        r is Some ==> r->0@ == b64url_decoded(b@)->0,
{
    base64::decode_config(b, base64::URL_SAFE_NO_PAD).ok()
}

/// Relies on `inflate::inflate_bytes`: inflates a raw deflate stream, with
/// no zlib or gzip container; the result depends on the input alone.
#[verifier::external_body]
fn inflate_raw(b: &[u8]) -> (r: Option<Vec<u8>>)
    ensures
        r is Some <==> inflated(b@) is Some,
        r is Some ==> r->0@ == inflated(b@)->0,
{
    inflate::inflate_bytes(b).ok()
}

/// The record one QR payload decodes to, or the first error of the pipeline:
/// the payload must be UTF-8 text of the form `<prefix>/<digit-pairs>`, the
/// digit pairs must decode to a dotted JWT whose payload segment is URL-safe
/// unpadded base64 over a raw deflate stream of UTF-8 JSON text, and that
/// text must decode to a well-formed record.
pub open spec fn decode_payload_spec(qr: Seq<u8>) -> Result<BodyV, DecodeError> {
    if !vstd::utf8::valid_utf8(qr) {
        Err(DecodeError::Utf8DecodeError)
    } else {
        let tok = vstd::utf8::decode_utf8(qr);
        if !has_char_from(tok, '/', 0) {
            Err(DecodeError::MalformedToken)
        } else {
            let digits = segment_after_first(tok, '/');
            if digits.len() % 2 != 0 {
                Err(DecodeError::MalformedToken)
            } else if !all_digits(digits) {
                Err(DecodeError::InvalidDigitPair)
            } else {
                let jwt = decode_pairs(digits);
                if !has_char_from(jwt, '.', 0) {
                    Err(DecodeError::MalformedJWT)
                } else {
                    let payload = segment_after_first(jwt, '.');
                    let pb = vstd::utf8::encode_utf8(payload);
                    if pb.len() + 3 > usize::MAX {
                        Err(DecodeError::Base64DecodeError)
                    } else {
                        match b64url_decoded(pb) {
                            None => Err(DecodeError::Base64DecodeError),
                            Some(raw) => match inflated(raw) {
                                None => Err(DecodeError::InflateError),
                                Some(inf) => {
                                    if !vstd::utf8::valid_utf8(inf) {
                                        Err(DecodeError::Utf8DecodeError)
                                    } else {
                                        body_from_text(vstd::utf8::decode_utf8(inf))
                                    }
                                },
                            },
                        }
                    }
                }
            }
        }
    }
}

/// Decodes one raw QR payload into the typed record, or the first error of
/// the pipeline.
pub fn decode_payload(qr: &[u8]) -> (r: Result<Body, DecodeError>)
    ensures
        r is Ok <==> decode_payload_spec(qr@) is Ok,
        r is Ok ==> body_view(r->Ok_0) == decode_payload_spec(qr@)->Ok_0,
        r is Err ==> decode_payload_spec(qr@) == Err::<BodyV, DecodeError>(r->Err_0),
{
    let token = match utf8_to_str(qr) {
        Some(s) => s,
        None => {
            return Err(DecodeError::Utf8DecodeError);
        },
    };
    let digits = match segment_after(token, '/') {
        Some(d) => d,
        None => {
            return Err(DecodeError::MalformedToken);
        },
    };
    let jwt = match decode_digit_pairs(digits) {
        Ok(s) => s,
        Err(e) => {
            return Err(e);
        },
    };
    let payload = match segment_after(jwt.as_str(), '.') {
        Some(p) => p,
        None => {
            return Err(DecodeError::MalformedJWT);
        },
    };
    let pb = payload.as_bytes();
    if pb.len() > usize::MAX - 3 {
        return Err(DecodeError::Base64DecodeError);
    }
    let raw = match b64url_decode(pb) {
        Some(v) => v,
        None => {
            return Err(DecodeError::Base64DecodeError);
        },
    };
    let inf = match inflate_raw(raw.as_slice()) {
        Some(v) => v,
        None => {
            return Err(DecodeError::InflateError);
        },
    };
    let text = match utf8_to_str(inf.as_slice()) {
        Some(s) => s,
        None => {
            return Err(DecodeError::Utf8DecodeError);
        },
    };
    decode_body_text(text)
}

} // verus!
