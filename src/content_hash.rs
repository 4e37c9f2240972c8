//! Decoding of a registry content hash: `0x`, then hex digits whose first
//! byte is a multicodec tag that picks the scheme, then a scheme header and
//! the payload. Hashes (IPFS, IPNS) come out in base58, text payloads
//! (Swarm, anything else) as UTF-8 text.

use crate::error::WiseError;
use vstd::prelude::*;
use vstd::string::StringSliceAdditionalSpecFns;
use vstd::utf8::{decode_utf8, valid_utf8};

verus! {

/// Declares hex::FromHexError, the error of hex::decode, so that it can be
/// carried through `hex_decode`'s result; nothing is read from it.
#[verifier::external_type_specification]
#[verifier::external_body]
pub struct ExFromHexError(hex::FromHexError);

pub open spec fn is_hex_digit(c: u8) -> bool {
    ('0' as u8 <= c && c <= '9' as u8) || ('a' as u8 <= c && c <= 'f' as u8) || ('A' as u8 <= c
        && c <= 'F' as u8)
}

pub open spec fn hex_digit_value(c: u8) -> int {
    if '0' as u8 <= c && c <= '9' as u8 {
        c - '0' as u8
    } else if 'a' as u8 <= c && c <= 'f' as u8 {
        c - 'a' as u8 + 10
    } else {
        c - 'A' as u8 + 10
    }
}

/// An even number of hex digits, in either case.
pub open spec fn is_hex(digits: Seq<u8>) -> bool {
    &&& digits.len() % 2 == 0
    &&& forall|i: int| 0 <= i < digits.len() ==> is_hex_digit(#[trigger] digits[i])
}

/// The bytes that pairs of hex digits spell, high digit first.
pub open spec fn hex_bytes(digits: Seq<u8>) -> Seq<u8> {
    Seq::new(
        digits.len() / 2,
        |k: int| (hex_digit_value(digits[2 * k]) * 16 + hex_digit_value(digits[2 * k + 1])) as u8,
    )
}

/// Relies on hex::decode: it refuses an odd number of digits or a character
/// that is not a hex digit (either case), and otherwise returns the byte of
/// each pair of digits, high digit first.
#[verifier::external_body]
fn hex_decode(digits: &[u8]) -> (r: Result<Vec<u8>, hex::FromHexError>)
    ensures
        r is Ok <==> is_hex(digits@),
        r matches Ok(v) ==> v@ == hex_bytes(digits@),
{
    hex::decode(digits)
}

/// The base58 text (Bitcoin alphabet) of a byte string.
pub uninterp spec fn base58_of(data: Seq<u8>) -> Seq<char>;

/// Relies on bs58::encode(..).into_string(): the base58 text of `data`,
/// which depends on `data` alone.
#[verifier::external_body]
fn base58_encode(data: &[u8]) -> (r: String)
    ensures
        r@ == base58_of(data@),
{
    bs58::encode(data).into_string()
}

/// Relies on String::from_utf8: it succeeds exactly on valid UTF-8, with the
/// text that the bytes encode.
#[verifier::external_body]
fn utf8_text(bytes: Vec<u8>) -> (r: Option<String>)
    ensures
        r is Some <==> valid_utf8(bytes@),
        r matches Some(s) ==> s@ == decode_utf8(bytes@),
{
    String::from_utf8(bytes).ok()
}

/// The content-addressing scheme that a multicodec tag byte selects.
#[derive(Clone, Copy, Debug, PartialEq, Eq, Structural)]
pub enum ContentScheme {
    IpfsNs,
    SwarmNs,
    IpnsNs,
    /// Any other tag: legacy text content.
    Utf8,
}

pub const IPFS_TAG: u8 = 0xe3;

pub const SWARM_TAG: u8 = 0xe4;

pub const IPNS_TAG: u8 = 0xe5;

impl ContentScheme {
    pub open spec fn spec_from_tag(tag: u8) -> ContentScheme {
        if tag == IPFS_TAG {
            ContentScheme::IpfsNs
        } else if tag == SWARM_TAG {
            ContentScheme::SwarmNs
        } else if tag == IPNS_TAG {
            ContentScheme::IpnsNs
        } else {
            ContentScheme::Utf8
        }
    }

    /// The scheme of a tag byte.
    pub fn from_tag(tag: u8) -> (r: ContentScheme)
        ensures
            r == Self::spec_from_tag(tag),
    {
        if tag == IPFS_TAG {
            ContentScheme::IpfsNs
        } else if tag == SWARM_TAG {
            ContentScheme::SwarmNs
        } else if tag == IPNS_TAG {
            ContentScheme::IpnsNs
        } else {
            ContentScheme::Utf8
        }
    }

    /// The scheme's name as the registry's clients print it.
    pub open spec fn spec_name(self) -> Seq<char> {
        match self {
            ContentScheme::IpfsNs => "ipfs-ns"@,
            ContentScheme::SwarmNs => "swarm-ns"@,
            ContentScheme::IpnsNs => "ipns-ns"@,
            ContentScheme::Utf8 => "utf-8"@,
        }
    }

    pub fn name(&self) -> (r: String)
        ensures
            r@ == self.spec_name(),
    {
        match self {
            ContentScheme::IpfsNs => String::from_str("ipfs-ns"),
            ContentScheme::SwarmNs => String::from_str("swarm-ns"),
            ContentScheme::IpnsNs => String::from_str("ipns-ns"),
            ContentScheme::Utf8 => String::from_str("utf-8"),
        }
    }

    /// Hex digits of header before the payload, the tag included: the tag,
    /// the content type and the hash function for IPFS; the tag alone for
    /// text; a fixed nine digits for IPNS.
    pub open spec fn spec_header_digits(self) -> nat {
        match self {
            ContentScheme::IpfsNs => 8,
            ContentScheme::IpnsNs => 9,
            _ => 2,
        }
    }

    /// Hex digits after the payload: one for IPNS, none otherwise.
    pub open spec fn spec_trailer_digits(self) -> nat {
        match self {
            ContentScheme::IpnsNs => 1,
            _ => 0,
        }
    }

    /// Whether the payload is a hash, shown in base58, rather than text.
    pub open spec fn spec_is_hash(self) -> bool {
        self is IpfsNs || self is IpnsNs
    }

    pub fn header_digits(&self) -> (r: usize)
        ensures
            r == self.spec_header_digits(),
    {
        match self {
            ContentScheme::IpfsNs => 8,
            ContentScheme::IpnsNs => 9,
            _ => 2,
        }
    }

    pub fn trailer_digits(&self) -> (r: usize)
        ensures
            r == self.spec_trailer_digits(),
    {
        match self {
            ContentScheme::IpnsNs => 1,
            _ => 0,
        }
    }
}

/// The two bytes of the `0x` prefix.
pub const ZERO_DIGIT: u8 = 0x30;

pub const LOWER_X: u8 = 0x78;

/// The input starts with `0x`.
pub open spec fn has_hex_prefix(s: Seq<u8>) -> bool {
    s.len() >= 2 && s[0] == ZERO_DIGIT && s[1] == LOWER_X
}

/// The scheme and payload of a content hash given as its UTF-8 bytes.
/// Checked in this order: the `0x` prefix, at least one tag byte, the hex
/// digits throughout, then the scheme's header and trailer length.
pub open spec fn split_of(s: Seq<u8>) -> Result<(ContentScheme, Seq<u8>), WiseError> {
    if !has_hex_prefix(s) {
        Err(WiseError::InvalidHexEncoding)
    } else {
        let digits = s.subrange(2, s.len() as int);
        if digits.len() < 2 {
            Err(WiseError::TruncatedInput)
        } else if !is_hex(digits) {
            Err(WiseError::InvalidHexEncoding)
        } else {
            let scheme = ContentScheme::spec_from_tag(hex_bytes(digits)[0]);
            let head = scheme.spec_header_digits();
            let tail = scheme.spec_trailer_digits();
            if digits.len() < head + tail {
                Err(WiseError::TruncatedInput)
            } else {
                Ok((scheme, hex_bytes(digits.subrange(head as int, digits.len() - tail))))
            }
        }
    }
}

/// The printable identifier and scheme name of a content hash given as its
/// UTF-8 bytes.
pub open spec fn content_hash_of(s: Seq<u8>) -> Result<(Seq<char>, Seq<char>), WiseError> {
    match split_of(s) {
        Err(e) => Err(e),
        Ok((scheme, payload)) => {
            if scheme.spec_is_hash() {
                Ok((base58_of(payload), scheme.spec_name()))
            } else if valid_utf8(payload) {
                Ok((decode_utf8(payload), scheme.spec_name()))
            } else {
                Err(WiseError::InvalidUtf8Payload)
            }
        },
    }
}

pub open spec fn split_view(r: Result<(ContentScheme, Vec<u8>), WiseError>) -> Result<
    (ContentScheme, Seq<u8>),
    WiseError,
> {
    match r {
        Ok((scheme, payload)) => Ok((scheme, payload@)),
        Err(e) => Err(e),
    }
}

pub open spec fn decoded_view(r: Result<(String, String), WiseError>) -> Result<
    (Seq<char>, Seq<char>),
    WiseError,
> {
    match r {
        Ok((id, scheme)) => Ok((id@, scheme@)),
        Err(e) => Err(e),
    }
}

/// Splits a content hash into its scheme and payload bytes.
pub fn split_content_hash(val: &str) -> (r: Result<(ContentScheme, Vec<u8>), WiseError>)
    ensures
        split_view(r) == split_of(val.spec_bytes()),
{
    let s = val.as_bytes();
    if s.len() < 2 || s[0] != ZERO_DIGIT || s[1] != LOWER_X {
        return Err(WiseError::InvalidHexEncoding);
    }
    let digits = &s[2..s.len()];
    if digits.len() < 2 {
        return Err(WiseError::TruncatedInput);
    }
    let all = match hex_decode(digits) {
        Ok(v) => v,
        Err(_) => {
            return Err(WiseError::InvalidHexEncoding);
        },
    };
    let scheme = ContentScheme::from_tag(all[0]);
    let head = scheme.header_digits();
    let tail = scheme.trailer_digits();
    if digits.len() < head + tail {
        return Err(WiseError::TruncatedInput);
    }
    let body = &digits[head..digits.len() - tail];
    assert forall|i: int| 0 <= i < body@.len() implies is_hex_digit(#[trigger] body@[i]) by {
        assert(body@[i] == digits@[i + head]);
    }
    let payload = match hex_decode(body) {
        Ok(v) => v,
        Err(_) => {
            return Err(WiseError::InvalidHexEncoding);
        },
    };
    Ok((scheme, payload))
}

/// Decodes a content hash into its printable identifier (base58 for IPFS
/// and IPNS hashes, the payload's text otherwise) and its scheme's name.
pub fn decode_content_hash(val: &str) -> (r: Result<(String, String), WiseError>)
    ensures
        decoded_view(r) == content_hash_of(val.spec_bytes()),
{
    let (scheme, payload) = match split_content_hash(val) {
        Ok(parts) => parts,
        Err(e) => {
            return Err(e);
        },
    };
    let id = match scheme {
        ContentScheme::IpfsNs | ContentScheme::IpnsNs => base58_encode(payload.as_slice()),
        _ => match utf8_text(payload) {
            Some(text) => text,
            None => {
                return Err(WiseError::InvalidUtf8Payload);
            },
        },
    };
    Ok((id, scheme.name()))
}

/// Fewer than two hex digits after `0x` is always a truncated input.
pub proof fn lemma_short_input_truncated(val: &str)
    requires
        has_hex_prefix(val.spec_bytes()),
        val.spec_bytes().len() < 4,
    ensures
        content_hash_of(val.spec_bytes()) == Err::<(Seq<char>, Seq<char>), WiseError>(
            WiseError::TruncatedInput,
        ),
{
}

/// An odd number of hex digits after `0x` (at least two, so that the tag
/// byte is there) is always an invalid hex encoding.
pub proof fn lemma_odd_digits_invalid(val: &str)
    requires
        has_hex_prefix(val.spec_bytes()),
        val.spec_bytes().len() >= 4,
        (val.spec_bytes().len() - 2) % 2 == 1,
    ensures
        content_hash_of(val.spec_bytes()) == Err::<(Seq<char>, Seq<char>), WiseError>(
            WiseError::InvalidHexEncoding,
        ),
{
}

} // verus!
