//! Checks and clean-up of the text that names arrive in.

use crate::error::WiseError;
use vstd::prelude::*;
use vstd::string::StringSliceAdditionalSpecFns;
use vstd::utf8::{encode_utf8, is_char_boundary};

verus! {

/// The bytes of `.eth`.
pub open spec fn eth_suffix() -> Seq<u8> {
    seq![0x2eu8, 0x65u8, 0x74u8, 0x68u8]
}

/// The name ends in `.eth`.
pub open spec fn ends_with_eth(s: Seq<u8>) -> bool {
    s.len() >= 4 && s.subrange(s.len() - 4, s.len() as int) == eth_suffix()
}

/// The message given with a name that does not end in `.eth`.
pub open spec fn name_format_message() -> Seq<char> {
    "the name format must be ***.eth"@
}

/// Accepts a name that ends in `.eth`; refuses any other with
/// `InvalidArgvName`.
pub fn is_name(val: &str) -> (r: Result<(), WiseError>)
    ensures
        r is Ok <==> ends_with_eth(val.spec_bytes()),
        r matches Err(e) ==> e matches WiseError::InvalidArgvName(m) && m@ == name_format_message(),
{
    let s = val.as_bytes();
    let n = s.len();
    if n >= 4 && s[n - 4] == 0x2e && s[n - 3] == 0x65 && s[n - 2] == 0x74 && s[n - 1] == 0x68 {
        assert(s@.subrange(n - 4, n as int) =~= eth_suffix());
        Ok(())
    } else {
        assert(n >= 4 ==> s@.subrange(n - 4, n as int)[0] == s@[n - 4]);
        assert(n >= 4 ==> s@.subrange(n - 4, n as int)[1] == s@[n - 3]);
        assert(n >= 4 ==> s@.subrange(n - 4, n as int)[2] == s@[n - 2]);
        assert(n >= 4 ==> s@.subrange(n - 4, n as int)[3] == s@[n - 1]);
        Err(WiseError::InvalidArgvName(String::from_str("the name format must be ***.eth")))
    }
}

/// Drops the first and the last byte of `val` (the quotes around a
/// JSON string). Both cuts must fall between characters.
pub fn strip(val: &str) -> (r: String)
    requires
        val.spec_bytes().len() >= 2,
        is_char_boundary(val.spec_bytes(), 1),
        is_char_boundary(val.spec_bytes(), val.spec_bytes().len() - 1),
    ensures
        encode_utf8(r@) == val.spec_bytes().subrange(1, val.spec_bytes().len() - 1),
{
    let n = val.as_bytes().len();
    let (_, rest) = val.split_at(1);
    proof {
        vstd::utf8::encode_utf8_valid_utf8(val@);
        vstd::utf8::encode_utf8_valid_utf8(rest@);
        vstd::utf8::is_char_boundary_iff_not_is_continuation_byte(val.spec_bytes(), n - 1);
        vstd::utf8::is_char_boundary_iff_not_is_continuation_byte(rest.spec_bytes(), n - 2);
    }
    assert(rest.spec_bytes()[n - 2] == val.spec_bytes()[n - 1]);
    let (inner, _) = rest.split_at(n - 2);
    let r = inner.to_string();
    assert(inner.spec_bytes() =~= val.spec_bytes().subrange(1, n - 1));
    r
}

} // verus!
