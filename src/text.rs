//! Turning reply bytes into text.
use vstd::prelude::*;
use vstd::utf8::{decode_utf8, valid_utf8};

verus! {

/// `s` without one leading `$` or `+`, which some server replies carry.
pub open spec fn strip_prefix_chars(s: Seq<char>) -> Seq<char> {
    if s.len() > 0 && (s[0] == '$' || s[0] == '+') {
        s.drop_first()
    } else {
        s
    }
}

/// Removes one leading `$` or `+` from a server reply.
pub fn strip_adb_prefix(response: String) -> (r: String)
    ensures
        r@ == strip_prefix_chars(response@),
{
    let n = response.as_str().unicode_len();
    if n > 0 {
        let c = response.as_str().get_char(0);
        if c == '$' || c == '+' {
            let rest = response.as_str().substring_char(1, n);
            let r = rest.to_owned();
            assert(r@ =~= response@.drop_first());
            return r;
        }
    }
    response
}

/// What `from_utf8_lossy` makes of a byte sequence.
pub uninterp spec fn lossy_of(b: Seq<u8>) -> Seq<char>;

/// Relies on `String::from_utf8`: it accepts exactly the valid UTF-8
/// sequences and decodes them.
#[verifier::external_body]
pub(crate) fn utf8_text(bytes: &[u8]) -> (r: Option<String>)
    ensures
        match r {
            Some(s) => valid_utf8(bytes@) && s@ == decode_utf8(bytes@),
            None => !valid_utf8(bytes@),
        },
{
    String::from_utf8(bytes.to_vec()).ok()
}

/// Relies on `String::from_utf8_lossy`: invalid sequences become U+FFFD, and
/// valid UTF-8 comes back unchanged.
#[verifier::external_body]
pub(crate) fn lossy_text(bytes: &[u8]) -> (r: String)
    ensures
        r@ == lossy_of(bytes@),
        valid_utf8(bytes@) ==> r@ == decode_utf8(bytes@),
{
    String::from_utf8_lossy(bytes).into_owned()
}

} // verus!
