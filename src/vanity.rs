use vstd::prelude::*;
use vstd::string::*;
use vstd::utf8::*;

verus! {

/// What `str::to_lowercase` makes of a string: each character mapped to its
/// lowercase form by Unicode's rules.
pub uninterp spec fn lowercase_of(s: Seq<char>) -> Seq<char>;

/// Relies on `str::to_lowercase`: the result depends on the characters alone.
#[verifier::external_body]
fn lowercase(s: &str) -> (r: String)
    ensures
        r@ == lowercase_of(s@),
{
    s.to_lowercase()
}

/// The characters of the first `n` bytes of `key`.
pub open spec fn leading_chars(key: &str, n: int) -> Seq<char> {
    decode_utf8(key.spec_bytes().subrange(0, n))
}

/// Whether a key starts with `prefix`, ignoring case: the key's first
/// `prefix.len()` bytes, lowercased, are exactly `prefix`. The prefix is
/// expected in lowercase already.
pub fn matches_prefix(key: &str, prefix: &str) -> (r: bool)
    requires
        prefix.len() <= key.len(),
        is_char_boundary(key.spec_bytes(), prefix.len() as int),
    ensures
        r == (lowercase_of(leading_chars(key, prefix.len() as int)) == prefix@),
{
    proof {
        encode_utf8_valid_utf8(key@);
    }
    let (head, _) = key.split_at(prefix.len());
    proof {
        encode_utf8_decode_utf8(head@);
        assert(head@ == leading_chars(key, prefix.len() as int));
    }
    let lowered = lowercase(head);
    let wanted = prefix.to_owned();
    lowered == wanted
}

} // verus!
