//! Unique identifiers.

use vstd::prelude::*;

verus! {

/// The text of a UUID with the given 128 bits, in the hyphenated lower-case
/// form that `uuid::Uuid` displays.
pub uninterp spec fn hyphenated(bits: u128) -> Seq<char>;

/// `uuid::Uuid::new_v4`, as its 128 bits: a random UUID, of which nothing is
/// known in advance.
#[verifier::external_body]
pub(crate) fn fresh_uuid() -> u128 {
    uuid::Uuid::new_v4().as_u128()
}

/// The `Display` of `uuid::Uuid`: the text of the UUID with the given bits.
#[verifier::external_body]
pub(crate) fn uuid_text(bits: u128) -> (r: String)
    ensures
        r@ == hyphenated(bits),
{
    uuid::Uuid::from_u128(bits).to_string()
}

/// A name made unique by a suffix: `name`, a hyphen, and the first six
/// characters of the text of a UUID (or all of it, where it is shorter).
pub open spec fn suffixed(name: Seq<char>, uuid: Seq<char>) -> Seq<char> {
    name + "-"@ + (if uuid.len() >= 6 {
        uuid.subrange(0, 6)
    } else {
        uuid
    })
}

/// `name` with a suffix taken from the given UUID.
pub fn name_with_uuid(name: &str, bits: u128) -> (r: String)
    ensures
        r@ == suffixed(name@, hyphenated(bits)),
{
    let text = uuid_text(bits);
    let chars = crate::text::chars_of(text.as_str());
    let n: usize = if chars.len() >= 6 {
        6
    } else {
        chars.len()
    };
    let part = crate::text::string_of_range(&chars, 0, n);
    assert(chars@.subrange(0, chars.len() as int) =~= chars@);
    let mut r = name.to_owned();
    r.append("-");
    r.append(part.as_str());
    r
}

/// `name` with a random suffix, to keep names of concurrent runs apart.
pub fn random_name(name: &str) -> (r: String)
    ensures
        exists|bits: u128| r@ == suffixed(name@, hyphenated(bits)),
{
    let bits = fresh_uuid();
    name_with_uuid(name, bits)
}

} // verus!
