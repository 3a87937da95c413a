use vstd::prelude::*;
use vstd::std_specs::iter::IteratorSpec;

verus! {

broadcast use vstd::string::group_string_axioms;

/// The text that `bytes` encode, if they are valid UTF-8: `std::str::from_utf8`,
/// whose documentation says it returns the string slice when the bytes are
/// valid UTF-8 and an error otherwise. The contract states that the result
/// is present exactly for valid UTF-8, and that its characters are the ones
/// the bytes decode to.
#[verifier::external_body]
pub fn str_from_utf8<'a>(bytes: &'a [u8]) -> (r: Option<&'a str>)
    ensures
        r is Some <==> vstd::utf8::valid_utf8(bytes@),
        r matches Some(s) ==> s@ == vstd::utf8::decode_utf8(bytes@),
{
    std::str::from_utf8(bytes).ok()
}

/// The characters of `text`.
pub fn chars_of(text: &str) -> (r: Vec<char>)
    ensures
        r@ == text@,
{
    let mut chars = text.chars();
    let mut r: Vec<char> = Vec::new();
    loop
        invariant
            r@ + chars.remaining() == text@,
            chars.obeys_prophetic_iter_laws(),
            chars.decrease() is Some,
        ensures
            r@ == text@,
        decreases chars.decrease()->0,
    {
        let ghost before = chars.remaining();
        match chars.next() {
            Some(c) => {
                r.push(c);
                assert(r@ + chars.remaining() =~= text@);
            },
            None => {
                assert(r@ =~= text@);
                break ;
            },
        }
    }
    r
}

/// Appends one character: `String::push`, whose documentation says it
/// appends the given char to the end of the string.
#[verifier::external_body]
pub fn string_push(s: &mut String, c: char)
    ensures
        final(s)@ == old(s)@.push(c),
{
    s.push(c)
}

} // verus!
