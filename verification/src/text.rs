//! What the library needs of strings and characters.

use vstd::prelude::*;

verus! {

/// The upper case of a character as `char::to_uppercase` gives it: one character or
/// more.
pub uninterp spec fn uppercase(c: char) -> Seq<char>;

/// Appends `c` to `s`, with `String::push`. Taken on trust: the string is then what it
/// was, with `c` at its end.
#[verifier::external_body]
pub(crate) fn push_char(s: &mut String, c: char)
    ensures
        final(s)@ == old(s)@.push(c),
{
    s.push(c)
}

/// The characters of `s`, in order.
pub fn chars_of(s: &str) -> (r: Vec<char>)
    ensures
        r@ == s@,
{
    let mut r: Vec<char> = Vec::new();
    for c in it: s.chars()
        invariant
            it.seq() == s@,
            r@ == s@.take(it.index() as int),
    {
        r.push(c);
        assert(r@ =~= s@.take(it.index() + 1));
    }
    assert(s@.take(s@.len() as int) =~= s@);
    r
}

/// The upper case of `c`, with `char::to_uppercase`, collected into a string. Taken on
/// trust: the string holds what `char::to_uppercase` gives.
#[verifier::external_body]
pub(crate) fn uppercase_of(c: char) -> (r: String)
    ensures
        r@ == uppercase(c),
{
    c.to_uppercase().collect()
}

} // verus!
