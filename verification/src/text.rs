//! Text operations of the standard library that the protocol relies on.
use vstd::prelude::*;

verus! {

/// Whether a character is white space as Unicode defines it (`White_Space`
/// in the Unicode character database): the characters that `str::trim_end`
/// takes off the end of a text.
pub uninterp spec fn white_space(c: char) -> bool;

/// The text that `String::from_utf8_lossy` makes of `bytes`: the text they
/// encode in UTF-8, with U+FFFD in place of what is no valid encoding.
pub uninterp spec fn utf8_lossy(bytes: Seq<u8>) -> Seq<char>;

/// A text without the white space at its end.
pub open spec fn trimmed_end(s: Seq<char>) -> Seq<char>
    decreases s.len(),
{
    if s.len() > 0 && white_space(s.last()) {
        trimmed_end(s.drop_last())
    } else {
        s
    }
}

/// `str::trim_end`. The result is the start of `s`; all that was cut off is
/// white space; what is left does not end in white space, and so not in a
/// line feed, which the standard library counts as white space. Trusted:
/// this is the documented behaviour of the standard library.
#[verifier::external_body]
pub(crate) fn trim_end(s: &str) -> (r: &str)
    ensures
        r@.len() <= s@.len(),
        r@ == s@.take(r@.len() as int),
        forall|i: int| r@.len() <= i < s@.len() ==> white_space(s@[i]),
        r@.len() > 0 ==> !white_space(r@.last()) && r@.last() != '\n',
{
    s.trim_end()
}

/// `String::from_utf8_lossy`, as an owned `String`. Trusted: the result is
/// named, not described.
#[verifier::external_body]
pub(crate) fn from_utf8_lossy(bytes: &[u8]) -> (text: String)
    ensures
        text@ == utf8_lossy(bytes@),
{
    String::from_utf8_lossy(bytes).into_owned()
}

/// A start of `s` that does not end in white space, and after which `s` has
/// only white space, is `s` without the white space at its end.
pub proof fn lemma_trimmed_end_is(s: Seq<char>, n: int)
    requires
        0 <= n <= s.len(),
        forall|i: int| n <= i < s.len() ==> white_space(s[i]),
        n > 0 ==> !white_space(s[n - 1]),
    ensures
        trimmed_end(s) == s.take(n),
    decreases s.len() - n,
{
    if n == s.len() {
        assert(s.take(n) =~= s);
    } else {
        let t = s.drop_last();
        lemma_trimmed_end_is(t, n);
        assert(t.take(n) =~= s.take(n));
    }
}

} // verus!
