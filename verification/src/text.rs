//! Character and string operations of std that the lookup relies on and
//! that Verus has no specification for.
use vstd::prelude::*;

verus! {

/// The lowercase form of a string, by the Unicode `Lowercase` mapping.
pub uninterp spec fn lowercase(s: Seq<char>) -> Seq<char>;

/// Whether a character has the Unicode `Alphabetic` property.
pub uninterp spec fn alphabetic(c: char) -> bool;

/// Calls `str::to_lowercase`. Trusted: its result is taken to be `lowercase`
/// of the argument, a function of the argument alone; what that function is on
/// given text (the Unicode case tables) is left unsaid.
#[verifier::external_body]
pub(crate) fn to_lowercase(s: &str) -> (r: String)
    ensures
        r@ == lowercase(s@),
{
    s.to_lowercase()
}

/// Calls `char::is_alphabetic`. Trusted: its result is taken to be `alphabetic`
/// of the character, a function of the character alone; which characters have
/// the Unicode property is left unsaid.
#[verifier::external_body]
pub(crate) fn is_alphabetic(c: char) -> (b: bool)
    ensures
        b == alphabetic(c),
{
    c.is_alphabetic()
}

/// Calls `String::push`. Trusted: the character is appended to the end of the
/// string, as std documents.
#[verifier::external_body]
pub(crate) fn push_char(s: &mut String, c: char)
    ensures
        final(s)@ == old(s)@.push(c),
{
    s.push(c)
}

/// The alphabetic characters of `s`, in order.
pub open spec fn alphabetic_only(s: Seq<char>) -> Seq<char>
    decreases s.len(),
{
    if s.len() == 0 {
        s
    } else if alphabetic(s.last()) {
        alphabetic_only(s.drop_last()).push(s.last())
    } else {
        alphabetic_only(s.drop_last())
    }
}

/// The alphabetic characters of `s`, in order.
pub fn keep_alphabetic(s: &str) -> (r: String)
    ensures
        r@ == alphabetic_only(s@),
{
    let n = s.unicode_len();
    let mut r = String::new();
    let mut i: usize = 0;
    while i < n
        invariant
            n == s@.len(),
            i <= n,
            r@ == alphabetic_only(s@.take(i as int)),
        decreases n - i,
    {
        let c = s.get_char(i);
        proof {
            assert(s@.take(i + 1).drop_last() =~= s@.take(i as int));
        }
        if is_alphabetic(c) {
            push_char(&mut r, c);
        }
        i = i + 1;
    }
    assert(s@.take(n as int) =~= s@);
    r
}

/// Whether two strings hold the same characters.
pub fn same_text(a: &str, b: &str) -> (r: bool)
    ensures
        r == (a@ == b@),
{
    let x = a.to_owned();
    let y = b.to_owned();
    x == y
}

} // verus!
