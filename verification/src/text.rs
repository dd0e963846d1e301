//! Character-level helpers shared by the formatting code.

use vstd::prelude::*;
use vstd::string::StringExecFns;

verus! {

/// Appends one character to `s`, through `String::push`.
#[verifier::external_body]
pub fn push_char(s: &mut String, c: char)
    ensures
        final(s)@ == old(s)@.push(c),
{
    s.push(c)
}

/// The characters of `s`, in order.
pub fn chars_of(s: &str) -> (v: Vec<char>)
    ensures
        v@ == s@,
{
    let mut v: Vec<char> = Vec::new();
    for c in it: s.chars()
        invariant
            v@ == it.seq().take(it.index() as int),
            it.seq() == s@,
    {
        v.push(c);
    }
    v
}

/// Appends `t` to `s`.
pub fn push_str(s: &mut String, t: &str)
    ensures
        final(s)@ == old(s)@ + t@,
{
    s.append(t);
}

/// Whether two texts hold the same characters.
pub fn str_eq(a: &str, b: &str) -> (r: bool)
    ensures
        r == (a@ == b@),
{
    let x = chars_of(a);
    let y = chars_of(b);
    if x.len() != y.len() {
        return false;
    }
    let mut i: usize = 0;
    while i < x.len()
        invariant
            x@.len() == y@.len(),
            x@ == a@,
            y@ == b@,
            i <= x@.len(),
            forall|j: int| 0 <= j < i ==> x@[j] == y@[j],
        decreases x@.len() - i,
    {
        if x[i] != y[i] {
            assert(a@[i as int] != b@[i as int]);
            return false;
        }
        i = i + 1;
    }
    assert(x@ =~= y@);
    true
}

/// The part of `s` after its last `c`, or all of `s` if it holds no `c`.
pub open spec fn after_last(s: Seq<char>, c: char) -> Seq<char>
    decreases s.len(),
{
    if s.len() == 0 {
        s
    } else if s.last() == c {
        Seq::empty()
    } else {
        after_last(s.drop_last(), c).push(s.last())
    }
}

/// The part of `s` after its last `c`, or all of `s` if it holds no `c`.
pub fn after_last_str(s: &str, c: char) -> (r: &str)
    ensures
        r@ == after_last(s@, c),
{
    let cs = chars_of(s);
    let n = cs.len();
    let mut start: usize = 0;
    let mut i: usize = 0;
    while i < n
        invariant
            start <= i <= n,
            n == cs@.len(),
            after_last(cs@.take(i as int), c) == cs@.subrange(start as int, i as int),
        decreases n - i,
    {
        assert(cs@.take(i + 1).drop_last() =~= cs@.take(i as int));
        if cs[i] == c {
            start = i + 1;
            assert(cs@.subrange(start as int, i + 1) =~= Seq::<char>::empty());
        } else {
            assert(cs@.subrange(start as int, i + 1) =~= cs@.subrange(start as int, i as int).push(
                cs@[i as int],
            ));
        }
        i = i + 1;
    }
    assert(cs@.take(n as int) =~= cs@);
    s.substring_char(start, n)
}

/// What `{:?}` writes for a text, through `str`'s `Debug`.
pub uninterp spec fn debug_text_of(s: Seq<char>) -> Seq<char>;

/// Whether a character is printable ASCII other than '"' and '\\': `Debug`
/// writes such characters as they are.
pub open spec fn plain_debug_char(c: char) -> bool {
    ' ' <= c && c <= '~' && c != '"' && c != '\\'
}

/// `format!("{:?}", s)` for a text: the text in double quotes, with its
/// characters escaped. Claimed of it: the result is a function of the text
/// alone (`debug_text_of`), and a text of printable ASCII characters other
/// than '"' and '\\' is written unchanged between two double quotes, as the
/// documentation of `str`'s `Debug` and of `char::escape_debug` says. How the
/// other characters are escaped is left unsaid.
#[verifier::external_body]
pub(crate) fn debug_text(s: &str) -> (r: String)
    ensures
        r@ == debug_text_of(s@),
        is_plain_debug_text(s@) ==> r@ == seq!['"'] + s@ + seq!['"'],
{
    format!("{:?}", s)
}

/// Whether every character of a text is written unchanged by `Debug`.
pub open spec fn is_plain_debug_text(s: Seq<char>) -> bool {
    forall|i: int| 0 <= i < s.len() ==> plain_debug_char(#[trigger] s[i])
}

/// What `{:?}` writes for a text: for a plain text, the text between double
/// quotes.
pub open spec fn shown_debug_text(s: Seq<char>) -> Seq<char> {
    if is_plain_debug_text(s) {
        seq!['"'] + s + seq!['"']
    } else {
        debug_text_of(s)
    }
}

} // verus!
