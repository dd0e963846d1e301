//! Identifiers of the trading model: the trader ID.

use vstd::prelude::*;

use crate::text::{after_last, after_last_str, chars_of, debug_text, push_str, shown_debug_text};

verus! {

/// An ASCII whitespace character (tab, line feed, vertical tab, form feed,
/// carriage return, space); an ASCII text holds no other whitespace.
pub open spec fn is_ascii_whitespace_char(c: char) -> bool {
    c == ' ' || ('\t' <= c && c <= '\r')
}

/// Whether every character of `s` is ASCII.
pub open spec fn all_ascii(s: Seq<char>) -> bool {
    forall|i: int| 0 <= i < s.len() ==> (#[trigger] s[i] as u32) < 128
}

/// Why a text is not a valid trader ID.
#[derive(Clone, Copy, Debug, PartialEq, Eq, Structural)]
pub enum IdentifierError {
    /// The text is empty.
    Empty,
    /// The text holds a character that is not ASCII.
    NonAscii,
    /// The text holds only whitespace.
    AllWhitespace,
    /// The text holds no hyphen '-'.
    MissingHyphen,
}

/// What checking a candidate trader ID answers: the first problem found, in
/// the order empty, non-ASCII, all whitespace, no hyphen.
pub open spec fn trader_id_check(s: Seq<char>) -> Result<(), IdentifierError> {
    if s.len() == 0 {
        Err(IdentifierError::Empty)
    } else if !all_ascii(s) {
        Err(IdentifierError::NonAscii)
    } else if forall|i: int| 0 <= i < s.len() ==> is_ascii_whitespace_char(#[trigger] s[i]) {
        Err(IdentifierError::AllWhitespace)
    } else if !s.contains('-') {
        Err(IdentifierError::MissingHyphen)
    } else {
        Ok(())
    }
}

/// Checks a candidate trader ID: non-empty, ASCII, not all whitespace, and
/// holding a hyphen.
pub fn check_trader_id(value: &str) -> (r: Result<(), IdentifierError>)
    ensures
        r == trader_id_check(value@),
{
    let cs = chars_of(value);
    let n = cs.len();
    if n == 0 {
        return Err(IdentifierError::Empty);
    }
    let mut i: usize = 0;
    let mut has_non_whitespace = false;
    let mut has_hyphen = false;
    while i < n
        invariant
            i <= n,
            n == cs@.len(),
            cs@ == value@,
            forall|j: int| 0 <= j < i ==> (#[trigger] cs@[j] as u32) < 128,
            has_non_whitespace <==> exists|j: int|
                0 <= j < i && !is_ascii_whitespace_char(#[trigger] cs@[j]),
            has_hyphen <==> exists|j: int| 0 <= j < i && #[trigger] cs@[j] == '-',
        decreases n - i,
    {
        let c = cs[i];
        if (c as u32) >= 128 {
            assert(!all_ascii(value@)) by {
                assert((value@[i as int] as u32) >= 128);
            }
            return Err(IdentifierError::NonAscii);
        }
        if !(c == ' ' || ('\t' <= c && c <= '\r')) {
            has_non_whitespace = true;
        }
        if c == '-' {
            has_hyphen = true;
        }
        i = i + 1;
    }
    if !has_non_whitespace {
        assert(forall|j: int| 0 <= j < n ==> is_ascii_whitespace_char(#[trigger] value@[j]));
        return Err(IdentifierError::AllWhitespace);
    }
    if !has_hyphen {
        assert(!value@.contains('-'));
        return Err(IdentifierError::MissingHyphen);
    }
    proof {
        let j = choose|j: int| 0 <= j < n && #[trigger] cs@[j] == '-';
        assert(value@[j] == '-');
        let k = choose|k: int| 0 <= k < n && !is_ascii_whitespace_char(#[trigger] cs@[k]);
        assert(!is_ascii_whitespace_char(value@[k]));
    }
    Ok(())
}

/// Represents a valid trader ID, such as "TESTER-001": the abbreviated name of
/// the trader and an order ID tag number, separated by a hyphen.
#[derive(Clone, Hash, PartialEq, Eq, PartialOrd, Ord)]
pub struct TraderId {
    value: String,
}

impl View for TraderId {
    type V = Seq<char>;

    closed spec fn view(&self) -> Seq<char> {
        self.value@
    }
}

impl TraderId {
    /// Creates a new [`TraderId`] instance, or says why `value` is not one: it
    /// must be a non-empty ASCII text, not all whitespace, holding a hyphen.
    pub fn new_checked(value: &str) -> (r: Result<TraderId, IdentifierError>)
        ensures
            match trader_id_check(value@) {
                Ok(()) => r matches Ok(t) && t@ == value@,
                Err(e) => r == Err::<TraderId, IdentifierError>(e),
            },
    {
        match check_trader_id(value) {
            Ok(()) => Ok(TraderId { value: String::from_str(value) }),
            Err(e) => Err(e),
        }
    }

    /// Creates a new [`TraderId`] instance from a valid trader ID text.
    pub fn new(value: &str) -> (r: TraderId)
        requires
            trader_id_check(value@) is Ok,
        ensures
            r@ == value@,
    {
        match Self::new_checked(value) {
            Ok(t) => t,
            Err(_) => TraderId { value: String::new() },
        }
    }

    /// Sets the inner identifier value (as given, unchecked).
    pub fn set_inner(&mut self, value: &str)
        ensures
            final(self)@ == value@,
    {
        self.value = String::from_str(value);
    }

    /// Returns the inner identifier value.
    pub fn inner(&self) -> (r: String)
        ensures
            r@ == self@,
    {
        self.value.clone()
    }

    /// Returns the inner identifier value as a string slice.
    pub fn as_str(&self) -> (r: &str)
        ensures
            r@ == self@,
    {
        self.value.as_str()
    }

    /// Returns the numerical tag portion of the trader ID: the part after its
    /// last hyphen. The ID must hold a hyphen (one set by `set_inner` may not).
    pub fn get_tag(&self) -> (r: &str)
        requires
            self@.contains('-'),
        ensures
            r@ == after_last(self@, '-'),
    {
        after_last_str(self.value.as_str(), '-')
    }

    /// The trader ID as `Debug` shows it: "u!(", the text as `{:?}` writes
    /// it (quoted, escaped), and ")".
    pub fn debug_string(&self) -> (r: String)
        ensures
            r@ == seq!['u', '!', '('] + shown_debug_text(self@) + seq![')'],
    {
        let mut s = String::new();
        push_str(&mut s, "u!(");
        let d = debug_text(self.value.as_str());
        push_str(&mut s, d.as_str());
        push_str(&mut s, ")");
        proof {
            reveal_strlit("u!(");
            reveal_strlit(")");
        }
        assert(s@ =~= seq!['u', '!', '('] + shown_debug_text(self@) + seq![')']);
        s
    }

    /// The trader ID as `Display` shows it: its text.
    pub fn to_string(&self) -> (r: String)
        ensures
            r@ == self@,
    {
        let mut s = String::new();
        push_str(&mut s, self.value.as_str());
        assert(s@ =~= self@);
        s
    }
}

/// The tag of a trader ID holds no hyphen, and a trader ID that holds a hyphen
/// is its text before the last hyphen, a hyphen, and its tag.
pub proof fn lemma_tag_split(s: Seq<char>)
    ensures
        !after_last(s, '-').contains('-'),
        s.contains('-') ==> s == s.take(s.len() - after_last(s, '-').len() - 1) + seq!['-']
            + after_last(s, '-'),
        !s.contains('-') ==> after_last(s, '-') == s,
    decreases s.len(),
{
    if s.len() > 0 {
        let p = s.drop_last();
        lemma_tag_split(p);
        assert(s == p.push(s.last()));
        if s.last() == '-' {
            assert(s.take(s.len() - 1) =~= p);
            assert(s =~= p + seq!['-'] + Seq::<char>::empty());
        } else {
            let t = after_last(p, '-');
            assert(after_last(s, '-') == t.push(s.last()));
            assert forall|i: int| 0 <= i < t.len() + 1 implies t.push(s.last())[i] != '-' by {
                if i < t.len() {
                    assert(t.contains(t[i]) ==> t[i] != '-');
                }
            }
            if s.contains('-') {
                let j = choose|j: int| 0 <= j < s.len() && s[j] == '-';
                assert(p[j] == '-');
                assert(p.contains('-'));
                let k = p.len() - t.len() - 1;
                assert(p =~= p.take(k) + seq!['-'] + t);
                assert(s.take(s.len() - (t.len() + 1) - 1) =~= p.take(k));
                assert(s =~= p.take(k) + seq!['-'] + t.push(s.last()));
            } else {
                assert(!p.contains('-')) by {
                    if p.contains('-') {
                        let j = choose|j: int| 0 <= j < p.len() && p[j] == '-';
                        assert(s[j] == '-');
                    }
                }
            }
        }
    }
}

} // verus!
