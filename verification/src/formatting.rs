//! Number formatting: thousands separators for textual numbers.

use vstd::prelude::*;

use crate::text::{chars_of, push_char};

verus! {

/// `digits` with `sep` put between each group of three characters, the groups
/// counted from the right (the leftmost group holds one to three characters).
pub open spec fn group_thousands(digits: Seq<char>, sep: char) -> Seq<char>
    decreases digits.len(),
{
    if digits.len() <= 3 {
        digits
    } else {
        group_thousands(digits.take(digits.len() - 3), sep) + seq![sep] + digits.skip(
            digits.len() - 3,
        )
    }
}

/// Whether the text starts with a minus sign.
pub open spec fn has_minus(s: Seq<char>) -> bool {
    s.len() > 0 && s[0] == '-'
}

/// The text after a leading minus sign, if there is one.
pub open spec fn unsigned_part(s: Seq<char>) -> Seq<char> {
    if has_minus(s) {
        s.drop_first()
    } else {
        s
    }
}

/// The length of the integer part: everything before the first '.'.
pub open spec fn integer_len(d: Seq<char>) -> int
    decreases d.len(),
{
    if d.len() == 0 || d[0] == '.' {
        0
    } else {
        1 + integer_len(d.drop_first())
    }
}

/// The integer part ends at the first '.', or at the end of the text.
pub proof fn lemma_integer_len(d: Seq<char>, p: int)
    requires
        0 <= p <= d.len(),
        forall|j: int| 0 <= j < p ==> d[j] != '.',
        p == d.len() || d[p] == '.',
    ensures
        integer_len(d) == p,
    decreases p,
{
    if p > 0 {
        lemma_integer_len(d.drop_first(), p - 1);
    }
}

proof fn lemma_integer_len_bounds(d: Seq<char>)
    ensures
        0 <= integer_len(d) <= d.len(),
    decreases d.len(),
{
    if d.len() > 0 && d[0] != '.' {
        lemma_integer_len_bounds(d.drop_first());
    }
}

/// The text of a number with `sep` between the thousands groups of its integer
/// part; the sign and everything from the first '.' on are kept as they are.
pub open spec fn separated(s: Seq<char>, sep: char) -> Seq<char> {
    let d = unsigned_part(s);
    let k = integer_len(d);
    (if has_minus(s) {
        seq!['-']
    } else {
        Seq::<char>::empty()
    }) + group_thousands(d.take(k), sep) + d.skip(k)
}

/// The characters of `s` that are not `c`.
pub open spec fn without(s: Seq<char>, c: char) -> Seq<char> {
    s.filter(other_than(c))
}

/// The test "is not `c`".
pub open spec fn other_than(c: char) -> spec_fn(char) -> bool {
    |x: char| x != c
}

/// The first `i` characters of `cs`, each preceded by `sep` where it starts a
/// new group of three counted from the right end of `cs`.
spec fn grouped_prefix(cs: Seq<char>, i: int, sep: char) -> Seq<char>
    decreases i,
{
    if i <= 0 {
        Seq::<char>::empty()
    } else {
        let j = i - 1;
        grouped_prefix(cs, j, sep) + (if j > 0 && (cs.len() - j) % 3 == 0 {
            seq![sep]
        } else {
            Seq::<char>::empty()
        }) + seq![cs[j]]
    }
}

proof fn lemma_grouped_prefix_take(cs: Seq<char>, m: int, i: int, sep: char)
    requires
        0 <= i <= m <= cs.len(),
        (cs.len() - m) % 3 == 0,
    ensures
        grouped_prefix(cs, i, sep) == grouped_prefix(cs.take(m), i, sep),
    decreases i,
{
    if i > 0 {
        lemma_grouped_prefix_take(cs, m, i - 1, sep);
    }
}

proof fn lemma_grouped_prefix_short(cs: Seq<char>, i: int, sep: char)
    requires
        0 <= i <= cs.len() <= 3,
    ensures
        grouped_prefix(cs, i, sep) == cs.take(i),
    decreases i,
{
    if i > 0 {
        lemma_grouped_prefix_short(cs, i - 1, sep);
        assert(cs.take(i) =~= cs.take(i - 1) + seq![cs[i - 1]]);
    }
}

proof fn lemma_grouped_prefix_full(cs: Seq<char>, sep: char)
    ensures
        grouped_prefix(cs, cs.len() as int, sep) == group_thousands(cs, sep),
    decreases cs.len(),
{
    let n = cs.len() as int;
    if n <= 3 {
        lemma_grouped_prefix_short(cs, n, sep);
        assert(cs.take(n) =~= cs);
    } else {
        let m = n - 3;
        lemma_grouped_prefix_take(cs, m, m, sep);
        lemma_grouped_prefix_full(cs.take(m), sep);
        assert(cs.take(m).len() == m);
        let g = grouped_prefix(cs, m, sep);
        assert(grouped_prefix(cs, m + 1, sep) == g + seq![sep] + seq![cs[m]]);
        assert(grouped_prefix(cs, m + 2, sep) == g + seq![sep] + seq![cs[m]] + seq![cs[m + 1]])
            by {
            assert((cs.len() - (m + 1)) % 3 != 0);
            assert(Seq::<char>::empty() + seq![cs[m + 1]] =~= seq![cs[m + 1]]);
        }
        assert(grouped_prefix(cs, n, sep) == g + seq![sep] + seq![cs[m]] + seq![cs[m + 1]]
            + seq![cs[m + 2]]) by {
            assert((cs.len() - (m + 2)) % 3 != 0);
            assert(Seq::<char>::empty() + seq![cs[m + 2]] =~= seq![cs[m + 2]]);
        }
        assert(cs.skip(m) =~= seq![cs[m]] + seq![cs[m + 1]] + seq![cs[m + 2]]);
        assert(grouped_prefix(cs, n, sep) =~= g + seq![sep] + cs.skip(m));
    }
}

/// Grouping puts a separator at every fourth place counted from the right end
/// and nowhere else: for digits that hold no separator, the grouped text has
/// one separator for each full group of three after the first, a character is
/// a separator exactly when its distance from the end is a multiple of four,
/// and the rightmost group has three digits (or all of them, if fewer).
pub proof fn lemma_group_thousands_positions(digits: Seq<char>, sep: char)
    requires
        !digits.contains(sep),
    ensures
        digits.len() > 0 ==> group_thousands(digits, sep).len() == digits.len() + (digits.len()
            - 1) / 3,
        forall|i: int|
            0 <= i < group_thousands(digits, sep).len() ==> (#[trigger] group_thousands(
                digits,
                sep,
            )[i] == sep <==> (group_thousands(digits, sep).len() - i) % 4 == 0),
    decreases digits.len(),
{
    let g = group_thousands(digits, sep);
    let n = digits.len() as int;
    if n <= 3 {
        assert forall|i: int| 0 <= i < g.len() implies (#[trigger] g[i] == sep <==> (g.len() - i)
            % 4 == 0) by {
            assert(digits[i] != sep) by {
                if digits[i] == sep {
                    assert(digits.contains(sep));
                }
            }
        }
    } else {
        let head = digits.take(n - 3);
        let tail = digits.skip(n - 3);
        assert(!head.contains(sep)) by {
            if head.contains(sep) {
                let j = choose|j: int| 0 <= j < head.len() && head[j] == sep;
                assert(digits[j] == sep);
            }
        }
        lemma_group_thousands_positions(head, sep);
        let gh = group_thousands(head, sep);
        assert(g == gh + seq![sep] + tail);
        assert forall|i: int| 0 <= i < g.len() implies (#[trigger] g[i] == sep <==> (g.len() - i)
            % 4 == 0) by {
            if i < gh.len() {
                assert(g[i] == gh[i]);
                assert((g.len() - i) % 4 == (gh.len() - i) % 4);
            } else if i == gh.len() {
            } else {
                let t = i - gh.len() - 1;
                assert(g[i] == tail[t]);
                assert(tail[t] == digits[n - 3 + t]);
                assert(digits[n - 3 + t] != sep) by {
                    if digits[n - 3 + t] == sep {
                        assert(digits.contains(sep));
                    }
                }
            }
        }
    }
}

/// Grouping only adds separators: with them taken out, the digits come back.
pub proof fn lemma_group_thousands_without(digits: Seq<char>, sep: char)
    ensures
        without(group_thousands(digits, sep), sep) == without(digits, sep),
    decreases digits.len(),
{
    if digits.len() > 3 {
        let n = digits.len() as int;
        let head = digits.take(n - 3);
        let tail = digits.skip(n - 3);
        let pred = other_than(sep);
        lemma_group_thousands_without(head, sep);
        Seq::filter_distributes_over_add(group_thousands(head, sep) + seq![sep], tail, pred);
        Seq::filter_distributes_over_add(group_thousands(head, sep), seq![sep], pred);
        Seq::filter_distributes_over_add(head, tail, pred);
        assert(seq![sep].filter(pred) =~= Seq::<char>::empty()) by {
            reveal_with_fuel(Seq::filter, 2);
            assert(seq![sep].drop_last() =~= Seq::<char>::empty());
            assert(seq![sep].last() == sep);
            assert(!pred(sep));
        }
        assert(head + tail =~= digits);
    }
}

/// Thousands separators are the only characters that separating adds: taking
/// every `sep` out of the result leaves exactly the input without its `sep`s.
pub proof fn lemma_separated_without(s: Seq<char>, sep: char)
    ensures
        without(separated(s, sep), sep) == without(s, sep),
{
    let pred = other_than(sep);
    let d = unsigned_part(s);
    let k = integer_len(d);
    lemma_integer_len_bounds(d);
    let sign = if has_minus(s) {
        seq!['-']
    } else {
        Seq::<char>::empty()
    };
    lemma_group_thousands_without(d.take(k), sep);
    Seq::filter_distributes_over_add(sign + group_thousands(d.take(k), sep), d.skip(k), pred);
    Seq::filter_distributes_over_add(sign, group_thousands(d.take(k), sep), pred);
    Seq::filter_distributes_over_add(sign, d.take(k), pred);
    Seq::filter_distributes_over_add(sign + d.take(k), d.skip(k), pred);
    assert(d.take(k) + d.skip(k) =~= d);
    assert(sign + d =~= s);
    assert((sign + d.take(k)) + d.skip(k) =~= sign + (d.take(k) + d.skip(k)));
}

/// Adds thousands separators to the text of a number, keeping a leading minus
/// sign and the fractional part: `separate_with("1234567.89", ',')` is
/// `"1,234,567.89"`.
pub fn separate_with(s: &str, sep: char) -> (r: String)
    ensures
        r@ == separated(s@, sep),
{
    let cs = chars_of(s);
    let n = cs.len();
    let neg = n > 0 && cs[0] == '-';
    let start: usize = if neg {
        1
    } else {
        0
    };
    let ghost d = unsigned_part(s@);
    assert(d =~= cs@.skip(start as int));
    let mut pos: usize = start;
    while pos < n && cs[pos] != '.'
        invariant
            start <= pos <= n,
            n == cs@.len(),
            forall|j: int| start <= j < pos ==> cs@[j] != '.',
        decreases n - pos,
    {
        pos = pos + 1;
    }
    proof {
        lemma_integer_len(d, pos - start);
    }
    let ghost ip = d.take(pos - start);
    let ghost sign = if neg {
        seq!['-']
    } else {
        Seq::<char>::empty()
    };
    let mut result = String::new();
    if neg {
        push_char(&mut result, '-');
    }
    assert(result@ =~= sign + grouped_prefix(ip, 0, sep));
    let mut i: usize = start;
    while i < pos
        invariant
            start <= i <= pos <= n,
            n == cs@.len(),
            ip == cs@.subrange(start as int, pos as int),
            result@ == sign + grouped_prefix(ip, i - start, sep),
        decreases pos - i,
    {
        let k = i - start;
        if k > 0 && (pos - start - k) % 3 == 0 {
            push_char(&mut result, sep);
        }
        push_char(&mut result, cs[i]);
        proof {
            let j = k as int;
            assert(ip[j] == cs@[i as int]);
            assert(grouped_prefix(ip, j + 1, sep) == grouped_prefix(ip, j, sep) + (if j > 0 && (
            ip.len() - j) % 3 == 0 {
                seq![sep]
            } else {
                Seq::<char>::empty()
            }) + seq![ip[j]]);
        }
        assert(result@ =~= sign + grouped_prefix(ip, i + 1 - start, sep));
        i = i + 1;
    }
    proof {
        lemma_grouped_prefix_full(ip, sep);
        assert(ip.len() == pos - start);
    }
    let ghost mid = result@;
    while i < n
        invariant
            pos <= i <= n,
            n == cs@.len(),
            result@ == mid + cs@.subrange(pos as int, i as int),
        decreases n - i,
    {
        push_char(&mut result, cs[i]);
        assert(result@ =~= mid + cs@.subrange(pos as int, i + 1));
        i = i + 1;
    }
    assert(d.skip(pos - start) =~= cs@.subrange(pos as int, n as int));
    result
}

/// The decimal digit character for `d` (0 to 9).
pub open spec fn digit_char(d: int) -> char {
    (48 + d) as char
}

/// The decimal digits of `n`, most significant first, without leading zeros.
pub open spec fn decimal_digits(n: nat) -> Seq<char>
    decreases n,
{
    if n < 10 {
        seq![digit_char(n as int)]
    } else {
        decimal_digits(n / 10).push(digit_char((n % 10) as int))
    }
}

/// Whether every character is a decimal digit.
pub open spec fn all_decimal_digits(s: Seq<char>) -> bool {
    forall|i: int| 0 <= i < s.len() ==> '0' <= #[trigger] s[i] && s[i] <= '9'
}

/// The number that a text of decimal digits reads as, most significant first.
pub open spec fn decimal_value(s: Seq<char>) -> int
    decreases s.len(),
{
    if s.len() == 0 {
        0
    } else {
        decimal_value(s.drop_last()) * 10 + (s.last() as int - 48)
    }
}

/// The decimal digits of a number are digits, at least one, and read back as
/// the number.
pub proof fn lemma_decimal_digits_read_back(n: nat)
    ensures
        decimal_digits(n).len() >= 1,
        all_decimal_digits(decimal_digits(n)),
        decimal_value(decimal_digits(n)) == n,
    decreases n,
{
    let d = decimal_digits(n);
    if n >= 10 {
        lemma_decimal_digits_read_back(n / 10);
        assert(d.drop_last() =~= decimal_digits(n / 10));
        assert(d.last() == digit_char((n % 10) as int));
        assert(digit_char((n % 10) as int) as int == 48 + n % 10);
        assert(decimal_value(d) == decimal_value(d.drop_last()) * 10 + (d.last() as int - 48));
    } else {
        assert(d.drop_last() =~= Seq::<char>::empty());
        assert(digit_char(n as int) as int == 48 + n);
        assert(decimal_value(d) == decimal_value(d.drop_last()) * 10 + (d.last() as int - 48));
    }
}

/// The text of an integer as `Display` writes it: a minus sign for negative
/// numbers, then the decimal digits of the magnitude.
pub open spec fn int_text(n: int) -> Seq<char> {
    if n < 0 {
        seq!['-'] + decimal_digits((-n) as nat)
    } else {
        decimal_digits(n as nat)
    }
}

fn digit_to_char(d: u8) -> (c: char)
    requires
        d < 10,
    ensures
        c == digit_char(d as int),
{
    (48u8 + d) as char
}

fn push_decimal(s: &mut String, n: u128)
    ensures
        final(s)@ == old(s)@ + decimal_digits(n as nat),
    decreases n,
{
    if n >= 10 {
        push_decimal(s, n / 10);
    }
    push_char(s, digit_to_char((n % 10) as u8));
    assert(final(s)@ =~= old(s)@ + decimal_digits(n as nat)) by {
        if n >= 10 {
            assert(decimal_digits(n as nat) == decimal_digits((n / 10) as nat).push(
                digit_char((n % 10) as int),
            ));
        }
    }
}

/// The decimal text of an unsigned integer.
pub fn u128_text(n: u128) -> (r: String)
    ensures
        r@ == int_text(n as int),
{
    let mut s = String::new();
    push_decimal(&mut s, n);
    assert(s@ =~= decimal_digits(n as nat));
    s
}

/// The decimal text of a signed integer.
pub fn i128_text(n: i128) -> (r: String)
    ensures
        r@ == int_text(n as int),
{
    let mut s = String::new();
    if n < 0 {
        push_char(&mut s, '-');
        let magnitude: u128 = if n == i128::MIN {
            0x8000_0000_0000_0000_0000_0000_0000_0000u128
        } else {
            (-n) as u128
        };
        push_decimal(&mut s, magnitude);
        assert(s@ =~= seq!['-'] + decimal_digits((-n) as nat));
    } else {
        push_decimal(&mut s, n as u128);
        assert(s@ =~= decimal_digits(n as nat));
    }
    s
}

/// Formatting a number with thousands separators.
pub trait Separable {
    /// The plain text of the number that the separators go into.
    spec fn number_text(&self) -> Seq<char>;

    /// Formats the number with commas as thousand separators.
    fn separate_with_commas(&self) -> (r: String)
        ensures
            r@ == separated(self.number_text(), ','),
    ;

    /// Formats the number with underscores as thousand separators.
    fn separate_with_underscores(&self) -> (r: String)
        ensures
            r@ == separated(self.number_text(), '_'),
    ;
}

impl Separable for i8 {
    open spec fn number_text(&self) -> Seq<char> {
        int_text(*self as int)
    }

    fn separate_with_commas(&self) -> (r: String) {
        separate_with(i128_text(*self as i128).as_str(), ',')
    }

    fn separate_with_underscores(&self) -> (r: String) {
        separate_with(i128_text(*self as i128).as_str(), '_')
    }
}

impl Separable for i16 {
    open spec fn number_text(&self) -> Seq<char> {
        int_text(*self as int)
    }

    fn separate_with_commas(&self) -> (r: String) {
        separate_with(i128_text(*self as i128).as_str(), ',')
    }

    fn separate_with_underscores(&self) -> (r: String) {
        separate_with(i128_text(*self as i128).as_str(), '_')
    }
}

impl Separable for i32 {
    open spec fn number_text(&self) -> Seq<char> {
        int_text(*self as int)
    }

    fn separate_with_commas(&self) -> (r: String) {
        separate_with(i128_text(*self as i128).as_str(), ',')
    }

    fn separate_with_underscores(&self) -> (r: String) {
        separate_with(i128_text(*self as i128).as_str(), '_')
    }
}

impl Separable for i64 {
    open spec fn number_text(&self) -> Seq<char> {
        int_text(*self as int)
    }

    fn separate_with_commas(&self) -> (r: String) {
        separate_with(i128_text(*self as i128).as_str(), ',')
    }

    fn separate_with_underscores(&self) -> (r: String) {
        separate_with(i128_text(*self as i128).as_str(), '_')
    }
}

impl Separable for i128 {
    open spec fn number_text(&self) -> Seq<char> {
        int_text(*self as int)
    }

    fn separate_with_commas(&self) -> (r: String) {
        separate_with(i128_text(*self as i128).as_str(), ',')
    }

    fn separate_with_underscores(&self) -> (r: String) {
        separate_with(i128_text(*self as i128).as_str(), '_')
    }
}

impl Separable for isize {
    open spec fn number_text(&self) -> Seq<char> {
        int_text(*self as int)
    }

    fn separate_with_commas(&self) -> (r: String) {
        separate_with(i128_text(*self as i128).as_str(), ',')
    }

    fn separate_with_underscores(&self) -> (r: String) {
        separate_with(i128_text(*self as i128).as_str(), '_')
    }
}

impl Separable for u8 {
    open spec fn number_text(&self) -> Seq<char> {
        int_text(*self as int)
    }

    fn separate_with_commas(&self) -> (r: String) {
        separate_with(u128_text(*self as u128).as_str(), ',')
    }

    fn separate_with_underscores(&self) -> (r: String) {
        separate_with(u128_text(*self as u128).as_str(), '_')
    }
}

impl Separable for u16 {
    open spec fn number_text(&self) -> Seq<char> {
        int_text(*self as int)
    }

    fn separate_with_commas(&self) -> (r: String) {
        separate_with(u128_text(*self as u128).as_str(), ',')
    }

    fn separate_with_underscores(&self) -> (r: String) {
        separate_with(u128_text(*self as u128).as_str(), '_')
    }
}

impl Separable for u32 {
    open spec fn number_text(&self) -> Seq<char> {
        int_text(*self as int)
    }

    fn separate_with_commas(&self) -> (r: String) {
        separate_with(u128_text(*self as u128).as_str(), ',')
    }

    fn separate_with_underscores(&self) -> (r: String) {
        separate_with(u128_text(*self as u128).as_str(), '_')
    }
}

impl Separable for u64 {
    open spec fn number_text(&self) -> Seq<char> {
        int_text(*self as int)
    }

    fn separate_with_commas(&self) -> (r: String) {
        separate_with(u128_text(*self as u128).as_str(), ',')
    }

    fn separate_with_underscores(&self) -> (r: String) {
        separate_with(u128_text(*self as u128).as_str(), '_')
    }
}

impl Separable for u128 {
    open spec fn number_text(&self) -> Seq<char> {
        int_text(*self as int)
    }

    fn separate_with_commas(&self) -> (r: String) {
        separate_with(u128_text(*self as u128).as_str(), ',')
    }

    fn separate_with_underscores(&self) -> (r: String) {
        separate_with(u128_text(*self as u128).as_str(), '_')
    }
}

impl Separable for usize {
    open spec fn number_text(&self) -> Seq<char> {
        int_text(*self as int)
    }

    fn separate_with_commas(&self) -> (r: String) {
        separate_with(u128_text(*self as u128).as_str(), ',')
    }

    fn separate_with_underscores(&self) -> (r: String) {
        separate_with(u128_text(*self as u128).as_str(), '_')
    }
}

impl Separable for String {
    open spec fn number_text(&self) -> Seq<char> {
        self@
    }

    fn separate_with_commas(&self) -> (r: String) {
        separate_with(self.as_str(), ',')
    }

    fn separate_with_underscores(&self) -> (r: String) {
        separate_with(self.as_str(), '_')
    }
}

impl<'a> Separable for &'a str {
    open spec fn number_text(&self) -> Seq<char> {
        (**self)@
    }

    fn separate_with_commas(&self) -> (r: String) {
        separate_with(*self, ',')
    }

    fn separate_with_underscores(&self) -> (r: String) {
        separate_with(*self, '_')
    }
}

} // verus!
