//! Text as sequences of characters: the order of names and the helpers that
//! the other modules share.

use vstd::prelude::*;
use vstd::std_specs::iter::IteratorSpec;

verus! {

/// The lexicographic order on texts, character by character in the order of
/// their code points: a proper prefix comes first, and otherwise the first
/// differing character decides.
pub open spec fn lex_less(a: Seq<char>, b: Seq<char>) -> bool
    decreases a.len(),
{
    if b.len() == 0 {
        false
    } else if a.len() == 0 {
        true
    } else if a[0] != b[0] {
        (a[0] as int) < (b[0] as int)
    } else {
        lex_less(a.drop_first(), b.drop_first())
    }
}

/// No text comes before itself.
pub proof fn lemma_lex_less_irreflexive(a: Seq<char>)
    ensures
        !lex_less(a, a),
    decreases a.len(),
{
    if a.len() > 0 {
        lemma_lex_less_irreflexive(a.drop_first());
    }
}

/// Of two different texts exactly one comes before the other.
pub proof fn lemma_lex_less_total(a: Seq<char>, b: Seq<char>)
    ensures
        a != b ==> (lex_less(a, b) <==> !lex_less(b, a)),
        a == b ==> !lex_less(a, b),
    decreases a.len(),
{
    if a == b {
        lemma_lex_less_irreflexive(a);
    } else if a.len() > 0 && b.len() > 0 {
        if a[0] == b[0] {
            if a.drop_first() == b.drop_first() {
                assert(a =~= seq![a[0]] + a.drop_first());
                assert(b =~= seq![b[0]] + b.drop_first());
                assert(a == b);
            }
            lemma_lex_less_total(a.drop_first(), b.drop_first());
        }
    } else {
        assert(a.len() == 0 && b.len() == 0 ==> a =~= b);
    }
}

/// The order is transitive.
pub proof fn lemma_lex_less_transitive(a: Seq<char>, b: Seq<char>, c: Seq<char>)
    requires
        lex_less(a, b),
        lex_less(b, c),
    ensures
        lex_less(a, c),
    decreases a.len(),
{
    if a.len() > 0 && a[0] == b[0] && b[0] == c[0] {
        lemma_lex_less_transitive(a.drop_first(), b.drop_first(), c.drop_first());
    }
}

/// Whether `a` comes before `b` in the lexicographic order.
pub fn str_less(a: &str, b: &str) -> (r: bool)
    ensures
        r == lex_less(a@, b@),
{
    let mut left = a.chars();
    let mut right = b.chars();
    loop
        invariant
            lex_less(a@, b@) == lex_less(left.remaining(), right.remaining()),
            left.decrease() is Some,
        decreases left.decrease()->0,
    {
        let x = left.next();
        let y = right.next();
        match (x, y) {
            (_, None) => {
                return false;
            },
            (None, Some(_)) => {
                return true;
            },
            (Some(p), Some(q)) => {
                if p != q {
                    return p < q;
                }
            },
        }
    }
}

/// Whether `a` and `b` are the same text.
pub fn str_eq(a: &str, b: &str) -> (r: bool)
    ensures
        r == (a@ == b@),
{
    let mut left = a.chars();
    let mut right = b.chars();
    loop
        invariant
            (a@ == b@) == (left.remaining() == right.remaining()),
            left.decrease() is Some,
        decreases left.decrease()->0,
    {
        let ghost l = left.remaining();
        let ghost r = right.remaining();
        let x = left.next();
        let y = right.next();
        match (x, y) {
            (None, None) => {
                assert(l =~= r);
                return true;
            },
            (Some(p), Some(q)) => {
                if p != q {
                    assert(l[0] != r[0]);
                    return false;
                }
                assert(l =~= seq![p] + l.drop_first());
                assert(r =~= seq![q] + r.drop_first());
            },
            _ => {
                assert(l.len() != r.len());
                return false;
            },
        }
    }
}

/// The characters of a text.
pub fn to_chars(s: &str) -> (r: Vec<char>)
    ensures
        r@ == s@,
{
    let mut out: Vec<char> = Vec::new();
    let mut rest = s.chars();
    assert(s@.take(0) =~= out@);
    loop
        invariant
            out@.len() <= s@.len(),
            out@ == s@.take(out@.len() as int),
            rest.remaining() == s@.skip(out@.len() as int),
            rest.decrease() is Some,
        decreases rest.decrease()->0,
    {
        let ghost done = out@;
        match rest.next() {
            None => {
                assert(s@.take(s@.len() as int) =~= s@);
                return out;
            },
            Some(c) => {
                out.push(c);
                assert(out@ =~= s@.take(done.len() as int + 1));
                assert(s@.skip(done.len() as int).drop_first() =~= s@.skip(done.len() as int + 1));
            },
        }
    }
}

/// `template` with each `%s` replaced by `value`, from the left; a `%s`
/// that `value` brings in is not replaced again.
pub open spec fn filled_in(template: Seq<char>, value: Seq<char>) -> Seq<char>
    decreases template.len(),
{
    if template.len() < 2 {
        template
    } else if template[0] == '%' && template[1] == 's' {
        value + filled_in(template.skip(2), value)
    } else {
        seq![template[0]] + filled_in(template.drop_first(), value)
    }
}

/// `template` with each `%s` replaced by `value`.
pub fn fill_in(template: &str, value: &str) -> (r: String)
    ensures
        r@ == filled_in(template@, value@),
{
    let chars = to_chars(template);
    let n = chars.len();
    let mut out = String::new();
    let mut start: usize = 0;
    let mut i: usize = 0;
    assert(template@.skip(0) =~= template@);
    assert(out@ + template@.subrange(0, 0) =~= Seq::<char>::empty());
    while i < n && n - i >= 2
        invariant
            n == template@.len(),
            chars@ == template@,
            start <= i <= n,
            filled_in(template@, value@) == out@ + template@.subrange(start as int, i as int)
                + filled_in(template@.skip(i as int), value@),
        decreases n - i,
    {
        let ghost rest = template@.skip(i as int);
        let ghost kept = template@.subrange(start as int, i as int);
        if chars[i] == '%' && chars[i + 1] == 's' {
            assert(rest.skip(2) =~= template@.skip(i + 2));
            out.append(template.substring_char(start, i));
            out.append(value);
            i += 2;
            start = i;
            assert(template@.subrange(start as int, i as int) =~= Seq::<char>::empty());
            assert(filled_in(template@, value@) =~= out@ + template@.subrange(
                start as int,
                i as int,
            ) + filled_in(template@.skip(i as int), value@));
        } else {
            assert(rest.drop_first() =~= template@.skip(i + 1));
            assert(kept + seq![rest[0]] =~= template@.subrange(start as int, i + 1));
            assert(filled_in(template@, value@) =~= out@ + (kept + seq![rest[0]]) + filled_in(
                rest.drop_first(),
                value@,
            ));
            i += 1;
        }
    }
    assert(template@.subrange(start as int, i as int) + template@.skip(i as int)
        =~= template@.subrange(start as int, n as int));
    out.append(template.substring_char(start, n));
    out
}

/// The first position at or behind `from` at which `s` holds `c`, or the
/// length of `s` where there is none.
pub open spec fn position_of(s: Seq<char>, c: char, from: int) -> int
    decreases s.len() - from,
{
    if from < 0 || from >= s.len() {
        s.len() as int
    } else if s[from] == c {
        from
    } else {
        position_of(s, c, from + 1)
    }
}

/// The first position at or behind `from` at which `s` holds `c`, or the
/// length of `s`.
pub fn find_char(s: &Vec<char>, c: char, from: usize) -> (r: usize)
    ensures
        r == position_of(s@, c, from as int),
        from <= s@.len() ==> from <= r <= s@.len(),
{
    let mut i = from;
    while i < s.len() && s[i] != c
        invariant
            from <= i,
            position_of(s@, c, from as int) == position_of(s@, c, i as int),
        decreases s@.len() - i,
    {
        i += 1;
    }
    if i >= s.len() {
        s.len()
    } else {
        i
    }
}

/// The value of a decimal digit.
pub open spec fn digit_value(c: char) -> Option<nat> {
    if '0' <= c <= '9' {
        Some((c as int - '0' as int) as nat)
    } else {
        None
    }
}

/// Whether `s` is made of decimal digits alone.
pub open spec fn all_digits(s: Seq<char>) -> bool {
    forall|i: int| 0 <= i < s.len() ==> (#[trigger] digit_value(s[i])) is Some
}

/// The number that the decimal digits `s` write.
pub open spec fn decimal(s: Seq<char>) -> nat
    decreases s.len(),
{
    if s.len() == 0 {
        0
    } else {
        decimal(s.drop_last()) * 10 + match digit_value(s.last()) {
            Some(d) => d,
            None => 0,
        }
    }
}

/// The 32-bit integer that `s` writes: an optional sign, then at least one
/// decimal digit and nothing else. `None` for every other text and for a
/// number out of range.
pub open spec fn parsed_i32(s: Seq<char>) -> Option<i32> {
    if s.len() == 0 {
        None
    } else {
        let negative = s[0] == '-';
        let digits = if s[0] == '-' || s[0] == '+' {
            s.drop_first()
        } else {
            s
        };
        let value = if negative {
            -(decimal(digits) as int)
        } else {
            decimal(digits) as int
        };
        if digits.len() > 0 && all_digits(digits) && i32::MIN <= value <= i32::MAX {
            Some(value as i32)
        } else {
            None
        }
    }
}

/// The truth value that `s` writes: `true` or `false`, and nothing else.
pub open spec fn parsed_bool(s: Seq<char>) -> Option<bool> {
    if s == "true"@ {
        Some(true)
    } else if s == "false"@ {
        Some(false)
    } else {
        None
    }
}

/// A longer run of digits writes no smaller number than a shorter one that
/// it starts with.
pub proof fn lemma_decimal_grows(s: Seq<char>, k: int)
    requires
        0 <= k <= s.len(),
    ensures
        decimal(s.take(k)) <= decimal(s),
    decreases s.len(),
{
    if k < s.len() {
        lemma_decimal_grows(s.drop_last(), k);
        assert(s.drop_last().take(k) =~= s.take(k));
    } else {
        assert(s.take(k) =~= s);
    }
}

/// The value of a decimal digit.
fn digit_of(c: char) -> (r: Option<u8>)
    ensures
        match digit_value(c) {
            Some(d) => r == Some(d as u8) && d <= 9,
            None => r is None,
        },
{
    match c {
        '0' => Some(0),
        '1' => Some(1),
        '2' => Some(2),
        '3' => Some(3),
        '4' => Some(4),
        '5' => Some(5),
        '6' => Some(6),
        '7' => Some(7),
        '8' => Some(8),
        '9' => Some(9),
        _ => None,
    }
}

/// Reads a 32-bit integer in decimal.
pub fn parse_i32(s: &str) -> (r: Option<i32>)
    ensures
        r == parsed_i32(s@),
{
    let chars = to_chars(s);
    let n = chars.len();
    if n == 0 {
        return None;
    }
    let negative = chars[0] == '-';
    let signed = chars[0] == '-' || chars[0] == '+';
    let first: usize = if signed {
        1
    } else {
        0
    };
    let ghost digits = if signed {
        s@.drop_first()
    } else {
        s@
    };
    assert(digits =~= s@.skip(first as int));
    if first == n {
        return None;
    }
    let mut value: i64 = 0;
    let mut i: usize = first;
    assert(digits.take(0) =~= Seq::<char>::empty());
    while i < n
        invariant
            first <= i <= n,
            n == s@.len(),
            chars@ == s@,
            digits == s@.skip(first as int),
            digits == (if s@[0] == '-' || s@[0] == '+' {
                s@.drop_first()
            } else {
                s@
            }),
            all_digits(digits.take(i - first)),
            value == decimal(digits.take(i - first)),
            0 <= value <= 0x8000_0000,
        decreases n - i,
    {
        let ghost seen = digits.take(i - first);
        let ghost more = digits.take(i - first + 1);
        assert(more.drop_last() =~= seen);
        assert(more.last() == chars@[i as int]);
        match digit_of(chars[i]) {
            None => {
                assert(digit_value(digits[i - first]) is None);
                return None;
            },
            Some(d) => {
                value = value * 10 + d as i64;
                assert(all_digits(more)) by {
                    assert forall|k: int| 0 <= k < more.len() implies (#[trigger] digit_value(
                        more[k],
                    )) is Some by {
                        if k < seen.len() {
                            assert(more[k] == seen[k]);
                        }
                    }
                }
                if value > 0x8000_0000 {
                    proof {
                        lemma_decimal_grows(digits, i - first + 1);
                    }
                    return None;
                }
            },
        }
        i += 1;
    }
    assert(digits.take(n - first) =~= digits);
    if negative {
        Some((-value) as i32)
    } else if value > 0x7fff_ffff {
        None
    } else {
        Some(value as i32)
    }
}

/// Reads a truth value.
pub fn parse_bool(s: &str) -> (r: Option<bool>)
    ensures
        r == parsed_bool(s@),
{
    if str_eq(s, "true") {
        Some(true)
    } else if str_eq(s, "false") {
        Some(false)
    } else {
        None
    }
}

} // verus!
