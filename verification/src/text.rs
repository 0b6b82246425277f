//! Text building blocks: decimal and hexadecimal renderings of integers.

use vstd::prelude::*;
use vstd::string::*;
use vstd::utf8::*;

verus! {

/// The character of a hexadecimal digit (lower case) for `d` in `0..16`.
pub open spec fn hex_digit(d: int) -> char {
    if d == 0 { '0' }
    else if d == 1 { '1' }
    else if d == 2 { '2' }
    else if d == 3 { '3' }
    else if d == 4 { '4' }
    else if d == 5 { '5' }
    else if d == 6 { '6' }
    else if d == 7 { '7' }
    else if d == 8 { '8' }
    else if d == 9 { '9' }
    else if d == 10 { 'a' }
    else if d == 11 { 'b' }
    else if d == 12 { 'c' }
    else if d == 13 { 'd' }
    else if d == 14 { 'e' }
    else { 'f' }
}

/// Base-ten rendering of a natural number, without sign or leading zeros.
pub open spec fn decimal(n: nat) -> Seq<char>
    decreases n,
{
    if n < 10 {
        seq![hex_digit(n as int)]
    } else {
        decimal(n / 10).push(hex_digit((n % 10) as int))
    }
}

/// Base-ten rendering of an integer, with a leading `-` when negative.
pub open spec fn signed_decimal(n: int) -> Seq<char> {
    if n < 0 {
        seq!['-'] + decimal((-n) as nat)
    } else {
        decimal(n as nat)
    }
}

/// `parts` joined with `separator` between neighbours.
pub open spec fn joined(parts: Seq<Seq<char>>, separator: Seq<char>) -> Seq<char>
    decreases parts.len(),
{
    if parts.len() == 0 {
        Seq::empty()
    } else if parts.len() == 1 {
        parts[0]
    } else {
        joined(parts.drop_last(), separator) + separator + parts.last()
    }
}

/// The code point of each hexadecimal digit: `0`-`9` then `a`-`f`.
pub proof fn lemma_hex_digit_code(d: int)
    requires
        0 <= d < 16,
    ensures
        hex_digit(d) as u32 == if d < 10 { 48 + d } else { 87 + d },
        hex_digit(d) as u8 == if d < 10 { 48 + d } else { 87 + d },
        hex_digit(d) as int == if d < 10 { 48 + d } else { 87 + d },
        '\0' <= hex_digit(d) <= '\u{7f}',
        d < 10 ==> '0' <= hex_digit(d) <= '9',
{
    if d == 0 {} else if d == 1 {} else if d == 2 {} else if d == 3 {} else if d == 4 {}
    else if d == 5 {} else if d == 6 {} else if d == 7 {} else if d == 8 {} else if d == 9 {}
    else if d == 10 {} else if d == 11 {} else if d == 12 {} else if d == 13 {} else if d == 14 {}
    else {}
}

/// Distinct digits are distinct characters.
pub proof fn lemma_hex_digit_injective(a: int, b: int)
    requires
        0 <= a < 16,
        0 <= b < 16,
        hex_digit(a) == hex_digit(b),
    ensures
        a == b,
{
    lemma_hex_digit_code(a);
    lemma_hex_digit_code(b);
}

/// Decimal renderings are non-empty and made of the digits `0`-`9`.
pub proof fn lemma_decimal_digits(n: nat)
    ensures
        decimal(n).len() >= 1,
        forall|i: int| 0 <= i < decimal(n).len() ==> 48 <= #[trigger] decimal(n)[i] as u32 <= 57,
        forall|i: int| 0 <= i < decimal(n).len() ==> 48 <= #[trigger] decimal(n)[i] as u8 <= 57,
        forall|i: int| 0 <= i < decimal(n).len() ==> '\0' <= #[trigger] decimal(n)[i] <= '\u{7f}',
    decreases n,
{
    if n < 10 {
        lemma_hex_digit_code(n as int);
    } else {
        lemma_decimal_digits(n / 10);
        lemma_hex_digit_code((n % 10) as int);
        assert forall|i: int| 0 <= i < decimal(n).len() implies 48 <= #[trigger] decimal(n)[i] as u32
            <= 57 && 48 <= decimal(n)[i] as u8 <= 57 && '\0' <= decimal(n)[i] <= '\u{7f}' by {
            if i < decimal(n / 10).len() {
                assert(decimal(n)[i] == decimal(n / 10)[i]);
            }
        }
    }
}

/// Different numbers have different decimal renderings.
pub proof fn lemma_decimal_injective(n: nat, m: nat)
    requires
        decimal(n) == decimal(m),
    ensures
        n == m,
    decreases n,
{
    lemma_decimal_digits(n);
    lemma_decimal_digits(m);
    if n >= 10 {
        lemma_decimal_digits(n / 10);
    }
    if m >= 10 {
        lemma_decimal_digits(m / 10);
    }
    if n < 10 && m < 10 {
        assert(decimal(n)[0] == decimal(m)[0]);
        assert(decimal(n)[0] == hex_digit(n as int));
        assert(decimal(m)[0] == hex_digit(m as int));
        lemma_hex_digit_injective(n as int, m as int);
    } else if n >= 10 && m >= 10 {
        let dn = decimal(n);
        let dm = decimal(m);
        assert(dn.last() == dm.last());
        lemma_hex_digit_injective((n % 10) as int, (m % 10) as int);
        assert(dn.drop_last() =~= decimal(n / 10));
        assert(dm.drop_last() =~= decimal(m / 10));
        lemma_decimal_injective(n / 10, m / 10);
    } else {
        assert(decimal(n).len() != decimal(m).len());
    }
}

/// Different integers have different signed decimal renderings, which are
/// made of digits after an optional leading `-`.
pub proof fn lemma_signed_decimal_injective(a: int, b: int)
    requires
        signed_decimal(a) == signed_decimal(b),
    ensures
        a == b,
{
    if a < 0 {
        lemma_decimal_digits((-a) as nat);
    } else {
        lemma_decimal_digits(a as nat);
    }
    if b < 0 {
        lemma_decimal_digits((-b) as nat);
    } else {
        lemma_decimal_digits(b as nat);
    }
    let sa = signed_decimal(a);
    let sb = signed_decimal(b);
    if a < 0 && b < 0 {
        assert(sa.subrange(1, sa.len() as int) =~= decimal((-a) as nat));
        assert(sb.subrange(1, sb.len() as int) =~= decimal((-b) as nat));
        lemma_decimal_injective((-a) as nat, (-b) as nat);
    } else if a >= 0 && b >= 0 {
        lemma_decimal_injective(a as nat, b as nat);
    } else if a < 0 {
        assert(sa[0] == '-');
        assert(sb[0] == decimal(b as nat)[0]);
        assert(sb[0] as u32 >= 48);
    } else {
        assert(sb[0] == '-');
        assert(sa[0] == decimal(a as nat)[0]);
        assert(sa[0] as u32 >= 48);
    }
}

/// Signed decimal renderings are ASCII: `-` and the digits `0`-`9`.
pub proof fn lemma_signed_decimal_chars(a: int)
    ensures
        forall|i: int| 0 <= i < signed_decimal(a).len() ==> {
            let c = #[trigger] signed_decimal(a)[i];
            &&& c as u8 == 45 || 48 <= c as u8 <= 57
            &&& '\0' <= c <= '\u{7f}'
        },
{
    if a < 0 {
        lemma_decimal_digits((-a) as nat);
        assert forall|i: int| 0 <= i < signed_decimal(a).len() implies {
            let c = #[trigger] signed_decimal(a)[i];
            &&& c as u8 == 45 || 48 <= c as u8 <= 57
            &&& '\0' <= c <= '\u{7f}'
        } by {
            if i > 0 {
                assert(signed_decimal(a)[i] == decimal((-a) as nat)[i - 1]);
            }
        }
    } else {
        lemma_decimal_digits(a as nat);
    }
}

/// A canonical base-ten numeral: at least one character, only `0`-`9`, and
/// no leading `0` unless it is the numeral `0` itself.
pub open spec fn is_numeral(s: Seq<char>) -> bool {
    &&& s.len() >= 1
    &&& forall|i: int| 0 <= i < s.len() ==> '0' <= #[trigger] s[i] <= '9'
    &&& s.len() > 1 ==> s[0] != '0'
}

/// The number that a string of digits denotes.
pub open spec fn numeral_value(s: Seq<char>) -> int
    decreases s.len(),
{
    if s.len() == 0 {
        0
    } else {
        numeral_value(s.drop_last()) * 10 + (s.last() as int - '0' as int)
    }
}

/// The decimal rendering of `n` is the canonical numeral that denotes `n`.
pub proof fn lemma_decimal_is_numeral(n: nat)
    ensures
        is_numeral(decimal(n)),
        numeral_value(decimal(n)) == n,
    decreases n,
{
    if n < 10 {
        lemma_hex_digit_code(n as int);
        let s = decimal(n);
        assert(s.drop_last() =~= Seq::<char>::empty());
        assert(s.last() == hex_digit(n as int));
        assert('0' as int == 48);
        assert(numeral_value(s.drop_last()) == 0);
        assert(numeral_value(s) == numeral_value(s.drop_last()) * 10 + (s.last() as int - '0' as int));
    } else {
        let m = n / 10;
        let d = (n % 10) as int;
        lemma_decimal_is_numeral(m);
        lemma_hex_digit_code(d);
        let s = decimal(n);
        let t = decimal(m);
        assert(s == t.push(hex_digit(d)));
        assert(s.drop_last() =~= t);
        assert forall|i: int| 0 <= i < s.len() implies '0' <= #[trigger] s[i] <= '9' by {
            if i < t.len() {
                assert(s[i] == t[i]);
            }
        }
        if t.len() == 1 {
            assert(numeral_value(t.drop_last()) == 0) by {
                assert(t.drop_last() =~= Seq::<char>::empty());
            }
            assert(t[0] != '0');
        }
        assert(s[0] == t[0]);
        assert('0' as int == 48);
        assert(s.last() as int - '0' as int == d);
        assert(n == m * 10 + d);
        assert(numeral_value(s) == numeral_value(s.drop_last()) * 10 + (s.last() as int - '0' as int));
        assert(numeral_value(s.drop_last()) == m);
    }
}

/// A signed rendering is the canonical numeral of the magnitude, after a
/// `-` exactly when the number is negative.
pub proof fn lemma_signed_decimal_is_numeral(a: int)
    ensures
        a >= 0 ==> is_numeral(signed_decimal(a)) && numeral_value(signed_decimal(a)) == a,
        a < 0 ==> signed_decimal(a)[0] == '-' && is_numeral(signed_decimal(a).drop_first())
            && numeral_value(signed_decimal(a).drop_first()) == -a,
{
    if a >= 0 {
        lemma_decimal_is_numeral(a as nat);
    } else {
        lemma_decimal_is_numeral((-a) as nat);
        assert(signed_decimal(a).drop_first() =~= decimal((-a) as nat));
    }
}

/// Numbers framed by the same text before and after are told apart by the
/// framed text.
pub proof fn lemma_framed_decimal_injective(before: Seq<char>, after: Seq<char>, a: nat, b: nat)
    requires
        before + decimal(a) + after == before + decimal(b) + after,
    ensures
        a == b,
{
    let x = before + decimal(a) + after;
    let y = before + decimal(b) + after;
    assert(x.len() == y.len());
    assert(decimal(a) =~= x.subrange(before.len() as int, x.len() - after.len()));
    assert(decimal(b) =~= y.subrange(before.len() as int, y.len() - after.len()));
    lemma_decimal_injective(a, b);
}

/// The one-character string of the digit `d`.
pub fn digit_str(d: u64) -> (s: &'static str)
    requires
        d < 16,
    ensures
        s@ == seq![hex_digit(d as int)],
{
    if d == 0 {
        proof { reveal_strlit("0"); }
        "0"
    } else if d == 1 {
        proof { reveal_strlit("1"); }
        "1"
    } else if d == 2 {
        proof { reveal_strlit("2"); }
        "2"
    } else if d == 3 {
        proof { reveal_strlit("3"); }
        "3"
    } else if d == 4 {
        proof { reveal_strlit("4"); }
        "4"
    } else if d == 5 {
        proof { reveal_strlit("5"); }
        "5"
    } else if d == 6 {
        proof { reveal_strlit("6"); }
        "6"
    } else if d == 7 {
        proof { reveal_strlit("7"); }
        "7"
    } else if d == 8 {
        proof { reveal_strlit("8"); }
        "8"
    } else if d == 9 {
        proof { reveal_strlit("9"); }
        "9"
    } else if d == 10 {
        proof { reveal_strlit("a"); }
        "a"
    } else if d == 11 {
        proof { reveal_strlit("b"); }
        "b"
    } else if d == 12 {
        proof { reveal_strlit("c"); }
        "c"
    } else if d == 13 {
        proof { reveal_strlit("d"); }
        "d"
    } else if d == 14 {
        proof { reveal_strlit("e"); }
        "e"
    } else {
        proof { reveal_strlit("f"); }
        "f"
    }
}

/// Renders `n` in base ten.
pub fn u64_to_decimal(n: u64) -> (s: String)
    ensures
        s@ == decimal(n as nat),
    decreases n,
{
    if n < 10 {
        String::from_str(digit_str(n))
    } else {
        let mut s = u64_to_decimal(n / 10);
        s.append(digit_str(n % 10));
        s
    }
}

/// Renders `n` in base ten, with a leading `-` when negative.
pub fn i64_to_decimal(n: i64) -> (s: String)
    ensures
        s@ == signed_decimal(n as int),
{
    if n < 0 {
        let magnitude: u64 = ((-(n + 1)) as u64) + 1;
        let digits = u64_to_decimal(magnitude);
        proof { reveal_strlit("-"); }
        let s = String::from_str("-").concat(digits.as_str());
        s
    } else {
        u64_to_decimal(n as u64)
    }
}

/// Whether two strings hold the same characters.
pub fn str_eq(a: &str, b: &str) -> (eq: bool)
    ensures
        eq == (a@ == b@),
{
    let x = a.as_bytes();
    let y = b.as_bytes();
    proof {
        encode_utf8_decode_utf8(a@);
        encode_utf8_decode_utf8(b@);
    }
    if x.len() != y.len() {
        return false;
    }
    let mut i: usize = 0;
    while i < x.len()
        invariant
            x@ == encode_utf8(a@),
            y@ == encode_utf8(b@),
            x@.len() == y@.len(),
            i <= x@.len(),
            forall|j: int| 0 <= j < i ==> x@[j] == y@[j],
        decreases x@.len() - i,
    {
        if x[i] != y[i] {
            return false;
        }
        i = i + 1;
    }
    assert(x@ =~= y@);
    true
}

} // verus!
