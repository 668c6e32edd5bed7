//! Rendering of numbers as text: decimal for ports and IPv4 octets, lower-case
//! hexadecimal without leading zeros for IPv6 groups.

use vstd::prelude::*;

verus! {

/// The character of a single digit `d < 16`: `'0'`..`'9'`, then `'a'`..`'f'`.
pub open spec fn digit_char(d: nat) -> char {
    if d < 10 {
        (48 + d) as char
    } else {
        (87 + d) as char
    }
}

/// The digits of `n` in base `base` (10 or 16), most significant first, with
/// no leading zeros; zero is the single digit `'0'`.
pub open spec fn digits(n: nat, base: nat) -> Seq<char>
    decreases n,
{
    if base < 2 || n < base {
        seq![digit_char(n)]
    } else {
        proof {
            vstd::arithmetic::div_mod::lemma_div_decreases(n as int, base as int);
        }
        digits(n / base, base).push(digit_char(n % base))
    }
}

/// Decimal text of `n`, as `format!("{}", n)` renders it.
pub open spec fn decimal(n: nat) -> Seq<char> {
    digits(n, 10)
}

/// Lower-case hexadecimal text of `n`, as `format!("{:x}", n)` renders it.
pub open spec fn hex(n: nat) -> Seq<char> {
    digits(n, 16)
}

/// The one-character string of digit `d`.
fn digit_str(d: u16) -> (s: &'static str)
    requires
        d < 16,
    ensures
        s@ == seq![digit_char(d as nat)],
{
    if d == 0 {
        proof { reveal_strlit("0"); }
        "0"
    } else if d == 1 {
        proof { reveal_strlit("1"); }
        "1"
    } else if d == 2 {
        proof { reveal_strlit("2"); }
        "2"
    } else if d == 3 {
        proof { reveal_strlit("3"); }
        "3"
    } else if d == 4 {
        proof { reveal_strlit("4"); }
        "4"
    } else if d == 5 {
        proof { reveal_strlit("5"); }
        "5"
    } else if d == 6 {
        proof { reveal_strlit("6"); }
        "6"
    } else if d == 7 {
        proof { reveal_strlit("7"); }
        "7"
    } else if d == 8 {
        proof { reveal_strlit("8"); }
        "8"
    } else if d == 9 {
        proof { reveal_strlit("9"); }
        "9"
    } else if d == 10 {
        proof { reveal_strlit("a"); }
        "a"
    } else if d == 11 {
        proof { reveal_strlit("b"); }
        "b"
    } else if d == 12 {
        proof { reveal_strlit("c"); }
        "c"
    } else if d == 13 {
        proof { reveal_strlit("d"); }
        "d"
    } else if d == 14 {
        proof { reveal_strlit("e"); }
        "e"
    } else {
        proof { reveal_strlit("f"); }
        "f"
    }
}

/// Appends the digits of `n` in base `base` to `out`.
pub fn push_digits(out: &mut String, n: u16, base: u16)
    requires
        base == 10 || base == 16,
    ensures
        final(out)@ == old(out)@ + digits(n as nat, base as nat),
    decreases n,
{
    if n >= base {
        push_digits(out, n / base, base);
    }
    out.append(digit_str(n % base));
}

/// The decimal text of `n`.
pub fn decimal_string(n: u16) -> (s: String)
    ensures
        s@ == decimal(n as nat),
{
    let mut s = String::new();
    push_digits(&mut s, n, 10);
    s
}

/// The lower-case hexadecimal text of `n`.
pub fn hex_string(n: u16) -> (s: String)
    ensures
        s@ == hex(n as nat),
{
    let mut s = String::new();
    push_digits(&mut s, n, 16);
    s
}

/// Whether `c` is a digit of base `base` (10 or 16) as the renderings write
/// it: `'0'`..`'9'`, and for base 16 also `'a'`..`'f'`.
pub open spec fn is_digit_of(c: char, base: nat) -> bool {
    ||| ('0' <= c && c <= '9' && (c as int) - 48 < base)
    ||| (base == 16 && 'a' <= c && c <= 'f')
}

/// The value a digit character stands for.
pub open spec fn digit_value(c: char) -> int {
    if '0' <= c && c <= '9' {
        (c as int) - 48
    } else {
        (c as int) - 87
    }
}

/// The number a text of digits stands for in base `base`, read from left to
/// right: each digit multiplies what came before by the base and adds its
/// own value.
pub open spec fn text_value(s: Seq<char>, base: nat) -> int
    decreases s.len(),
{
    if s.len() == 0 {
        0
    } else {
        text_value(s.drop_last(), base) * base + digit_value(s.last())
    }
}

/// Whether `s` is the canonical text of `n` in base `base`: nonempty, made
/// only of digits of the base, without a leading zero unless it is `"0"`,
/// and reading back as `n`.
pub open spec fn reads_as(s: Seq<char>, base: nat, n: int) -> bool {
    &&& s.len() > 0
    &&& forall|i: int| 0 <= i < s.len() ==> #[trigger] is_digit_of(s[i], base)
    &&& s.len() > 1 ==> s[0] != '0'
    &&& text_value(s, base) == n
}

/// The digits of `n` in base 10 or 16 read back as `n`: they are the
/// canonical text of `n`.
pub proof fn lemma_digits_read_back(n: nat, base: nat)
    requires
        base == 10 || base == 16,
    ensures
        reads_as(digits(n, base), base, n as int),
        n > 0 ==> digits(n, base)[0] != '0',
    decreases n,
{
    let s = digits(n, base);
    if n < base {
        assert(s =~= seq![digit_char(n)]);
        assert(s.drop_last() =~= Seq::<char>::empty());
        assert(is_digit_of(s[0], base));
        assert(digit_value(s.last()) == n);
        let z = text_value(s.drop_last(), base);
        assert(z == 0);
        assert(z * base == 0) by (nonlinear_arith)
            requires
                z == 0,
        ;
        assert(text_value(s, base) == n);
        assert forall|i: int| 0 <= i < s.len() implies #[trigger] is_digit_of(s[i], base) by {
            assert(i == 0);
        }
    } else {
        vstd::arithmetic::div_mod::lemma_div_decreases(n as int, base as int);
        let q = n / base;
        let r = n % base;
        lemma_digits_read_back(q, base);
        let t = digits(q, base);
        assert(s == t.push(digit_char(r)));
        assert(s.drop_last() =~= t);
        assert(q * base + r == n) by (nonlinear_arith)
            requires
                q == n / base,
                r == n % base,
                base > 0,
        ;
        assert(q > 0) by (nonlinear_arith)
            requires
                q == n / base,
                n >= base,
                base > 0,
        ;
        assert forall|i: int| 0 <= i < s.len() implies #[trigger] is_digit_of(s[i], base) by {
            if i < t.len() {
                assert(s[i] == t[i]);
            }
        }
        assert(s[0] == t[0]);
        assert(digit_value(s.last()) == r);
        assert(text_value(s, base) == text_value(t, base) * base + r);
        assert(text_value(s, base) == n);
    }
}

/// Decimal text reads back as the number it renders.
pub proof fn lemma_decimal_reads_back(n: nat)
    ensures
        reads_as(decimal(n), 10, n as int),
{
    lemma_digits_read_back(n, 10);
}

/// Hexadecimal text reads back as the number it renders.
pub proof fn lemma_hex_reads_back(n: nat)
    ensures
        reads_as(hex(n), 16, n as int),
{
    lemma_digits_read_back(n, 16);
}

} // verus!
