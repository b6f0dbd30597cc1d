//! Hexadecimal digits and numbers, as mathematical objects.

use vstd::prelude::*;

verus! {

/// True for the characters `0-9`, `a-f` and `A-F`.
pub open spec fn is_hex_char(c: char) -> bool {
    ('0' <= c && c <= '9') || ('a' <= c && c <= 'f') || ('A' <= c && c <= 'F')
}

/// True for the characters `0-9` and `a-f`.
pub open spec fn is_lower_hex_char(c: char) -> bool {
    ('0' <= c && c <= '9') || ('a' <= c && c <= 'f')
}

/// The value of a hexadecimal digit, in either case.
pub open spec fn hex_char_value(c: char) -> nat {
    if '0' <= c && c <= '9' {
        (c as int - '0' as int) as nat
    } else if 'a' <= c && c <= 'f' {
        (c as int - 'a' as int + 10) as nat
    } else if 'A' <= c && c <= 'F' {
        (c as int - 'A' as int + 10) as nat
    } else {
        0
    }
}

/// The lowercase digit for a value below 16.
pub open spec fn lower_hex_digit(d: nat) -> char {
    if d < 10 {
        ('0' as int + d) as char
    } else {
        ('a' as int + d - 10) as char
    }
}

/// True when every character is a hexadecimal digit.
pub open spec fn all_hex(s: Seq<char>) -> bool {
    forall|i: int| 0 <= i < s.len() ==> #[trigger] is_hex_char(s[i])
}

/// The number that a string of hexadecimal digits spells, most significant
/// digit first.
pub open spec fn hex_value(s: Seq<char>) -> nat
    decreases s.len(),
{
    if s.len() == 0 {
        0
    } else {
        hex_value(s.drop_last()) * 16 + hex_char_value(s.last())
    }
}

/// `16` to the power `n`.
pub open spec fn pow16(n: nat) -> nat
    decreases n,
{
    if n == 0 {
        1
    } else {
        16 * pow16((n - 1) as nat)
    }
}

/// The `n` lowest hexadecimal digits of `v`, lowercase, most significant
/// first (leading zeros included).
pub open spec fn lower_hex_text(v: nat, n: nat) -> Seq<char>
    decreases n,
{
    if n == 0 {
        Seq::empty()
    } else {
        lower_hex_text(v / 16, (n - 1) as nat).push(lower_hex_digit(v % 16))
    }
}

/// A digit written by `lower_hex_digit` reads back as its value.
pub proof fn lemma_lower_hex_digit(d: nat)
    requires
        d < 16,
    ensures
        is_lower_hex_char(lower_hex_digit(d)),
        is_hex_char(lower_hex_digit(d)),
        hex_char_value(lower_hex_digit(d)) == d,
{
}

/// `lower_hex_text` has `n` lowercase digits that spell `v` back, when `v`
/// fits in `n` digits.
pub proof fn lemma_lower_hex_text(v: nat, n: nat)
    requires
        v < pow16(n),
    ensures
        lower_hex_text(v, n).len() == n,
        forall|i: int| 0 <= i < n ==> #[trigger] is_lower_hex_char(lower_hex_text(v, n)[i]),
        all_hex(lower_hex_text(v, n)),
        hex_value(lower_hex_text(v, n)) == v,
    decreases n,
{
    if n > 0 {
        let m = (n - 1) as nat;
        assert(v / 16 < pow16(m)) by (nonlinear_arith)
            requires
                v < 16 * pow16(m),
        ;
        lemma_lower_hex_text(v / 16, m);
        lemma_lower_hex_digit(v % 16);
        let t = lower_hex_text(v, n);
        assert(t.drop_last() =~= lower_hex_text(v / 16, m));
        assert(hex_value(t) == (v / 16) * 16 + v % 16);
        assert((v / 16) * 16 + v % 16 == v) by (nonlinear_arith);
    }
}

/// Two digit strings whose digits have equal values spell the same number.
pub proof fn lemma_hex_value_digitwise(s: Seq<char>, t: Seq<char>)
    requires
        s.len() == t.len(),
        forall|i: int| 0 <= i < s.len() ==> hex_char_value(#[trigger] s[i]) == hex_char_value(t[i]),
    ensures
        hex_value(s) == hex_value(t),
    decreases s.len(),
{
    if s.len() > 0 {
        assert(hex_char_value(s[s.len() - 1]) == hex_char_value(t[t.len() - 1]));
        lemma_hex_value_digitwise(s.drop_last(), t.drop_last());
    }
}

/// Sixteen to the 32nd is two to the 128th: a `u128` fits in 32 digits.
pub proof fn lemma_pow16_32()
    ensures
        pow16(32) == 0x1_0000_0000_0000_0000_0000_0000_0000_0000,
{
    reveal_with_fuel(pow16, 33);
}

}
