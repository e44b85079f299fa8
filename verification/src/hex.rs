//! Hexadecimal digits and digit pairs: the character-level ground that hex
//! color parsing and formatting stand on.

use vstd::prelude::*;
use vstd::string::*;

verus! {

/// The numeric value of a hex digit, or -1 for any other character.
/// Both cases of the letters are accepted.
pub open spec fn hex_digit_val(c: char) -> int {
    if 48 <= c as int && c as int <= 57 {
        c as int - 48
    } else if 97 <= c as int && c as int <= 102 {
        c as int - 87
    } else if 65 <= c as int && c as int <= 70 {
        c as int - 55
    } else {
        -1
    }
}

pub open spec fn is_hex_digit(c: char) -> bool {
    hex_digit_val(c) >= 0
}

/// Every character of `s` is a hex digit.
pub open spec fn all_hex(s: Seq<char>) -> bool {
    forall|i: int| 0 <= i < s.len() ==> is_hex_digit(#[trigger] s[i])
}

/// The lowercase hex digit character for a value in 0..16.
pub open spec fn hex_char(d: int) -> char {
    if d == 0 { '0' }
    else if d == 1 { '1' }
    else if d == 2 { '2' }
    else if d == 3 { '3' }
    else if d == 4 { '4' }
    else if d == 5 { '5' }
    else if d == 6 { '6' }
    else if d == 7 { '7' }
    else if d == 8 { '8' }
    else if d == 9 { '9' }
    else if d == 10 { 'a' }
    else if d == 11 { 'b' }
    else if d == 12 { 'c' }
    else if d == 13 { 'd' }
    else if d == 14 { 'e' }
    else { 'f' }
}

/// Uppercase hex letters folded to lowercase; all other characters kept.
pub open spec fn lower_hex_char(c: char) -> char {
    if 65 <= c as int && c as int <= 70 {
        ((c as int + 32) as char)
    } else {
        c
    }
}

/// The byte encoded by the digit pair at positions `2*i` and `2*i + 1`.
pub open spec fn byte_at(s: Seq<char>, i: int) -> int {
    16 * hex_digit_val(s[2 * i]) + hex_digit_val(s[2 * i + 1])
}

/// The two lowercase digits of a byte in 0..256.
pub open spec fn hex_pair(b: int) -> Seq<char> {
    seq![hex_char(b / 16), hex_char(b % 16)]
}

pub proof fn lemma_hex_digit_val_range(c: char)
    requires
        is_hex_digit(c),
    ensures
        0 <= hex_digit_val(c) < 16,
{
}

pub proof fn lemma_hex_char_val(d: int)
    requires
        0 <= d < 16,
    ensures
        is_hex_digit(hex_char(d)),
        hex_digit_val(hex_char(d)) == d,
{
}

/// Formatting the value of a hex digit gives the digit back, lowercased.
pub proof fn lemma_hex_char_of_val(c: char)
    requires
        is_hex_digit(c),
    ensures
        hex_char(hex_digit_val(c)) == lower_hex_char(c),
{
}

/// A digit pair decodes to its byte and back.
pub proof fn lemma_hex_pair_of_digits(x: int, y: int)
    requires
        0 <= x < 16,
        0 <= y < 16,
    ensures
        (16 * x + y) / 16 == x,
        (16 * x + y) % 16 == y,
        hex_pair(16 * x + y) == seq![hex_char(x), hex_char(y)],
{
    assert((16 * x + y) / 16 == x && (16 * x + y) % 16 == y) by (nonlinear_arith)
        requires 0 <= x < 16 && 0 <= y < 16;
    assert(hex_pair(16 * x + y) =~= seq![hex_char(x), hex_char(y)]);
}

/// The numeric value of a hex digit, `None` for any other character.
pub fn hex_val(c: char) -> (r: Option<u8>)
    ensures
        is_hex_digit(c) <==> r is Some,
        r matches Some(v) ==> v as int == hex_digit_val(c),
{
    let u = c as u32;
    if 48 <= u && u <= 57 {
        Some((u - 48) as u8)
    } else if 97 <= u && u <= 102 {
        Some((u - 87) as u8)
    } else if 65 <= u && u <= 70 {
        Some((u - 55) as u8)
    } else {
        None
    }
}

/// Appends the lowercase digit for `d` to `out`.
pub fn push_hex_digit(out: &mut String, d: u8)
    requires
        d < 16,
    ensures
        final(out)@ == old(out)@.push(hex_char(d as int)),
{
    if d == 0 {
        out.append("0");
        proof { reveal_strlit("0"); assert(final(out)@ =~= old(out)@.push(hex_char(d as int))); }
    } else if d == 1 {
        out.append("1");
        proof { reveal_strlit("1"); assert(final(out)@ =~= old(out)@.push(hex_char(d as int))); }
    } else if d == 2 {
        out.append("2");
        proof { reveal_strlit("2"); assert(final(out)@ =~= old(out)@.push(hex_char(d as int))); }
    } else if d == 3 {
        out.append("3");
        proof { reveal_strlit("3"); assert(final(out)@ =~= old(out)@.push(hex_char(d as int))); }
    } else if d == 4 {
        out.append("4");
        proof { reveal_strlit("4"); assert(final(out)@ =~= old(out)@.push(hex_char(d as int))); }
    } else if d == 5 {
        out.append("5");
        proof { reveal_strlit("5"); assert(final(out)@ =~= old(out)@.push(hex_char(d as int))); }
    } else if d == 6 {
        out.append("6");
        proof { reveal_strlit("6"); assert(final(out)@ =~= old(out)@.push(hex_char(d as int))); }
    } else if d == 7 {
        out.append("7");
        proof { reveal_strlit("7"); assert(final(out)@ =~= old(out)@.push(hex_char(d as int))); }
    } else if d == 8 {
        out.append("8");
        proof { reveal_strlit("8"); assert(final(out)@ =~= old(out)@.push(hex_char(d as int))); }
    } else if d == 9 {
        out.append("9");
        proof { reveal_strlit("9"); assert(final(out)@ =~= old(out)@.push(hex_char(d as int))); }
    } else if d == 10 {
        out.append("a");
        proof { reveal_strlit("a"); assert(final(out)@ =~= old(out)@.push(hex_char(d as int))); }
    } else if d == 11 {
        out.append("b");
        proof { reveal_strlit("b"); assert(final(out)@ =~= old(out)@.push(hex_char(d as int))); }
    } else if d == 12 {
        out.append("c");
        proof { reveal_strlit("c"); assert(final(out)@ =~= old(out)@.push(hex_char(d as int))); }
    } else if d == 13 {
        out.append("d");
        proof { reveal_strlit("d"); assert(final(out)@ =~= old(out)@.push(hex_char(d as int))); }
    } else if d == 14 {
        out.append("e");
        proof { reveal_strlit("e"); assert(final(out)@ =~= old(out)@.push(hex_char(d as int))); }
    } else {
        out.append("f");
        proof { reveal_strlit("f"); assert(final(out)@ =~= old(out)@.push(hex_char(d as int))); }
    }
}

/// Appends the two lowercase digits of `b` to `out`.
pub fn push_hex_byte(out: &mut String, b: u8)
    ensures
        final(out)@ == old(out)@ + hex_pair(b as int),
{
    push_hex_digit(out, b / 16);
    push_hex_digit(out, b % 16);
    proof {
        assert(final(out)@ =~= old(out)@ + hex_pair(b as int));
    }
}

} // verus!
