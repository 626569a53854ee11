use vstd::prelude::*;

verus! {

/// The character of hexadecimal digit `d` (0 to 15), with `A`-`F` in upper
/// case when `upper` holds and `a`-`f` otherwise.
pub open spec fn hex_digit(d: int, upper: bool) -> char {
    if d < 10 {
        (48 + d) as char
    } else if upper {
        (55 + d) as char
    } else {
        (87 + d) as char
    }
}

/// The last `width` hexadecimal digits of `v`, most significant first,
/// padded with zeros.
pub open spec fn hex_digits(v: nat, width: nat, upper: bool) -> Seq<char>
    decreases width,
{
    if width == 0 {
        Seq::empty()
    } else {
        hex_digits(v / 16, (width - 1) as nat, upper).push(hex_digit((v % 16) as int, upper))
    }
}

/// `v` written as `0x` followed by `width` upper-case hexadecimal digits.
pub open spec fn hex_literal(v: nat, width: nat) -> Seq<char> {
    seq!['0', 'x'] + hex_digits(v, width, true)
}

/// The decimal digits of `n`, most significant first, without leading zeros.
pub open spec fn decimal(n: nat) -> Seq<char>
    decreases n,
{
    if n < 10 {
        seq![hex_digit(n as int, true)]
    } else {
        decimal(n / 10).push(hex_digit((n % 10) as int, true))
    }
}

/// Appends one character to a string, as `String::push` does.
#[verifier::external_body]
pub(crate) fn push_char(s: &mut String, c: char)
    ensures
        final(s)@ == old(s)@.push(c),
{
    s.push(c);
}

/// The character of hexadecimal digit `d`.
pub fn hex_char(d: u8, upper: bool) -> (c: char)
    requires
        d < 16,
    ensures
        c == hex_digit(d as int, upper),
{
    if d < 10 {
        (48u8 + d) as char
    } else if upper {
        (55u8 + d) as char
    } else {
        (87u8 + d) as char
    }
}

/// Appends the last `width` hexadecimal digits of `v` to `s`.
pub fn push_hex(s: &mut String, v: u32, width: u32, upper: bool)
    ensures
        final(s)@ == old(s)@ + hex_digits(v as nat, width as nat, upper),
    decreases width,
{
    if width > 0 {
        push_hex(s, v / 16, width - 1, upper);
        push_char(s, hex_char((v % 16) as u8, upper));
        assert(final(s)@ =~= old(s)@ + hex_digits(v as nat, width as nat, upper));
    } else {
        assert(final(s)@ =~= old(s)@ + hex_digits(v as nat, width as nat, upper));
    }
}

/// Appends `0x` and `width` upper-case hexadecimal digits of `v` to `s`.
pub fn push_hex_literal(s: &mut String, v: u32, width: u32)
    ensures
        final(s)@ == old(s)@ + hex_literal(v as nat, width as nat),
{
    push_char(s, '0');
    push_char(s, 'x');
    push_hex(s, v, width, true);
    assert(final(s)@ =~= old(s)@ + hex_literal(v as nat, width as nat));
}

/// Appends the decimal digits of `n` to `s`.
pub fn push_decimal(s: &mut String, n: u32)
    ensures
        final(s)@ == old(s)@ + decimal(n as nat),
    decreases n,
{
    if n >= 10 {
        push_decimal(s, n / 10);
    }
    push_char(s, hex_char((n % 10) as u8, true));
    assert(final(s)@ =~= old(s)@ + decimal(n as nat));
}

} // verus!
