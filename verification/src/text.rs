//! Building blocks of the rendered line: decimal numbers and aligned fields.

use vstd::prelude::*;

verus! {

/// The character of the decimal digit `d`.
pub open spec fn digit_char(d: nat) -> char
    recommends
        d < 10,
{
    ('0' as u8 + d) as char
}

/// The decimal numeral of `n`, most significant digit first, without leading zeros.
pub open spec fn decimal(n: nat) -> Seq<char>
    decreases n,
{
    if n < 10 {
        seq![digit_char(n)]
    } else {
        decimal(n / 10).push(digit_char(n % 10))
    }
}

/// The number that a decimal digit stands for.
pub open spec fn digit_value(c: char) -> nat
    recommends
        '0' <= c && c <= '9',
{
    (c as int - '0' as int) as nat
}

/// The number that a sequence of decimal digits denotes.
pub open spec fn numeral_value(digits: Seq<char>) -> nat
    decreases digits.len(),
{
    if digits.len() == 0 {
        0
    } else {
        numeral_value(digits.drop_last()) * 10 + digit_value(digits.last())
    }
}

/// `text` preceded by as many copies of `fill` as it takes to reach `width`
/// characters; `text` itself where it is already that long.
pub open spec fn pad_left(text: Seq<char>, width: nat, fill: char) -> Seq<char> {
    if text.len() >= width {
        text
    } else {
        Seq::new((width - text.len()) as nat, |i: int| fill) + text
    }
}

/// `String::push` appends one character to the end of the string.
pub assume_specification[ String::push ](s: &mut String, c: char)
    ensures
        final(s)@ == old(s)@.push(c),
;

/// The character of one decimal digit.
fn digit(d: u32) -> (c: char)
    requires
        d < 10,
    ensures
        c == digit_char(d as nat),
{
    let b: u8 = 48u8 + d as u8;
    b as char
}

/// Appends the decimal numeral of `n` to `out`.
pub fn push_decimal(out: &mut String, n: u32)
    ensures
        final(out)@ == old(out)@ + decimal(n as nat),
    decreases n,
{
    if n >= 10 {
        push_decimal(out, n / 10);
    }
    out.push(digit(n % 10));
}

/// The width that a text of `len` characters takes in a field of at least
/// `width`.
pub open spec fn field_width(len: nat, width: nat) -> nat {
    if len >= width {
        len
    } else {
        width
    }
}

/// A padded field is never shorter than its width nor than its text; the text
/// stands at its end, and only the fill character stands before it.
pub proof fn lemma_pad_left_right_aligns(text: Seq<char>, width: nat, fill: char)
    ensures
        pad_left(text, width, fill).len() == field_width(text.len(), width),
        pad_left(text, width, fill).skip(pad_left(text, width, fill).len() - text.len()) == text,
        forall|i: int|
            0 <= i < pad_left(text, width, fill).len() - text.len() ==> #[trigger] pad_left(
                text,
                width,
                fill,
            )[i] == fill,
{
    let field = pad_left(text, width, fill);
    assert(field.skip(field.len() - text.len()) =~= text);
}

/// Appends `text` to `out`, right-aligned in a field of at least `width`
/// characters: `fill` is put in front of a shorter text, a longer one is
/// appended whole.
pub fn push_padded(out: &mut String, text: &str, width: usize, fill: char)
    ensures
        final(out)@ == old(out)@ + pad_left(text@, width as nat, fill),
{
    let len: usize = text.unicode_len();
    let ghost before = out@;
    if len < width {
        let missing: usize = width - len;
        let mut i: usize = 0;
        while i < missing
            invariant
                i <= missing,
                out@ == before + Seq::new(i as nat, |k: int| fill),
            decreases missing - i,
        {
            out.push(fill);
            i += 1;
            assert(out@ =~= before + Seq::new(i as nat, |k: int| fill));
        }
        out.append(text);
        assert(out@ =~= before + pad_left(text@, width as nat, fill));
    } else {
        out.append(text);
    }
}

/// Appends the decimal numeral of `n` to `out`, with a leading zero where `n`
/// has a single digit.
pub fn push_two_digits(out: &mut String, n: u32)
    ensures
        final(out)@ == old(out)@ + pad_left(decimal(n as nat), 2, '0'),
{
    let ghost before = out@;
    if n < 10 {
        out.push('0');
        out.push(digit(n));
        assert(pad_left(decimal(n as nat), 2, '0') =~= seq!['0', digit_char(n as nat)]);
        assert(out@ =~= before + pad_left(decimal(n as nat), 2, '0'));
    } else {
        proof {
            lemma_decimal_len(n as nat);
        }
        push_decimal(out, n);
    }
}

/// Every character of a decimal numeral is a digit.
pub proof fn lemma_decimal_is_digits(n: nat)
    ensures
        forall|i: int|
            0 <= i < decimal(n).len() ==> '0' <= #[trigger] decimal(n)[i] && decimal(n)[i] <= '9',
    decreases n,
{
    let numeral = decimal(n);
    if n >= 10 {
        lemma_decimal_is_digits(n / 10);
        let front = decimal(n / 10);
        assert forall|i: int| 0 <= i < numeral.len() implies '0' <= #[trigger] numeral[i]
            && numeral[i] <= '9' by {
            if i < front.len() {
                assert(numeral[i] == front[i]);
            } else {
                assert(numeral[i] == digit_char(n % 10));
            }
        }
    } else {
        assert(numeral[0] == digit_char(n));
    }
}

/// The numeral of a number denotes that number.
pub proof fn lemma_decimal_denotes_its_number(n: nat)
    ensures
        numeral_value(decimal(n)) == n,
    decreases n,
{
    let numeral = decimal(n);
    if n >= 10 {
        lemma_decimal_denotes_its_number(n / 10);
        assert(numeral.drop_last() =~= decimal(n / 10));
        assert(numeral.last() == digit_char(n % 10));
        assert(digit_value(digit_char(n % 10)) == n % 10);
    } else {
        assert(numeral.drop_last() =~= Seq::<char>::empty());
        assert(numeral.last() == digit_char(n));
        assert(digit_value(digit_char(n)) == n);
        assert(numeral_value(numeral.drop_last()) == 0);
    }
}

/// A numeral starts with a zero only where it is the numeral of zero.
pub proof fn lemma_decimal_has_no_leading_zero(n: nat)
    ensures
        decimal(n).len() >= 1,
        decimal(n)[0] == '0' <==> n == 0,
    decreases n,
{
    if n >= 10 {
        lemma_decimal_has_no_leading_zero(n / 10);
        assert(decimal(n)[0] == decimal(n / 10)[0]);
    } else {
        assert(decimal(n)[0] == digit_char(n));
    }
}

/// A numeral has one digit below ten and at least two from ten on.
pub proof fn lemma_decimal_len(n: nat)
    ensures
        decimal(n).len() >= 1,
        n < 10 ==> decimal(n).len() == 1,
        n >= 10 ==> decimal(n).len() >= 2,
    decreases n,
{
    if n >= 10 {
        lemma_decimal_len(n / 10);
    }
}

} // verus!
