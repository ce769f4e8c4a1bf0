//! The control sequence that puts the cursor back at the top of a frame.

use vstd::prelude::*;

verus! {

/// The decimal digit for `d`, which is below ten.
pub open spec fn digit(d: nat) -> char {
    ('0' as nat + d) as char
}

/// The decimal numeral of `n`, without leading zeros.
pub open spec fn decimal(n: nat) -> Seq<char>
    decreases n,
{
    if n < 10 {
        seq![digit(n)]
    } else {
        decimal(n / 10).push(digit(n % 10))
    }
}

/// The number that a sequence of decimal digits denotes.
pub open spec fn decimal_value(digits: Seq<char>) -> nat
    decreases digits.len(),
{
    if digits.len() == 0 {
        0
    } else {
        (10 * decimal_value(digits.drop_last()) + (digits.last() as nat - '0' as nat)) as nat
    }
}

/// The sequence that moves the cursor to the first column and `rows` rows up:
/// a carriage return, then escape, `[`, the decimal numeral of `rows`, and `A`.
pub open spec fn rewind_sequence(rows: nat) -> Seq<char> {
    seq!['\r', '\u{1b}', '['] + decimal(rows) + seq!['A']
}

/// A numeral denotes the number it was written for.
pub proof fn lemma_decimal_value(n: nat)
    ensures
        decimal_value(decimal(n)) == n,
        decimal(n).len() >= 1,
    decreases n,
{
    if n < 10 {
        assert(decimal(n).drop_last() == Seq::<char>::empty());
        assert(decimal_value(decimal(n).drop_last()) == 0);
    } else {
        lemma_decimal_value(n / 10);
        assert(decimal(n).drop_last() == decimal(n / 10));
    }
}

/// Writes the decimal numeral of `n` behind `out`.
fn push_decimal(out: &mut Vec<char>, n: usize)
    ensures
        final(out)@ == old(out)@ + decimal(n as nat),
    decreases n,
{
    if n >= 10 {
        push_decimal(out, n / 10);
    }
    let last: u8 = (n % 10) as u8;
    out.push((48u8 + last) as char);
}

/// The control sequence to send after a frame of `rows` rows, so that the next
/// frame overwrites it.
pub fn cursor_rewind(rows: usize) -> (sequence: Vec<char>)
    ensures
        sequence@ == rewind_sequence(rows as nat),
{
    let mut sequence: Vec<char> = Vec::new();
    sequence.push('\r');
    sequence.push('\u{1b}');
    sequence.push('[');
    push_decimal(&mut sequence, rows);
    sequence.push('A');
    sequence
}

} // verus!
