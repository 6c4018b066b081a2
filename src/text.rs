//! Building strings: single characters, zero-padded numbers and calendar dates.
use vstd::prelude::*;

verus! {

/// Relies on `String::push`: the character is appended at the end.
#[verifier::external_body]
pub(crate) fn push_char(s: &mut String, c: char)
    ensures
        final(s)@ == old(s)@.push(c),
{
    s.push(c)
}

pub open spec fn digit_char(d: nat) -> char {
    if d == 0 {
        '0'
    } else if d == 1 {
        '1'
    } else if d == 2 {
        '2'
    } else if d == 3 {
        '3'
    } else if d == 4 {
        '4'
    } else if d == 5 {
        '5'
    } else if d == 6 {
        '6'
    } else if d == 7 {
        '7'
    } else if d == 8 {
        '8'
    } else {
        '9'
    }
}

/// The decimal digits of `n`, without leading zeros.
pub open spec fn decimal_digits(n: nat) -> Seq<char>
    decreases n,
{
    if n < 10 {
        seq![digit_char(n)]
    } else {
        decimal_digits(n / 10).push(digit_char(n % 10))
    }
}

/// `d` preceded by as many zeros as bring it to `width` characters.
pub open spec fn pad_left(d: Seq<char>, width: int) -> Seq<char> {
    if d.len() >= width {
        d
    } else {
        Seq::new((width - d.len()) as nat, |_i: int| '0') + d
    }
}

/// `v` in at least `width` characters, zero-padded after any minus sign.
pub open spec fn zero_padded(v: int, width: nat) -> Seq<char> {
    if v < 0 {
        seq!['-'] + pad_left(decimal_digits((-v) as nat), width - 1)
    } else {
        pad_left(decimal_digits(v as nat), width as int)
    }
}

/// A date written `YYYY-MM-DD`.
pub open spec fn date_text(year: int, month: int, day: int) -> Seq<char> {
    zero_padded(year, 4) + seq!['-'] + zero_padded(month, 2) + seq!['-'] + zero_padded(day, 2)
}

fn digit_to_char(d: u32) -> (r: char)
    requires
        d < 10,
    ensures
        r == digit_char(d as nat),
{
    if d == 0 {
        '0'
    } else if d == 1 {
        '1'
    } else if d == 2 {
        '2'
    } else if d == 3 {
        '3'
    } else if d == 4 {
        '4'
    } else if d == 5 {
        '5'
    } else if d == 6 {
        '6'
    } else if d == 7 {
        '7'
    } else if d == 8 {
        '8'
    } else {
        '9'
    }
}

fn digit_count(n: u32) -> (r: u64)
    ensures
        r == decimal_digits(n as nat).len(),
        r <= n + 1,
    decreases n,
{
    if n < 10 {
        1
    } else {
        digit_count(n / 10) + 1
    }
}

/// Appends the decimal digits of `n`.
pub fn push_digits(out: &mut String, n: u32)
    ensures
        final(out)@ == old(out)@ + decimal_digits(n as nat),
    decreases n,
{
    if n < 10 {
        push_char(out, digit_to_char(n));
        assert(final(out)@ =~= old(out)@ + decimal_digits(n as nat));
    } else {
        push_digits(out, n / 10);
        push_char(out, digit_to_char(n % 10));
        assert(final(out)@ =~= old(out)@ + decimal_digits(n as nat));
    }
}

fn push_zeros(out: &mut String, count: usize)
    ensures
        final(out)@ == old(out)@ + Seq::new(count as nat, |_i: int| '0'),
{
    let mut k: usize = 0;
    while k < count
        invariant
            k <= count,
            out@ == old(out)@ + Seq::new(k as nat, |_i: int| '0'),
        decreases count - k,
    {
        push_char(out, '0');
        k = k + 1;
        assert(out@ =~= old(out)@ + Seq::new(k as nat, |_i: int| '0'));
    }
}

/// Appends `v` in at least `width` characters, zero-padded after any minus sign.
pub fn push_zero_padded(out: &mut String, v: i32, width: usize)
    requires
        1 <= width <= 16,
    ensures
        final(out)@ == old(out)@ + zero_padded(v as int, width as nat),
{
    let mag: u32 = if v < 0 {
        (0 - (v as i64)) as u32
    } else {
        v as u32
    };
    let room: usize = if v < 0 {
        push_char(out, '-');
        width - 1
    } else {
        width
    };
    let count = digit_count(mag);
    if count < room as u64 {
        push_zeros(out, room - count as usize);
    }
    push_digits(out, mag);
    assert(final(out)@ =~= old(out)@ + zero_padded(v as int, width as nat));
}

/// Writes a date as `YYYY-MM-DD`.
pub fn format_date(year: i32, month: i32, day: i32) -> (r: String)
    ensures
        r@ == date_text(year as int, month as int, day as int),
{
    let mut out = String::new();
    push_zero_padded(&mut out, year, 4);
    push_char(&mut out, '-');
    push_zero_padded(&mut out, month, 2);
    push_char(&mut out, '-');
    push_zero_padded(&mut out, day, 2);
    assert(out@ =~= date_text(year as int, month as int, day as int));
    out
}

} // verus!
