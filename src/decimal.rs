//! Exact decimal amounts, and the grammars by which amounts are read from text.
use vstd::prelude::*;

verus! {

/// Billionths in one whole unit.
pub const NANOS_PER_UNIT: u128 = 1_000_000_000;

/// Largest amount, in billionths, that a decimal string may give.
pub const MAX_BILLIONTHS: u128 = 10_000_000_000_000_000_000_000_000_000_000_000_000;

/// A non-negative amount, held exactly as a count of billionths of a unit.
#[derive(Clone, Copy, Debug, PartialEq, Eq, Structural)]
pub struct Amount {
    pub billionths: u128,
}

impl Amount {
    pub open spec fn value(self) -> nat {
        self.billionths as nat
    }

    /// The whole units of the amount.
    pub fn whole_units(&self) -> (r: u128)
        ensures
            r == self.billionths / NANOS_PER_UNIT,
    {
        self.billionths / NANOS_PER_UNIT
    }

    /// The billionths beyond the whole units.
    pub fn fraction_nanos(&self) -> (r: u128)
        ensures
            r == self.billionths % NANOS_PER_UNIT,
    {
        self.billionths % NANOS_PER_UNIT
    }
}

pub open spec fn is_digit(c: char) -> bool {
    48 <= (c as u32) && (c as u32) <= 57
}

pub open spec fn digit_of(c: char) -> nat {
    if is_digit(c) {
        ((c as u32) - 48) as nat
    } else {
        0
    }
}

/// The value of a string of decimal digits, most significant first.
pub open spec fn digits_value(s: Seq<char>) -> nat
    decreases s.len(),
{
    if s.len() == 0 {
        0
    } else {
        digits_value(s.drop_last()) * 10 + digit_of(s.last())
    }
}

pub open spec fn all_digits(s: Seq<char>) -> bool {
    forall|i: int| 0 <= i < s.len() ==> is_digit(#[trigger] s[i])
}

/// The end of the run of digits that starts at `i`.
pub open spec fn digit_run_end(s: Seq<char>, i: int) -> int
    decreases s.len() - i,
{
    if 0 <= i < s.len() && is_digit(s[i]) {
        digit_run_end(s, i + 1)
    } else {
        i
    }
}

pub open spec fn pow10(n: nat) -> nat
    decreases n,
{
    if n == 0 {
        1
    } else {
        10 * pow10((n - 1) as nat)
    }
}

/// Digits, then optionally a point and more digits; at least one digit in all.
pub open spec fn is_plain_decimal(s: Seq<char>) -> bool {
    let k = digit_run_end(s, 0);
    s.len() > 0 && (k == s.len() || (s[k] == '.' && digit_run_end(s, k + 1) == s.len() && s.len()
        > 1))
}

/// The digits of a plain decimal with its point taken out.
pub open spec fn mantissa_digits(m: Seq<char>) -> Seq<char> {
    let k = digit_run_end(m, 0);
    if k < m.len() {
        m.take(k) + m.skip(k + 1)
    } else {
        m
    }
}

/// How many digits of a plain decimal stand after its point.
pub open spec fn fraction_len(m: Seq<char>) -> int {
    let k = digit_run_end(m, 0);
    if k < m.len() {
        m.len() - k - 1
    } else {
        0
    }
}

/// `digits × 10^q`, rounded down.
pub open spec fn scaled_value(d: Seq<char>, q: int) -> nat {
    if q >= 0 {
        digits_value(d) * pow10(q as nat)
    } else if d.len() + q > 0 {
        digits_value(d.take(d.len() + q))
    } else {
        0
    }
}

pub open spec fn is_exp_mark(c: char) -> bool {
    c == 'e' || c == 'E'
}

/// The first exponent mark at or after `i`, or the end.
pub open spec fn exp_mark_end(s: Seq<char>, i: int) -> int
    decreases s.len() - i,
{
    if 0 <= i < s.len() && !is_exp_mark(s[i]) {
        exp_mark_end(s, i + 1)
    } else {
        i
    }
}

/// `s` without one leading plus sign.
pub open spec fn unsigned_body(s: Seq<char>) -> Seq<char> {
    if s.len() > 0 && s[0] == '+' {
        s.drop_first()
    } else {
        s
    }
}

/// What a non-negative decimal reads as, in billionths rounded down: an optional
/// plus sign, a plain decimal, and optionally `e` or `E` with a signed exponent;
/// `None` where the text is not of that form or the amount is out of range.
pub open spec fn decimal_amount(s: Seq<char>) -> Option<nat> {
    let b = unsigned_body(s);
    let k = exp_mark_end(b, 0);
    let m = b.take(k);
    let e: Option<int> = if k < b.len() {
        integer_value(b.skip(k + 1))
    } else {
        Some(0)
    };
    if is_plain_decimal(m) && e is Some {
        let v = scaled_value(mantissa_digits(m), e->0 - fraction_len(m) + 9);
        if v <= MAX_BILLIONTHS {
            Some(v)
        } else {
            None
        }
    } else {
        None
    }
}

/// What an optional sign followed by digits reads as, if it fits in an `i64`.
pub open spec fn integer_value(s: Seq<char>) -> Option<int> {
    let signed = s.len() > 0 && (s[0] == '-' || s[0] == '+');
    let body = if signed {
        s.drop_first()
    } else {
        s
    };
    let v: int = if signed && s[0] == '-' {
        -digits_value(body)
    } else {
        digits_value(body) as int
    };
    if body.len() > 0 && all_digits(body) && i64::MIN <= v <= i64::MAX {
        Some(v)
    } else {
        None
    }
}

/// The characters of `s` that are ASCII digits or a point, in order.
pub open spec fn number_chars(s: Seq<char>) -> Seq<char>
    decreases s.len(),
{
    if s.len() == 0 {
        Seq::empty()
    } else if is_digit(s.last()) || s.last() == '.' {
        number_chars(s.drop_last()).push(s.last())
    } else {
        number_chars(s.drop_last())
    }
}

pub proof fn lemma_digits_value_monotone(s: Seq<char>, i: int, j: int)
    requires
        0 <= i <= j <= s.len(),
    ensures
        digits_value(s.take(i)) <= digits_value(s.take(j)),
    decreases j - i,
{
    if i < j {
        lemma_digits_value_monotone(s, i, j - 1);
        assert(s.take(j).drop_last() =~= s.take(j - 1));
    }
}

proof fn lemma_pow10_positive(n: nat)
    ensures
        pow10(n) >= 1,
    decreases n,
{
    if n > 0 {
        lemma_pow10_positive((n - 1) as nat);
    }
}

proof fn lemma_pow10_grows(i: nat, j: nat)
    requires
        i <= j,
    ensures
        pow10(i) <= pow10(j),
    decreases j - i,
{
    if i < j {
        lemma_pow10_grows(i, (j - 1) as nat);
        lemma_pow10_positive((j - 1) as nat);
    }
}

pub fn is_digit_char(c: char) -> (r: bool)
    ensures
        r == is_digit(c),
{
    '0' <= c && c <= '9'
}

/// The characters of a string, in order.
pub fn chars_of(s: &str) -> (r: Vec<char>)
    ensures
        r@ == s@,
{
    let n = s.unicode_len();
    let mut out: Vec<char> = Vec::new();
    let mut i: usize = 0;
    while i < n
        invariant
            n == s@.len(),
            i <= n,
            out@ == s@.take(i as int),
        decreases n - i,
    {
        out.push(s.get_char(i));
        i = i + 1;
        assert(out@ =~= s@.take(i as int));
    }
    assert(s@.take(n as int) =~= s@);
    out
}

/// Keeps the ASCII digits and points of `s`, dropping everything else.
pub fn keep_number_chars(s: &Vec<char>) -> (r: Vec<char>)
    ensures
        r@ == number_chars(s@),
{
    let mut out: Vec<char> = Vec::new();
    let mut i: usize = 0;
    while i < s.len()
        invariant
            i <= s@.len(),
            out@ == number_chars(s@.take(i as int)),
        decreases s@.len() - i,
    {
        let c = s[i];
        assert(s@.take(i + 1).drop_last() =~= s@.take(i as int));
        if is_digit_char(c) || c == '.' {
            out.push(c);
        }
        i = i + 1;
    }
    assert(s@.take(s@.len() as int) =~= s@);
    out
}

/// Scans the run of digits that starts at `start`.
fn scan_digits(s: &Vec<char>, start: usize) -> (r: usize)
    requires
        start <= s@.len(),
    ensures
        r as int == digit_run_end(s@, start as int),
        start <= r <= s@.len(),
        forall|j: int| start <= j < r ==> is_digit(#[trigger] s@[j]),
{
    let mut k = start;
    while k < s.len() && is_digit_char(s[k])
        invariant
            start <= k <= s@.len(),
            digit_run_end(s@, k as int) == digit_run_end(s@, start as int),
            forall|j: int| start <= j < k ==> is_digit(#[trigger] s@[j]),
        decreases s@.len() - k,
    {
        k = k + 1;
    }
    k
}

/// The characters of `v` from `from` up to `to`.
pub fn slice_chars(v: &Vec<char>, from: usize, to: usize) -> (r: Vec<char>)
    requires
        from <= to <= v@.len(),
    ensures
        r@ == v@.subrange(from as int, to as int),
{
    let mut out: Vec<char> = Vec::new();
    let mut i = from;
    while i < to
        invariant
            from <= i <= to <= v@.len(),
            out@ == v@.subrange(from as int, i as int),
        decreases to - i,
    {
        out.push(v[i]);
        i = i + 1;
        assert(out@ =~= v@.subrange(from as int, i as int));
    }
    out
}

fn scan_exp_mark(s: &Vec<char>) -> (r: usize)
    ensures
        r as int == exp_mark_end(s@, 0),
        r <= s@.len(),
{
    let mut k: usize = 0;
    while k < s.len() && s[k] != 'e' && s[k] != 'E'
        invariant
            k <= s@.len(),
            exp_mark_end(s@, k as int) == exp_mark_end(s@, 0),
        decreases s@.len() - k,
    {
        k = k + 1;
    }
    k
}

/// The value of the first `len` digits of `d`, if it is at most `MAX_BILLIONTHS`.
fn capped_value(d: &Vec<char>, len: usize) -> (r: Option<u128>)
    requires
        len <= d@.len(),
        all_digits(d@),
    ensures
        match r {
            Some(v) => v == digits_value(d@.take(len as int)) && v <= MAX_BILLIONTHS,
            None => digits_value(d@.take(len as int)) > MAX_BILLIONTHS,
        },
{
    let mut v: u128 = 0;
    let mut i: usize = 0;
    assert(d@.take(0) =~= Seq::<char>::empty());
    while i < len
        invariant
            len <= d@.len(),
            all_digits(d@),
            i <= len,
            v == digits_value(d@.take(i as int)),
            v <= MAX_BILLIONTHS,
        decreases len - i,
    {
        assert(d@.take(i + 1).drop_last() =~= d@.take(i as int));
        assert(is_digit(d@[i as int]));
        let next = v * 10 + (d[i] as u32 - 48) as u128;
        if next > MAX_BILLIONTHS {
            proof {
                lemma_digits_value_monotone(d@, i + 1, len as int);
            }
            return None;
        }
        v = next;
        i = i + 1;
    }
    Some(v)
}

/// `d × 10^q` rounded down, if it is at most `MAX_BILLIONTHS`.
fn scale(d: &Vec<char>, q: i128) -> (r: Option<u128>)
    requires
        all_digits(d@),
    ensures
        match r {
            Some(v) => v == scaled_value(d@, q as int) && v <= MAX_BILLIONTHS,
            None => scaled_value(d@, q as int) > MAX_BILLIONTHS,
        },
{
    assert(d@.take(d@.len() as int) =~= d@);
    if q >= 0 {
        let base = match capped_value(d, d.len()) {
            Some(b) => b,
            None => {
                proof {
                    lemma_pow10_positive(q as nat);
                    let x = digits_value(d@);
                    let p = pow10(q as nat);
                    assert(x * p >= x) by (nonlinear_arith)
                        requires
                            p >= 1,
                    ;
                }
                return None;
            },
        };
        if base == 0 {
            assert(0 * pow10(q as nat) == 0);
            return Some(0);
        }
        let mut v = base;
        let mut j: i128 = 0;
        while j < q
            invariant
                0 <= j <= q,
                base > 0,
                base == digits_value(d@),
                v == base * pow10(j as nat),
                v <= MAX_BILLIONTHS,
            decreases q - j,
        {
            let ghost p = pow10(j as nat);
            assert(pow10((j + 1) as nat) == 10 * p);
            assert(base * (10 * p) == (base * p) * 10) by (nonlinear_arith);
            if v > MAX_BILLIONTHS / 10 {
                proof {
                    lemma_pow10_grows((j + 1) as nat, q as nat);
                    let big = pow10(q as nat);
                    let small = pow10((j + 1) as nat);
                    assert(base * big >= base * small) by (nonlinear_arith)
                        requires
                            big >= small,
                            base > 0,
                    ;
                }
                return None;
            }
            v = v * 10;
            j = j + 1;
        }
        Some(v)
    } else {
        let cut: i128 = d.len() as i128 + q;
        if cut <= 0 {
            return Some(0);
        }
        capped_value(d, cut as usize)
    }
}

/// Reads a non-negative decimal in billionths, rounded down: an optional plus
/// sign, digits with an optional point, and an optional exponent.
pub fn parse_decimal(s: &Vec<char>) -> (r: Option<Amount>)
    ensures
        match r {
            Some(a) => decimal_amount(s@) == Some(a.value()),
            None => decimal_amount(s@) is None,
        },
{
    let n = s.len();
    let start: usize = if n > 0 && s[0] == '+' {
        1
    } else {
        0
    };
    let b = slice_chars(s, start, n);
    assert(b@ =~= unsigned_body(s@));
    let k = scan_exp_mark(&b);
    let m = slice_chars(&b, 0, k);
    assert(m@ =~= b@.take(k as int));
    let e: i64 = if k < b.len() {
        let x = slice_chars(&b, k + 1, b.len());
        assert(x@ =~= b@.skip(k + 1));
        match parse_integer(&x) {
            Some(e) => e,
            None => return None,
        }
    } else {
        0
    };
    let ml = m.len();
    if ml == 0 {
        return None;
    }
    let kw = scan_digits(&m, 0);
    let mut d: Vec<char>;
    let flen: usize;
    if kw < ml {
        if m[kw] != '.' || ml == 1 {
            return None;
        }
        let mm = scan_digits(&m, kw + 1);
        if mm < ml {
            return None;
        }
        d = slice_chars(&m, 0, kw);
        let mut f = slice_chars(&m, kw + 1, ml);
        assert(d@ =~= m@.take(kw as int));
        assert(f@ =~= m@.skip(kw + 1));
        d.append(&mut f);
        flen = ml - kw - 1;
    } else {
        d = m;
        flen = 0;
    }
    assert(all_digits(d@));
    let q: i128 = e as i128 - flen as i128 + 9;
    match scale(&d, q) {
        Some(v) => Some(Amount { billionths: v }),
        None => None,
    }
}

/// Reads an optional sign followed by decimal digits as an `i64`.
pub fn parse_integer(s: &Vec<char>) -> (r: Option<i64>)
    ensures
        match r {
            Some(v) => integer_value(s@) == Some(v as int),
            None => integer_value(s@) is None,
        },
{
    let n = s.len();
    let signed = n > 0 && (s[0] == '-' || s[0] == '+');
    let negative = signed && s[0] == '-';
    let start: usize = if signed {
        1
    } else {
        0
    };
    let ghost body = if signed {
        s@.drop_first()
    } else {
        s@
    };
    if start == n {
        return None;
    }
    assert(body =~= s@.skip(start as int));
    assert(body.take(0) =~= Seq::<char>::empty());
    let mut mag: u128 = 0;
    let mut i: usize = start;
    while i < n
        invariant
            start <= i <= n == s@.len(),
            start == (if signed { 1int } else { 0int }),
            signed == (s@.len() > 0 && (s@[0] == '-' || s@[0] == '+')),
            negative == (signed && s@[0] == '-'),
            body == (if signed { s@.drop_first() } else { s@ }),
            body == s@.skip(start as int),
            mag == digits_value(body.take(i - start)),
            all_digits(body.take(i - start)),
            mag <= 9_223_372_036_854_775_808,
        decreases n - i,
    {
        let c = s[i];
        assert(body.take(i - start + 1).drop_last() =~= body.take(i - start));
        if !is_digit_char(c) {
            assert(body[i - start] == c);
            return None;
        }
        let next = mag * 10 + (c as u32 - 48) as u128;
        if next > 9_223_372_036_854_775_808 {
            proof {
                lemma_digits_value_monotone(body, i - start + 1, body.len() as int);
                assert(body.take(body.len() as int) =~= body);
            }
            return None;
        }
        mag = next;
        i = i + 1;
        assert(all_digits(body.take(i - start)));
    }
    assert(body.take(body.len() as int) =~= body);
    if negative {
        Some((0 - mag as i128) as i64)
    } else if mag <= 9_223_372_036_854_775_807 {
        Some(mag as i64)
    } else {
        None
    }
}

} // verus!
