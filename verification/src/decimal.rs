//! Decimal text for unsigned integers, and the fixed-point and percentage
//! renderings built from it.

use vstd::prelude::*;

verus! {

/// The ASCII digit for a value below ten.
pub open spec fn digit_char(d: nat) -> char {
    if d == 0 { '0' }
    else if d == 1 { '1' }
    else if d == 2 { '2' }
    else if d == 3 { '3' }
    else if d == 4 { '4' }
    else if d == 5 { '5' }
    else if d == 6 { '6' }
    else if d == 7 { '7' }
    else if d == 8 { '8' }
    else { '9' }
}

/// The shortest base-ten rendering of `n`, most significant digit first.
pub open spec fn decimal(n: nat) -> Seq<char>
    decreases n,
{
    if n < 10 {
        seq![digit_char(n)]
    } else {
        decimal(n / 10) + seq![digit_char(n % 10)]
    }
}

/// `s` preceded by as many `'0'` as it takes to reach `width` characters.
pub open spec fn zero_pad(s: Seq<char>, width: nat) -> Seq<char> {
    if s.len() >= width {
        s
    } else {
        Seq::new((width - s.len()) as nat, |i: int| '0') + s
    }
}

/// `value / divisor`, a point, then `value % divisor` zero-padded to `width`
/// digits: the rendering of a fixed-point number stored as an integer count
/// of `1 / divisor` units.
pub open spec fn fixed_point(value: nat, divisor: nat, width: nat) -> Seq<char>
    recommends
        divisor > 0,
{
    decimal(value / divisor) + seq!['.'] + zero_pad(decimal(value % divisor), width)
}

/// A value followed by a percent sign.
pub open spec fn percent(value: nat) -> Seq<char> {
    decimal(value) + seq!['%']
}

/// Renders `n` in base ten through `itoa::Buffer::format`, which prints the
/// integer's decimal representation; the contract claims that the text is
/// exactly the digits of `n`, without sign or padding.
#[verifier::external_body]
pub(crate) fn u32_to_decimal(n: u32) -> (res: String)
    ensures
        res@ == decimal(n as nat),
{
    itoa::Buffer::new().format(n).to_owned()
}

/// `"0"` repeated `count` times followed by `s`.
fn prepend_zeros(s: &str, count: usize) -> (res: String)
    ensures
        res@ == Seq::new(count as nat, |i: int| '0') + s@,
{
    let mut res = String::new();
    let mut k: usize = 0;
    proof {
        reveal_strlit("0");
    }
    while k < count
        invariant
            k <= count,
            res@ == Seq::new(k as nat, |i: int| '0'),
            "0"@ == seq!['0'],
        decreases count - k,
    {
        res.append("0");
        k = k + 1;
        assert(res@ =~= Seq::new(k as nat, |i: int| '0'));
    }
    res.append(s);
    res
}

/// Pads `s` on the left with zeros up to `width` characters.
pub fn zero_padded(s: &str, width: usize) -> (res: String)
    ensures
        res@ == zero_pad(s@, width as nat),
{
    let len = s.unicode_len();
    if len >= width {
        s.to_owned()
    } else {
        prepend_zeros(s, width - len)
    }
}

/// Renders `value / divisor` and `value % divisor` as `"<whole>.<fraction>"`,
/// the fraction zero-padded to `width` digits.
pub fn render_fixed_point(value: u32, divisor: u32, width: usize) -> (res: String)
    requires
        divisor > 0,
    ensures
        res@ == fixed_point(value as nat, divisor as nat, width as nat),
{
    let mut res = u32_to_decimal(value / divisor);
    proof {
        reveal_strlit(".");
    }
    res.append(".");
    let fraction = u32_to_decimal(value % divisor);
    let padded = zero_padded(fraction.as_str(), width);
    res.append(padded.as_str());
    res
}

/// Renders `value` followed by a percent sign, as in `"125%"`.
pub fn render_percent(value: u32) -> (res: String)
    ensures
        res@ == percent(value as nat),
{
    let mut res = u32_to_decimal(value);
    proof {
        reveal_strlit("%");
    }
    res.append("%");
    res
}

// ---------------------------------------------------------------------------
// Reading digits back

/// Whether `c` is one of the ASCII digits `0` to `9`.
pub open spec fn is_digit(c: char) -> bool {
    c == '0' || c == '1' || c == '2' || c == '3' || c == '4' || c == '5' || c == '6' || c == '7'
        || c == '8' || c == '9'
}

/// Whether every character of `s` is an ASCII digit.
pub open spec fn all_digits(s: Seq<char>) -> bool {
    forall|i: int| 0 <= i < s.len() ==> is_digit(#[trigger] s[i])
}

/// The value of an ASCII digit.
pub open spec fn digit_value(c: char) -> nat {
    if c == '1' { 1 }
    else if c == '2' { 2 }
    else if c == '3' { 3 }
    else if c == '4' { 4 }
    else if c == '5' { 5 }
    else if c == '6' { 6 }
    else if c == '7' { 7 }
    else if c == '8' { 8 }
    else if c == '9' { 9 }
    else { 0 }
}

/// The number that a string of decimal digits reads as (empty reads as 0).
pub open spec fn digits_value(s: Seq<char>) -> nat
    decreases s.len(),
{
    if s.len() == 0 {
        0
    } else {
        digits_value(s.drop_last()) * 10 + digit_value(s.last())
    }
}

/// Ten to the power `w`.
pub open spec fn pow10(w: nat) -> nat
    decreases w,
{
    if w == 0 { 1 } else { 10 * pow10((w - 1) as nat) }
}

/// The digits of `n` are digits, and read back as `n`.
pub proof fn lemma_decimal_reads_back(n: nat)
    ensures
        all_digits(decimal(n)),
        digits_value(decimal(n)) == n,
        decimal(n).len() >= 1,
    decreases n,
{
    lemma_digit_reads_back(n % 10);
    if n < 10 {
        assert(decimal(n).drop_last() =~= Seq::<char>::empty());
        assert(digits_value(Seq::<char>::empty()) == 0);
        assert(digits_value(decimal(n)) == digits_value(decimal(n).drop_last()) * 10 + digit_value(digit_char(n)));
    } else {
        lemma_decimal_reads_back(n / 10);
        let d = decimal(n);
        assert(d.drop_last() =~= decimal(n / 10));
        assert(d.last() == digit_char(n % 10));
        assert(digits_value(d) == digits_value(decimal(n / 10)) * 10 + n % 10);
        assert((n / 10) * 10 + n % 10 == n);
    }
}

proof fn lemma_digit_reads_back(d: nat)
    requires
        d < 10,
    ensures
        is_digit(digit_char(d)),
        digit_value(digit_char(d)) == d,
{
}

/// A number below `10^w` has at most `w` digits.
proof fn lemma_decimal_len(n: nat, w: nat)
    requires
        w >= 1,
        n < pow10(w),
    ensures
        decimal(n).len() <= w,
    decreases n,
{
    if n >= 10 {
        if w == 1 {
            assert(pow10(1) == 10 * pow10(0));
        }
        assert(pow10(w) == 10 * pow10((w - 1) as nat));
        lemma_decimal_len(n / 10, (w - 1) as nat);
    }
}

/// Leading zeros do not change the value of a digit string.
proof fn lemma_zeros_read_as_nothing(k: nat, s: Seq<char>)
    ensures
        digits_value(Seq::new(k, |i: int| '0') + s) == digits_value(s),
        all_digits(s) ==> all_digits(Seq::new(k, |i: int| '0') + s),
    decreases s.len() + k,
{
    let z = Seq::new(k, |i: int| '0');
    if s.len() == 0 {
        assert(z + s =~= z);
        if k > 0 {
            lemma_zeros_read_as_nothing((k - 1) as nat, s);
            assert(z.drop_last() =~= Seq::new((k - 1) as nat, |i: int| '0') + s);
        }
    } else {
        lemma_zeros_read_as_nothing(k, s.drop_last());
        assert((z + s).drop_last() =~= z + s.drop_last());
    }
}

/// `t` is a run of digits, a point and exactly `width` digits, and reads as
/// `value` units of `10^-width`: the whole part times `10^width` plus the
/// fraction is `value`.
pub open spec fn reads_as_fixed(t: Seq<char>, width: nat, value: nat) -> bool {
    let whole = t.take(t.len() - width - 1);
    let fraction = t.skip(t.len() - width);
    &&& t.len() >= width + 2
    &&& t[t.len() - width - 1] == '.'
    &&& all_digits(whole)
    &&& all_digits(fraction)
    &&& digits_value(whole) * pow10(width) + digits_value(fraction) == value
}

/// A fixed-point rendering reads back as the number it renders: the text is
/// a run of digits, a point, and exactly `width` digits, and the whole part
/// times `10^width` plus the fraction is `value`.
pub proof fn lemma_fixed_point_reads_back(value: nat, width: nat)
    requires
        width >= 1,
    ensures
        reads_as_fixed(fixed_point(value, pow10(width), width), width, value),
{
    let div = pow10(width);
    assert(div >= 1) by {
        lemma_pow10_positive(width);
    }
    let t = fixed_point(value, div, width);
    let w = decimal(value / div);
    let f = decimal(value % div);
    lemma_decimal_reads_back(value / div);
    lemma_decimal_reads_back(value % div);
    lemma_decimal_len(value % div, width);
    let padded = zero_pad(f, width);
    lemma_zeros_read_as_nothing((width - f.len()) as nat, f);
    assert(padded.len() == width);
    assert(t =~= w + seq!['.'] + padded);
    assert(t.take(t.len() - width - 1) =~= w);
    assert(t.skip(t.len() - width) =~= padded);
    assert(digits_value(padded) == digits_value(f)) by {
        if f.len() < width {
        } else {
        }
    }
    assert((value / div) * div + value % div == value) by (nonlinear_arith)
        requires
            div >= 1,
    ;
}

proof fn lemma_pow10_positive(w: nat)
    ensures
        pow10(w) >= 1,
    decreases w,
{
    if w > 0 {
        lemma_pow10_positive((w - 1) as nat);
    }
}

} // verus!
