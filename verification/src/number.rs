//! Numbers as the provider writes them: whole numbers and decimal fractions in
//! decimal digits, read from text and written to text.

use vstd::prelude::*;
use crate::error::Cause;
use crate::text::{after_first, before_first, cut_at_first};

verus! {

/// The most digits a [`Decimal`] may have after its point: with so many, the
/// power of ten they are counted in still fits in 64 bits.
pub const MAX_PLACES: u8 = 19;

/// A non-negative decimal fraction, held exactly: `units` counted in the
/// `places`-th negative power of ten. `2.0884` is 20884 units at 4 places.
#[derive(Clone, Copy, Debug, PartialEq, Eq, Structural)]
pub struct Decimal {
    /// All the digits of the number, read as one whole number.
    pub units: u64,
    /// How many of the digits stand after the point.
    pub places: u8,
}

impl Decimal {
    /// Whether the number of places is one that a decimal may have.
    pub open spec fn wf(self) -> bool {
        self.places <= MAX_PLACES
    }
}

/// Ten to the power `n`.
pub open spec fn pow10(n: nat) -> nat
    decreases n,
{
    if n == 0 {
        1
    } else {
        10 * pow10((n - 1) as nat)
    }
}

/// Whether `c` is one of the ten digits `0` to `9`.
pub open spec fn is_digit(c: char) -> bool {
    '0' <= c <= '9'
}

/// The number that the digit `c` stands for.
pub open spec fn digit_value(c: char) -> nat
    recommends
        is_digit(c),
{
    (c as int - '0' as int) as nat
}

/// The digit that stands for `d`.
pub open spec fn digit_char(d: nat) -> char
    recommends
        d < 10,
{
    (d + '0' as nat) as char
}

/// Whether `s` holds digits and nothing else.
pub open spec fn all_digits(s: Seq<char>) -> bool {
    forall|i: int| 0 <= i < s.len() ==> is_digit(#[trigger] s[i])
}

/// The number that the digits `s` stand for, the first digit counting most.
/// No digits stand for zero.
pub open spec fn digits_value(s: Seq<char>) -> nat
    decreases s.len(),
{
    if s.len() == 0 {
        0
    } else {
        10 * digits_value(s.drop_last()) + digit_value(s.last())
    }
}

/// `s` without the plus sign it may begin with.
pub open spec fn unsigned(s: Seq<char>) -> Seq<char> {
    if s.len() > 0 && s[0] == '+' {
        s.drop_first()
    } else {
        s
    }
}

/// The whole number written in `s`: an optional plus sign, then one digit or
/// more and nothing else. The number has to fit in 32 bits.
pub open spec fn whole_number(s: Seq<char>) -> Result<u32, Cause> {
    let digits = unsigned(s);
    if digits.len() == 0 || !all_digits(digits) {
        Err(Cause::NotANumber)
    } else if digits_value(digits) > u32::MAX {
        Err(Cause::OutOfRange)
    } else {
        Ok(digits_value(digits) as u32)
    }
}

/// The digits before the point of the decimal written in `s`.
pub open spec fn whole_digits(s: Seq<char>) -> Seq<char> {
    before_first(unsigned(s), '.')
}

/// The digits after the point of the decimal written in `s`, none where it
/// has no point.
pub open spec fn fraction_digits(s: Seq<char>) -> Seq<char> {
    match after_first(unsigned(s), '.') {
        Some(rest) => rest,
        None => Seq::empty(),
    }
}

/// The decimal written in `s`: an optional plus sign, digits, and optionally a
/// point and more digits, with a digit on at least one side of the point. No
/// minus sign and no exponent is read. The digits after the point may be at
/// most [`MAX_PLACES`], and all digits together, read as one whole number,
/// have to fit in 64 bits.
pub open spec fn decimal_number(s: Seq<char>) -> Result<Decimal, Cause> {
    let whole = whole_digits(s);
    let fraction = fraction_digits(s);
    if !all_digits(whole) || !all_digits(fraction) || whole.len() + fraction.len() == 0 {
        Err(Cause::NotANumber)
    } else if fraction.len() > MAX_PLACES || digits_value(whole + fraction) > u64::MAX {
        Err(Cause::OutOfRange)
    } else {
        Ok(Decimal { units: digits_value(whole + fraction) as u64, places: fraction.len() as u8 })
    }
}

/// `n` in decimal digits, without leading zeros; zero is one digit.
pub open spec fn decimal_digits(n: nat) -> Seq<char>
    decreases n,
{
    if n < 10 {
        seq![digit_char(n)]
    } else {
        decimal_digits(n / 10).push(digit_char(n % 10))
    }
}

/// The smaller of `n` and `cap`.
spec fn capped(n: nat, cap: nat) -> nat {
    if n < cap {
        n
    } else {
        cap
    }
}

/// Reads the digits `s` as the continuation of the digits `before`, whose
/// value below `cap` is `start`: the smaller of `cap` and the number that all
/// these digits stand for, or `None` where `s` holds anything but digits.
fn read_digits(s: &[char], start: u128, cap: u128, Ghost(before): Ghost<Seq<char>>) -> (r: Option<
    u128,
>)
    requires
        cap <= u64::MAX + 1,
        start == capped(digits_value(before), cap as nat),
    ensures
        match r {
            Some(v) => all_digits(s@) && v == capped(digits_value(before + s@), cap as nat),
            None => !all_digits(s@),
        },
{
    let mut acc: u128 = start;
    let mut i: usize = 0;
    assert(before + s@.take(0) == before);
    while i < s.len()
        invariant
            i <= s.len(),
            cap <= u64::MAX + 1,
            all_digits(s@.take(i as int)),
            acc == capped(digits_value(before + s@.take(i as int)), cap as nat),
        decreases s.len() - i,
    {
        let c = s[i];
        if c < '0' || c > '9' {
            return None;
        }
        let digit: u128 = (c as u32 - '0' as u32) as u128;
        proof {
            let read = before + s@.take(i as int);
            let now = before + s@.take(i + 1);
            assert(now.drop_last() == read);
            assert(now.last() == c);
            assert(s@.take(i + 1).drop_last() == s@.take(i as int));
        }
        acc = acc * 10 + digit;
        if acc > cap {
            acc = cap;
        }
        i += 1;
    }
    assert(s@.take(i as int) == s@);
    Some(acc)
}

/// Drops the plus sign that `s` may begin with.
fn skip_plus<'a>(s: &'a [char]) -> (r: &'a [char])
    ensures
        r@ == unsigned(s@),
{
    if s.len() > 0 && s[0] == '+' {
        vstd::slice::slice_subrange(s, 1, s.len())
    } else {
        s
    }
}

/// Reads the whole number written in `s`.
pub fn parse_whole(s: &[char]) -> (r: Result<u32, Cause>)
    ensures
        r == whole_number(s@),
{
    let digits = skip_plus(s);
    if digits.len() == 0 {
        return Err(Cause::NotANumber);
    }
    assert(Seq::<char>::empty() + digits@ == digits@);
    match read_digits(digits, 0, 0x1_0000_0000, Ghost(Seq::empty())) {
        None => Err(Cause::NotANumber),
        Some(v) => if v > 0xffff_ffff {
            Err(Cause::OutOfRange)
        } else {
            Ok(v as u32)
        },
    }
}

/// Reads the decimal written in `s`.
pub fn parse_decimal(s: &[char]) -> (r: Result<Decimal, Cause>)
    ensures
        r == decimal_number(s@),
{
    let (whole, rest) = cut_at_first(skip_plus(s), '.');
    let fraction = match rest {
        Some(rest) => rest,
        None => vstd::slice::slice_subrange(s, 0, 0),
    };
    assert(fraction@ == fraction_digits(s@));
    assert(Seq::<char>::empty() + whole@ == whole@);
    let cap: u128 = 0x1_0000_0000_0000_0000;
    let units: u128 = match read_digits(whole, 0, cap, Ghost(Seq::empty())) {
        None => { return Err(Cause::NotANumber); },
        Some(v) => v,
    };
    let units: u128 = match read_digits(fraction, units, cap, Ghost(whole@)) {
        None => { return Err(Cause::NotANumber); },
        Some(v) => v,
    };
    if whole.len() == 0 && fraction.len() == 0 {
        Err(Cause::NotANumber)
    } else if fraction.len() > MAX_PLACES as usize || units > 0xffff_ffff_ffff_ffff {
        Err(Cause::OutOfRange)
    } else {
        Ok(Decimal { units: units as u64, places: fraction.len() as u8 })
    }
}

/// A number written in decimal digits is read back as itself: its digits are
/// digits and nothing else, and they stand for the number.
pub proof fn lemma_written_number_is_read(n: nat)
    ensures
        decimal_digits(n).len() >= 1,
        all_digits(decimal_digits(n)),
        digits_value(decimal_digits(n)) == n,
        n <= u32::MAX ==> whole_number(decimal_digits(n)) == Ok::<u32, Cause>(n as u32),
    decreases n,
{
    let written = decimal_digits(n);
    if n < 10 {
        assert(written.drop_last() == Seq::<char>::empty());
        assert(digits_value(written) == 10 * digits_value(written.drop_last()) + digit_value(
            written.last(),
        ));
    } else {
        lemma_written_number_is_read(n / 10);
        assert(written.drop_last() == decimal_digits(n / 10));
    }
    assert(is_digit(written[0]));
}

/// Ten to the power `n` is positive, and grows with `n`.
pub proof fn lemma_pow10_grows(m: nat, n: nat)
    requires
        m <= n,
    ensures
        0 < pow10(m) <= pow10(n),
    decreases n,
{
    if n > 0 {
        if m < n {
            lemma_pow10_grows(m, (n - 1) as nat);
        } else {
            lemma_pow10_grows((m - 1) as nat, (n - 1) as nat);
        }
    }
}

/// Ten to the power `places`.
pub fn power_of_ten(places: u8) -> (r: u64)
    requires
        places <= MAX_PLACES,
    ensures
        r == pow10(places as nat),
        0 < r <= 10_000_000_000_000_000_000,
{
    proof {
        lemma_pow10_grows(0, MAX_PLACES as nat);
        assert(pow10(MAX_PLACES as nat) == 10_000_000_000_000_000_000) by {
            reveal_with_fuel(pow10, 20);
        }
    }
    let mut r: u64 = 1;
    let mut k: u8 = 0;
    while k < places
        invariant
            k <= places <= MAX_PLACES,
            r == pow10(k as nat),
            pow10(MAX_PLACES as nat) == 10_000_000_000_000_000_000,
        decreases places - k,
    {
        proof {
            lemma_pow10_grows((k + 1) as nat, MAX_PLACES as nat);
        }
        r = r * 10;
        k += 1;
    }
    proof {
        lemma_pow10_grows(places as nat, MAX_PLACES as nat);
    }
    r
}

/// Writes `n` in decimal digits at the end of `out`.
pub fn write_decimal(out: &mut String, n: u64)
    ensures
        final(out)@ == old(out)@ + decimal_digits(n as nat),
    decreases n,
{
    if n >= 10 {
        write_decimal(out, n / 10);
    }
    let digit = ((n % 10) as u8 + 48u8) as char;
    assert(digit == digit_char((n % 10) as nat));
    out.push(digit);
    proof {
        let written = decimal_digits(n as nat);
        if n >= 10 {
            let higher = decimal_digits((n / 10) as nat);
            assert(old(out)@ + written == (old(out)@ + higher).push(digit));
        } else {
            assert(old(out)@ + written == old(out)@.push(digit));
        }
    }
}

} // verus!
