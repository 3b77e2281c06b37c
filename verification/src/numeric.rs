//! Recognisers for the numeric fields of a sample row: an unsigned 32-bit
//! decimal index and floating-point literals.

use crate::text::{char_is_digit, digit_value, is_digit, to_chars};
use vstd::prelude::*;

verus! {

/// Why a field is not an unsigned 32-bit decimal integer.
#[derive(Debug, Clone, Copy, PartialEq, Eq, Structural)]
pub enum IntegerFault {
    /// The field is empty.
    Empty,
    /// The field holds a character that is not a digit, or a sign alone.
    InvalidDigit,
    /// The digits denote a number above `u32::MAX`.
    TooLarge,
}

/// Why a field is not a floating-point literal.
#[derive(Debug, Clone, Copy, PartialEq, Eq, Structural)]
pub enum FloatFault {
    /// The field is empty.
    Empty,
    /// The field does not follow the literal grammar.
    Invalid,
}

impl IntegerFault {
    pub open spec fn text(self) -> Seq<char> {
        match self {
            IntegerFault::Empty => "cannot parse integer from empty string"@,
            IntegerFault::InvalidDigit => "invalid digit found in string"@,
            IntegerFault::TooLarge => "number too large to fit in target type"@,
        }
    }

    /// The fault in words.
    pub fn describe(&self) -> (s: &'static str)
        ensures
            s@ == self.text(),
    {
        match self {
            IntegerFault::Empty => "cannot parse integer from empty string",
            IntegerFault::InvalidDigit => "invalid digit found in string",
            IntegerFault::TooLarge => "number too large to fit in target type",
        }
    }
}

impl FloatFault {
    pub open spec fn text(self) -> Seq<char> {
        match self {
            FloatFault::Empty => "cannot parse float from empty string"@,
            FloatFault::Invalid => "invalid float literal"@,
        }
    }

    /// The fault in words.
    pub fn describe(&self) -> (s: &'static str)
        ensures
            s@ == self.text(),
    {
        match self {
            FloatFault::Empty => "cannot parse float from empty string",
            FloatFault::Invalid => "invalid float literal",
        }
    }
}

/// Reads `s` as a run of decimal digits, left to right, stopping at the first
/// character that is no digit or that takes the value above `u32::MAX`.
pub open spec fn accumulate_digits(s: Seq<char>) -> Result<nat, IntegerFault>
    decreases s.len(),
{
    if s.len() == 0 {
        Ok(0)
    } else {
        match accumulate_digits(s.drop_last()) {
            Err(fault) => Err(fault),
            Ok(n) => if !is_digit(s.last()) {
                Err(IntegerFault::InvalidDigit)
            } else if n * 10 + digit_value(s.last()) > u32::MAX {
                Err(IntegerFault::TooLarge)
            } else {
                Ok(n * 10 + digit_value(s.last()))
            },
        }
    }
}

/// The unsigned 32-bit integer that `s` denotes: an optional `+`, then one
/// or more decimal digits whose value fits.
pub open spec fn parse_u32(s: Seq<char>) -> Result<u32, IntegerFault> {
    if s.len() == 0 {
        Err(IntegerFault::Empty)
    } else if s.len() == 1 && (s[0] == '+' || s[0] == '-') {
        Err(IntegerFault::InvalidDigit)
    } else {
        let digits = if s[0] == '+' {
            s.skip(1)
        } else {
            s
        };
        match accumulate_digits(digits) {
            Ok(n) => Ok(n as u32),
            Err(fault) => Err(fault),
        }
    }
}

/// The signs that a number may start with.
pub open spec fn is_sign(c: char) -> bool {
    c == '+' || c == '-'
}

/// `s` holds nothing but decimal digits.
pub open spec fn all_digits(s: Seq<char>) -> bool {
    forall|i: int| 0 <= i < s.len() ==> is_digit(#[trigger] s[i])
}

/// `s` spells the word given in lower and in upper case, each letter in either case.
pub open spec fn is_word(s: Seq<char>, lower: Seq<char>, upper: Seq<char>) -> bool {
    &&& s.len() == lower.len()
    &&& forall|i: int| 0 <= i < s.len() ==> s[i] == lower[i] || s[i] == upper[i]
}

/// A mantissa: one or more digits, or digits with one point before, among
/// or after them, at least one digit in all.
pub open spec fn is_mantissa(s: Seq<char>) -> bool {
    ||| s.len() >= 1 && all_digits(s)
    ||| s.len() >= 2 && exists|k: int|
        0 <= k < s.len() && s[k] == '.' && all_digits(#[trigger] s.take(k)) && all_digits(
            s.skip(k + 1),
        )
}

/// An exponent: `e` or `E`, an optional sign, one or more digits.
pub open spec fn is_exponent(s: Seq<char>) -> bool {
    &&& s.len() >= 2
    &&& (s[0] == 'e' || s[0] == 'E')
    &&& {
        ||| all_digits(s.skip(1))
        ||| s.len() >= 3 && is_sign(s[1]) && all_digits(s.skip(2))
    }
}

/// A decimal number: a mantissa, then an optional exponent.
pub open spec fn is_decimal_number(s: Seq<char>) -> bool {
    exists|m: int|
        0 <= m <= s.len() && is_mantissa(#[trigger] s.take(m)) && (m == s.len() || is_exponent(
            s.skip(m),
        ))
}

/// A floating-point literal: an optional sign, then a decimal number or one
/// of `inf`, `infinity`, `nan` in any case.
pub open spec fn is_float_literal(s: Seq<char>) -> bool {
    let body = if s.len() > 0 && is_sign(s[0]) {
        s.skip(1)
    } else {
        s
    };
    ||| is_decimal_number(body)
    ||| is_word(body, "inf"@, "INF"@)
    ||| is_word(body, "infinity"@, "INFINITY"@)
    ||| is_word(body, "nan"@, "NAN"@)
}

/// The number of decimal digits at the start of `s`.
pub open spec fn digit_run(s: Seq<char>) -> nat
    decreases s.len(),
{
    if s.len() > 0 && is_digit(s[0]) {
        1 + digit_run(s.skip(1))
    } else {
        0
    }
}

/// Reads `s` as an exponent, taking digits as long as they come.
pub open spec fn scan_exponent(s: Seq<char>) -> bool {
    &&& s.len() >= 2
    &&& (s[0] == 'e' || s[0] == 'E')
    &&& {
        let digits = if is_sign(s[1]) {
            s.skip(2)
        } else {
            s.skip(1)
        };
        digits.len() > 0 && digit_run(digits) == digits.len()
    }
}

/// Reads `s` as a decimal number, taking digits as long as they come:
/// the digits before the point, the point and the digits after it, the
/// exponent.
pub open spec fn scan_decimal_number(s: Seq<char>) -> bool {
    let int_len = digit_run(s);
    let after_int = s.skip(int_len as int);
    if after_int.len() > 0 && after_int[0] == '.' {
        let frac_len = digit_run(after_int.skip(1));
        let rest = after_int.skip(1 + frac_len as int);
        int_len + frac_len > 0 && (rest.len() == 0 || scan_exponent(rest))
    } else {
        int_len > 0 && (after_int.len() == 0 || scan_exponent(after_int))
    }
}

/// The digits counted at the start of `s` are digits, no more than `s`
/// holds, and what follows them is no digit.
pub proof fn lemma_digit_run(s: Seq<char>)
    ensures
        digit_run(s) <= s.len(),
        all_digits(s.take(digit_run(s) as int)),
        forall|i: int| 0 <= i < digit_run(s) ==> is_digit(#[trigger] s[i]),
        digit_run(s) < s.len() ==> !is_digit(s[digit_run(s) as int]),
    decreases s.len(),
{
    if s.len() > 0 && is_digit(s[0]) {
        let rest = s.skip(1);
        lemma_digit_run(rest);
        assert forall|i: int| 0 <= i < digit_run(s) implies is_digit(#[trigger] s[i]) by {
            if i > 0 {
                assert(s[i] == rest[i - 1]);
            }
        }
        if digit_run(s) < s.len() {
            assert(s[digit_run(s) as int] == rest[digit_run(rest) as int]);
        }
    }
}

/// Digits up to a character that is none are counted in full.
pub proof fn lemma_digit_run_stops(s: Seq<char>, k: int)
    requires
        0 <= k <= s.len(),
        all_digits(s.take(k)),
        k < s.len() ==> !is_digit(s[k]),
    ensures
        digit_run(s) == k,
    decreases k,
{
    if k > 0 {
        assert(s[0] == s.take(k)[0]);
        let rest = s.skip(1);
        assert forall|i: int| 0 <= i < k - 1 implies is_digit(#[trigger] rest.take(k - 1)[i]) by {
            assert(rest.take(k - 1)[i] == s.take(k)[i + 1]);
        }
        lemma_digit_run_stops(rest, k - 1);
    }
}

/// Text is all digits exactly if its digits are counted to its end.
pub proof fn lemma_all_digits_counted(s: Seq<char>)
    ensures
        all_digits(s) <==> digit_run(s) == s.len(),
{
    lemma_digit_run(s);
    if all_digits(s) {
        assert(s.take(s.len() as int) == s);
        lemma_digit_run_stops(s, s.len() as int);
    }
}

/// Reading an exponent digit by digit accepts exactly the exponents.
pub proof fn lemma_scan_exponent(s: Seq<char>)
    ensures
        scan_exponent(s) == is_exponent(s),
{
    if s.len() >= 2 && (s[0] == 'e' || s[0] == 'E') {
        lemma_all_digits_counted(s.skip(1));
        lemma_all_digits_counted(s.skip(2));
        if is_sign(s[1]) {
            assert(s.skip(1)[0] == s[1]);
        }
    }
}

/// Reading a decimal number digit by digit accepts exactly the decimal numbers.
pub proof fn lemma_scan_decimal_number(s: Seq<char>)
    ensures
        scan_decimal_number(s) == is_decimal_number(s),
{
    lemma_digit_run(s);
    let a = digit_run(s) as int;
    let after_int = s.skip(a);
    if scan_decimal_number(s) {
        if after_int.len() > 0 && after_int[0] == '.' {
            let frac = after_int.skip(1);
            lemma_digit_run(frac);
            let f = digit_run(frac) as int;
            let rest = after_int.skip(1 + f);
            let m = a + 1 + f;
            let mantissa = s.take(m);
            assert(mantissa[a] == '.');
            assert(mantissa.take(a) == s.take(a));
            assert(mantissa.skip(a + 1) == frac.take(f));
            assert(is_mantissa(mantissa));
            assert(s.skip(m) == rest);
            lemma_scan_exponent(rest);
            assert(is_decimal_number(s));
        } else {
            let mantissa = s.take(a);
            assert(is_mantissa(mantissa));
            lemma_scan_exponent(after_int);
            assert(is_decimal_number(s));
        }
    }
    if is_decimal_number(s) {
        let m = choose|m: int|
            0 <= m <= s.len() && is_mantissa(#[trigger] s.take(m)) && (m == s.len() || is_exponent(
                s.skip(m),
            ));
        let mantissa = s.take(m);
        let tail = s.skip(m);
        lemma_scan_exponent(tail);
        if m < s.len() {
            assert(tail[0] == s[m]);
        }
        if mantissa.len() >= 1 && all_digits(mantissa) {
            lemma_digit_run_stops(s, m);
            assert(after_int == tail);
        } else {
            let k = choose|k: int|
                0 <= k < mantissa.len() && mantissa[k] == '.' && all_digits(
                    #[trigger] mantissa.take(k),
                ) && all_digits(mantissa.skip(k + 1));
            assert(mantissa.take(k) == s.take(k));
            assert(s[k] == mantissa[k]);
            lemma_digit_run_stops(s, k);
            assert(after_int[0] == s[k]);
            let frac = after_int.skip(1);
            assert(frac == s.skip(k + 1));
            assert(frac.take(m - k - 1) == mantissa.skip(k + 1));
            if m < s.len() {
                assert(frac[m - k - 1] == s[m]);
            }
            lemma_digit_run_stops(frac, m - k - 1);
            assert(after_int.skip(1 + (m - k - 1)) == tail);
        }
        assert(scan_decimal_number(s));
    }
}

/// What keeps `s` from being a floating-point literal, if anything does.
pub open spec fn check_float(s: Seq<char>) -> Result<(), FloatFault> {
    if s.len() == 0 {
        Err(FloatFault::Empty)
    } else if is_float_literal(s) {
        Ok(())
    } else {
        Err(FloatFault::Invalid)
    }
}

/// The number that a run of decimal digits denotes.
pub open spec fn decimal_value(s: Seq<char>) -> nat
    decreases s.len(),
{
    if s.len() == 0 {
        0
    } else {
        decimal_value(s.drop_last()) * 10 + digit_value(s.last())
    }
}

/// Digits are read as the number they denote if it fits in 32 bits and as
/// too large if it does not; text with another character among it is never
/// read as a number.
pub proof fn lemma_accumulate_digits(s: Seq<char>)
    ensures
        all_digits(s) && decimal_value(s) <= u32::MAX ==> accumulate_digits(s) == Ok::<
            nat,
            IntegerFault,
        >(decimal_value(s)),
        all_digits(s) && decimal_value(s) > u32::MAX ==> accumulate_digits(s) == Err::<
            nat,
            IntegerFault,
        >(IntegerFault::TooLarge),
        !all_digits(s) ==> accumulate_digits(s) is Err,
        accumulate_digits(s) == Err::<nat, IntegerFault>(IntegerFault::InvalidDigit)
            ==> !all_digits(s),
    decreases s.len(),
{
    if s.len() > 0 {
        let front = s.drop_last();
        lemma_accumulate_digits(front);
        assert(s.last() == s[s.len() - 1]);
        if all_digits(s) {
            assert forall|i: int| 0 <= i < front.len() implies is_digit(#[trigger] front[i]) by {
                assert(front[i] == s[i]);
            }
        }
        if all_digits(front) && is_digit(s.last()) {
            assert forall|i: int| 0 <= i < s.len() implies is_digit(#[trigger] s[i]) by {
                if i < s.len() - 1 {
                    assert(s[i] == front[i]);
                }
            }
        }
        if !all_digits(front) {
            let i = choose|i: int| 0 <= i < front.len() && !is_digit(#[trigger] front[i]);
            assert(s[i] == front[i]);
        }
    }
}

/// A fault met while reading a prefix is the fault of the whole.
pub proof fn lemma_accumulate_fault_stays(s: Seq<char>, k: int)
    requires
        0 <= k <= s.len(),
        accumulate_digits(s.take(k)) is Err,
    ensures
        accumulate_digits(s) == accumulate_digits(s.take(k)),
    decreases s.len() - k,
{
    if k == s.len() {
        assert(s.take(k) == s);
    } else {
        assert(s.take(k + 1).drop_last() == s.take(k));
        lemma_accumulate_fault_stays(s, k + 1);
    }
}

/// Reads `v[lo..hi]` as an unsigned 32-bit decimal integer.
pub fn parse_u32_range(v: &Vec<char>, lo: usize, hi: usize) -> (r: Result<u32, IntegerFault>)
    requires
        lo <= hi <= v.len(),
    ensures
        r == parse_u32(v@.subrange(lo as int, hi as int)),
{
    let ghost s = v@.subrange(lo as int, hi as int);
    if lo == hi {
        return Err(IntegerFault::Empty);
    }
    if hi - lo == 1 && (v[lo] == '+' || v[lo] == '-') {
        return Err(IntegerFault::InvalidDigit);
    }
    let start: usize = if v[lo] == '+' {
        lo + 1
    } else {
        lo
    };
    let ghost digits = v@.subrange(start as int, hi as int);
    assert(digits == if s[0] == '+' {
        s.skip(1)
    } else {
        s
    });
    let mut acc: u32 = 0;
    let mut i: usize = start;
    assert(digits.take(0) == Seq::<char>::empty());
    while i < hi
        invariant
            lo <= start <= i <= hi <= v.len(),
            digits == v@.subrange(start as int, hi as int),
            s == v@.subrange(lo as int, hi as int),
            parse_u32(s) == match accumulate_digits(digits) {
                Ok(n) => Ok::<u32, IntegerFault>(n as u32),
                Err(fault) => Err(fault),
            },
            accumulate_digits(digits.take(i - start)) == Ok::<nat, IntegerFault>(acc as nat),
        decreases hi - i,
    {
        let c = v[i];
        proof {
            assert(digits.take(i - start + 1).drop_last() == digits.take(i - start));
            assert(digits.take(i - start + 1).last() == c);
        }
        if !char_is_digit(c) {
            proof {
                lemma_accumulate_fault_stays(digits, i - start + 1);
            }
            return Err(IntegerFault::InvalidDigit);
        }
        let d: u32 = c as u32 - 48;
        if acc > 429496729 || (acc == 429496729 && d > 5) {
            proof {
                lemma_accumulate_fault_stays(digits, i - start + 1);
            }
            return Err(IntegerFault::TooLarge);
        }
        acc = acc * 10 + d;
        i += 1;
    }
    assert(digits.take(hi - start) == digits);
    Ok(acc)
}

/// The index just past the decimal digits that start at `from`.
pub fn digit_run_end(v: &Vec<char>, from: usize, hi: usize) -> (end: usize)
    requires
        from <= hi <= v.len(),
    ensures
        from <= end <= hi,
        end - from == digit_run(v@.subrange(from as int, hi as int)),
{
    let mut i: usize = from;
    while i < hi && char_is_digit(v[i])
        invariant
            from <= i <= hi <= v.len(),
            digit_run(v@.subrange(from as int, hi as int)) == (i - from) + digit_run(
                v@.subrange(i as int, hi as int),
            ),
        decreases hi - i,
    {
        assert(v@.subrange(i as int, hi as int).skip(1) == v@.subrange(i + 1, hi as int));
        i += 1;
    }
    i
}

/// Whether `v[lo..hi]` is an exponent.
pub fn is_exponent_range(v: &Vec<char>, lo: usize, hi: usize) -> (r: bool)
    requires
        lo <= hi <= v.len(),
    ensures
        r == is_exponent(v@.subrange(lo as int, hi as int)),
{
    let ghost s = v@.subrange(lo as int, hi as int);
    if hi - lo < 2 {
        return false;
    }
    if !(v[lo] == 'e' || v[lo] == 'E') {
        return false;
    }
    assert(s[1] == v@[lo + 1]);
    let from: usize = if v[lo + 1] == '+' || v[lo + 1] == '-' {
        lo + 2
    } else {
        lo + 1
    };
    assert(v@.subrange(from as int, hi as int) == if is_sign(s[1]) {
        s.skip(2)
    } else {
        s.skip(1)
    });
    let end = digit_run_end(v, from, hi);
    proof {
        lemma_scan_exponent(s);
    }
    from < hi && end == hi
}

/// Whether `v[lo..hi]` is a decimal number.
pub fn is_decimal_number_range(v: &Vec<char>, lo: usize, hi: usize) -> (r: bool)
    requires
        lo <= hi <= v.len(),
    ensures
        r == is_decimal_number(v@.subrange(lo as int, hi as int)),
{
    let ghost s = v@.subrange(lo as int, hi as int);
    proof {
        lemma_scan_decimal_number(s);
    }
    let a = digit_run_end(v, lo, hi);
    assert(s.skip(a - lo) == v@.subrange(a as int, hi as int));
    if a < hi && v[a] == '.' {
        let b = digit_run_end(v, a + 1, hi);
        assert(s.skip(a - lo).skip(1) == v@.subrange(a + 1, hi as int));
        assert(s.skip(a - lo).skip(1 + (b - (a + 1))) == v@.subrange(b as int, hi as int));
        if (a - lo) + (b - (a + 1)) == 0 {
            return false;
        }
        proof {
            lemma_scan_exponent(v@.subrange(b as int, hi as int));
        }
        b == hi || is_exponent_range(v, b, hi)
    } else {
        if a == lo {
            return false;
        }
        proof {
            lemma_scan_exponent(v@.subrange(a as int, hi as int));
        }
        a == hi || is_exponent_range(v, a, hi)
    }
}

/// Whether `v[lo..hi]` spells the word given in both cases.
pub fn is_word_range(v: &Vec<char>, lo: usize, hi: usize, lower: &str, upper: &str) -> (r: bool)
    requires
        lo <= hi <= v.len(),
        lower@.len() == upper@.len(),
    ensures
        r == is_word(v@.subrange(lo as int, hi as int), lower@, upper@),
{
    let ghost s = v@.subrange(lo as int, hi as int);
    let x = to_chars(lower);
    let y = to_chars(upper);
    if hi - lo != x.len() {
        return false;
    }
    let mut i: usize = 0;
    while i < x.len()
        invariant
            i <= x.len(),
            x.len() == y.len(),
            x.len() == hi - lo,
            lo <= hi <= v.len(),
            x@ == lower@,
            y@ == upper@,
            s == v@.subrange(lo as int, hi as int),
            forall|k: int| 0 <= k < i ==> s[k] == x@[k] || s[k] == y@[k],
        decreases x.len() - i,
    {
        let c = v[lo + i];
        if c != x[i] && c != y[i] {
            assert(s[i as int] == c);
            return false;
        }
        i += 1;
    }
    true
}

/// Checks `v[lo..hi]` against the floating-point literal grammar.
pub fn check_float_range(v: &Vec<char>, lo: usize, hi: usize) -> (r: Result<(), FloatFault>)
    requires
        lo <= hi <= v.len(),
    ensures
        r == check_float(v@.subrange(lo as int, hi as int)),
{
    let ghost s = v@.subrange(lo as int, hi as int);
    if lo == hi {
        return Err(FloatFault::Empty);
    }
    let from: usize = if v[lo] == '+' || v[lo] == '-' {
        lo + 1
    } else {
        lo
    };
    assert(v@.subrange(from as int, hi as int) == if s.len() > 0 && is_sign(s[0]) {
        s.skip(1)
    } else {
        s
    });
    proof {
        reveal_strlit("inf");
        reveal_strlit("INF");
        reveal_strlit("infinity");
        reveal_strlit("INFINITY");
        reveal_strlit("nan");
        reveal_strlit("NAN");
    }
    if is_decimal_number_range(v, from, hi) || is_word_range(v, from, hi, "inf", "INF")
        || is_word_range(v, from, hi, "infinity", "INFINITY") || is_word_range(
        v,
        from,
        hi,
        "nan",
        "NAN",
    ) {
        Ok(())
    } else {
        Err(FloatFault::Invalid)
    }
}

} // verus!
