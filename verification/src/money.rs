//! Amounts of money: reading what a person typed, and writing an amount of
//! minor units for people to read.
use vstd::prelude::*;
use vstd::string::*;

use crate::text::{
    all_digits, chars_of, decimal, decimal_string, digit_value, digits_value, find_char, first_index,
    is_digit, lemma_first_index,
    is_whitespace, is_whitespace_char, lemma_decimal, pad_zeros, pad_zeros_string,
};

verus! {

/// The most fraction digits a currency may have.
pub const MAX_FRACTION_DIGITS: u32 = 9;

/// Why a typed amount was refused.
#[derive(Clone, Copy, Debug, PartialEq, Eq, Structural)]
pub enum ParseAmountError {
    Empty,
    NotANumber,
    TooPrecise { allowed: u32 },
    TooLarge,
}

/// What each refusal says to the person who typed the amount.
pub open spec fn parse_error_text(e: ParseAmountError) -> Seq<char> {
    match e {
        ParseAmountError::Empty => "no amount given"@,
        ParseAmountError::NotANumber => "not a valid amount"@,
        ParseAmountError::TooPrecise { allowed } => "at most "@ + decimal(allowed as nat)
            + " decimal places are allowed"@,
        ParseAmountError::TooLarge => "amount is too large"@,
    }
}

impl ParseAmountError {
    /// The refusal as a sentence.
    pub fn to_string(&self) -> (r: String)
        ensures
            r@ == parse_error_text(*self),
    {
        match self {
            ParseAmountError::Empty => String::from_str("no amount given"),
            ParseAmountError::NotANumber => String::from_str("not a valid amount"),
            ParseAmountError::TooPrecise { allowed } => {
                let mut r = String::from_str("at most ");
                let n = decimal_string(*allowed as u64);
                r.append(n.as_str());
                r.append(" decimal places are allowed");
                r
            },
            ParseAmountError::TooLarge => String::from_str("amount is too large"),
        }
    }
}

/// Ten to the power `e`.
pub open spec fn pow10(e: nat) -> nat
    decreases e,
{
    if e == 0 {
        1
    } else {
        10 * pow10((e - 1) as nat)
    }
}

/// `s` without its leading whitespace.
pub open spec fn trim_front(s: Seq<char>) -> Seq<char>
    decreases s.len(),
{
    if s.len() > 0 && is_whitespace(s[0]) {
        trim_front(s.drop_first())
    } else {
        s
    }
}

/// `s` without its trailing whitespace.
pub open spec fn trim_back(s: Seq<char>) -> Seq<char>
    decreases s.len(),
{
    if s.len() > 0 && is_whitespace(s.last()) {
        trim_back(s.drop_last())
    } else {
        s
    }
}

/// `s` without whitespace at either end, as `str::trim` gives it.
pub open spec fn trim(s: Seq<char>) -> Seq<char> {
    trim_back(trim_front(s))
}

/// `s` without one leading `+`.
pub open spec fn strip_plus(s: Seq<char>) -> Seq<char> {
    if s.len() > 0 && s[0] == '+' {
        s.drop_first()
    } else {
        s
    }
}

/// Index of the first `.` in `s`, or its length if there is none.
pub open spec fn first_dot(s: Seq<char>) -> nat {
    first_index(s, '.')
}

/// The digits before the decimal point.
pub open spec fn whole_part(u: Seq<char>) -> Seq<char> {
    u.subrange(0, first_dot(u) as int)
}

/// The digits after the decimal point.
pub open spec fn fraction_part(u: Seq<char>) -> Seq<char> {
    if first_dot(u) < u.len() {
        u.subrange(first_dot(u) as int + 1, u.len() as int)
    } else {
        Seq::empty()
    }
}

/// The amount of minor units that `whole.fraction` stands for with `digits`
/// fraction digits.
pub open spec fn minor_units(whole: Seq<char>, fraction: Seq<char>, digits: nat) -> nat {
    digits_value(whole) * pow10(digits) + digits_value(fraction) * pow10(
        (digits - fraction.len()) as nat,
    )
}

/// What `parse_amount` gives for `input` with a currency of `digits` fraction digits.
pub open spec fn parse_amount_spec(input: Seq<char>, digits: u32) -> Result<i64, ParseAmountError> {
    let u = strip_plus(trim(input));
    let whole = whole_part(u);
    let fraction = fraction_part(u);
    if u.len() == 0 {
        Err(ParseAmountError::Empty)
    } else if whole.len() == 0 && fraction.len() == 0 {
        Err(ParseAmountError::NotANumber)
    } else if !all_digits(whole) || !all_digits(fraction) {
        Err(ParseAmountError::NotANumber)
    } else if fraction.len() > digits {
        Err(ParseAmountError::TooPrecise { allowed: digits })
    } else if digits > 18 || minor_units(whole, fraction, digits as nat) > i64::MAX {
        Err(ParseAmountError::TooLarge)
    } else {
        Ok(minor_units(whole, fraction, digits as nat) as i64)
    }
}

pub proof fn lemma_pow10_positive(e: nat)
    ensures
        pow10(e) >= 1,
    decreases e,
{
    if e > 0 {
        lemma_pow10_positive((e - 1) as nat);
    }
}

pub proof fn lemma_pow10_monotone(a: nat, b: nat)
    requires
        a <= b,
    ensures
        pow10(a) <= pow10(b),
    decreases b,
{
    if a < b {
        lemma_pow10_monotone(a, (b - 1) as nat);
        lemma_pow10_positive((b - 1) as nat);
    }
}

pub proof fn lemma_pow10_18()
    ensures
        pow10(18) == 1_000_000_000_000_000_000,
{
    reveal_with_fuel(pow10, 19);
}

/// Characterises `trim_front` by where the first non-whitespace character is.
pub proof fn lemma_trim_front(s: Seq<char>, k: int)
    requires
        0 <= k <= s.len(),
        forall|i: int| 0 <= i < k ==> is_whitespace(#[trigger] s[i]),
        k == s.len() || !is_whitespace(s[k]),
    ensures
        trim_front(s) == s.subrange(k, s.len() as int),
    decreases k,
{
    if k == 0 {
        assert(s.subrange(0, s.len() as int) =~= s);
    } else {
        let t = s.drop_first();
        assert forall|i: int| 0 <= i < k - 1 implies is_whitespace(#[trigger] t[i]) by {
            assert(t[i] == s[i + 1]);
        }
        lemma_trim_front(t, k - 1);
        assert(t.subrange(k - 1, t.len() as int) =~= s.subrange(k, s.len() as int));
    }
}

/// Trimming the end never removes a first character that is not whitespace.
pub proof fn lemma_trim_back_keeps_first(s: Seq<char>)
    requires
        s.len() > 0,
        !is_whitespace(s[0]),
    ensures
        trim_back(s).len() > 0,
    decreases s.len(),
{
    if s.len() > 1 && is_whitespace(s.last()) {
        assert(s.drop_last()[0] == s[0]);
        lemma_trim_back_keeps_first(s.drop_last());
    }
}

/// Characterises `trim_back` by where the last non-whitespace character is.
pub proof fn lemma_trim_back(s: Seq<char>, m: int)
    requires
        0 <= m <= s.len(),
        forall|i: int| m <= i < s.len() ==> is_whitespace(#[trigger] s[i]),
        m == 0 || !is_whitespace(s[m - 1]),
    ensures
        trim_back(s) == s.subrange(0, m),
    decreases s.len() - m,
{
    if m == s.len() {
        assert(s.subrange(0, m) =~= s);
    } else {
        let t = s.drop_last();
        assert forall|i: int| m <= i < t.len() implies is_whitespace(#[trigger] t[i]) by {
            assert(t[i] == s[i]);
        }
        lemma_trim_back(t, m);
        assert(t.subrange(0, m) =~= s.subrange(0, m));
    }
}

/// A longer prefix of a numeral is worth at least as much.
pub proof fn lemma_digits_value_prefix(s: Seq<char>, k: int)
    requires
        0 <= k <= s.len(),
    ensures
        digits_value(s.subrange(0, k)) <= digits_value(s),
    decreases s.len(),
{
    if k < s.len() {
        assert(s.drop_last() =~= s.subrange(0, s.len() - 1));
        lemma_digits_value_prefix(s.drop_last(), k);
        assert(s.drop_last().subrange(0, k) =~= s.subrange(0, k));
    } else {
        assert(s.subrange(0, k) =~= s);
    }
}

/// The value of a numeral in a range of `chars`, if it fits in an `i64`.
fn digits_in(chars: &Vec<char>, from: usize, to: usize) -> (r: Option<u64>)
    requires
        from <= to <= chars@.len(),
        all_digits(chars@.subrange(from as int, to as int)),
    ensures
        match r {
            Some(v) => v == digits_value(chars@.subrange(from as int, to as int)) && v
                <= i64::MAX,
            None => digits_value(chars@.subrange(from as int, to as int)) > i64::MAX,
        },
{
    let ghost s = chars@.subrange(from as int, to as int);
    let mut acc: u64 = 0;
    let mut i: usize = from;
    while i < to
        invariant
            from <= i <= to <= chars@.len(),
            s == chars@.subrange(from as int, to as int),
            all_digits(s),
            acc == digits_value(s.subrange(0, i - from)),
            acc <= i64::MAX,
        decreases to - i,
    {
        let c = chars[i];
        assert(c == s[i - from]);
        assert(is_digit(s[i - from]));
        let d = (c as u32 - 48) as u64;
        assert(s.subrange(0, i - from + 1).drop_last() =~= s.subrange(0, i - from));
        assert(d == digit_value(c));
        if acc > 922337203685477580 || (acc == 922337203685477580 && d > 7) {
            proof {
                assert(digits_value(s.subrange(0, i - from + 1)) == acc * 10 + d);
                lemma_digits_value_prefix(s, i - from + 1);
            }
            return None;
        }
        acc = acc * 10 + d;
        i = i + 1;
    }
    assert(s.subrange(0, to - from) =~= s);
    Some(acc)
}

/// Ten to the power `e`, for `e` up to 18.
fn pow10_u64(e: u32) -> (r: u64)
    requires
        e <= 18,
    ensures
        r == pow10(e as nat),
        r <= 1_000_000_000_000_000_000,
{
    let mut r: u64 = 1;
    let mut k: u32 = 0;
    proof {
        lemma_pow10_18();
    }
    while k < e
        invariant
            k <= e <= 18,
            r == pow10(k as nat),
            pow10(18) == 1_000_000_000_000_000_000,
        decreases e - k,
    {
        proof {
            lemma_pow10_monotone((k + 1) as nat, 18);
        }
        r = r * 10;
        k = k + 1;
    }
    proof {
        lemma_pow10_monotone(e as nat, 18);
    }
    r
}

/// The bounds of `chars` once whitespace is trimmed from both ends.
fn trim_bounds(chars: &Vec<char>) -> (r: (usize, usize))
    ensures
        r.0 <= r.1 <= chars@.len(),
        trim(chars@) == chars@.subrange(r.0 as int, r.1 as int),
{
    let n = chars.len();
    let ghost s = chars@;
    let mut a: usize = 0;
    while a < n && is_whitespace_char(chars[a])
        invariant
            s == chars@,
            n == s.len(),
            a <= n,
            forall|i: int| 0 <= i < a ==> is_whitespace(#[trigger] s[i]),
        decreases n - a,
    {
        a = a + 1;
    }
    proof {
        lemma_trim_front(s, a as int);
    }
    let mut b: usize = n;
    while b > a && is_whitespace_char(chars[b - 1])
        invariant
            s == chars@,
            n == s.len(),
            a <= b <= n,
            forall|i: int| b <= i < n ==> is_whitespace(#[trigger] s[i]),
        decreases b,
    {
        b = b - 1;
    }
    proof {
        let t = s.subrange(a as int, n as int);
        assert forall|i: int| b - a <= i < t.len() implies is_whitespace(#[trigger] t[i]) by {
            assert(t[i] == s[i + a]);
        }
        lemma_trim_back(t, b - a);
        assert(t.subrange(0, b - a) =~= s.subrange(a as int, b as int));
    }
    (a, b)
}

/// Whether every character of `chars[a..b]` is a decimal digit.
fn digits_only(chars: &Vec<char>, a: usize, b: usize) -> (r: bool)
    requires
        a <= b <= chars@.len(),
    ensures
        r == all_digits(chars@.subrange(a as int, b as int)),
{
    let ghost t = chars@.subrange(a as int, b as int);
    let mut i: usize = a;
    while i < b
        invariant
            a <= i <= b <= chars@.len(),
            t == chars@.subrange(a as int, b as int),
            forall|j: int| 0 <= j < i - a ==> is_digit(#[trigger] t[j]),
        decreases b - i,
    {
        if !('0' <= chars[i] && chars[i] <= '9') {
            assert(t[i - a] == chars@[i as int]);
            assert(!is_digit(t[i - a]));
            return false;
        }
        assert(t[i - a] == chars@[i as int]);
        i = i + 1;
    }
    true
}

/// `whole * 10^digits + fraction * 10^(digits - fraction digits)`, if it fits in an `i64`.
fn combine(chars: &Vec<char>, a: usize, p: usize, fs: usize, b: usize, digits: u32) -> (r: Option<
    i64,
>)
    requires
        a <= p <= fs <= b <= chars@.len(),
        all_digits(chars@.subrange(a as int, p as int)),
        all_digits(chars@.subrange(fs as int, b as int)),
        b - fs <= digits <= 18,
    ensures
        ({
            let v = minor_units(
                chars@.subrange(a as int, p as int),
                chars@.subrange(fs as int, b as int),
                digits as nat,
            );
            match r {
                Some(x) => x == v && v <= i64::MAX,
                None => v > i64::MAX,
            }
        }),
{
    let ghost whole = chars@.subrange(a as int, p as int);
    let ghost fraction = chars@.subrange(fs as int, b as int);
    let ghost value = minor_units(whole, fraction, digits as nat);
    let ghost fe = (digits - fraction.len()) as nat;
    proof {
        lemma_pow10_positive(digits as nat);
        lemma_pow10_positive(fe);
        let x = digits_value(whole);
        let y = digits_value(fraction);
        let pw = pow10(digits as nat);
        let pf = pow10(fe);
        assert(x * pw >= x && y * pf >= y) by (nonlinear_arith)
            requires
                pw >= 1,
                pf >= 1,
        ;
    }
    let w = match digits_in(chars, a, p) {
        Some(w) => w,
        None => {
            return None;
        },
    };
    let f = match digits_in(chars, fs, b) {
        Some(f) => f,
        None => {
            return None;
        },
    };
    let scale = pow10_u64(digits);
    let fscale = pow10_u64(digits - (b - fs) as u32);
    assert((w as u128) * (scale as u128) <= 9_223_372_036_854_775_807u128
        * 1_000_000_000_000_000_000u128) by (nonlinear_arith)
        requires
            w <= i64::MAX,
            scale <= 1_000_000_000_000_000_000u64,
    ;
    assert((f as u128) * (fscale as u128) <= 9_223_372_036_854_775_807u128
        * 1_000_000_000_000_000_000u128) by (nonlinear_arith)
        requires
            f <= i64::MAX,
            fscale <= 1_000_000_000_000_000_000u64,
    ;
    let total: u128 = (w as u128) * (scale as u128) + (f as u128) * (fscale as u128);
    assert(total == value);
    if total > 9_223_372_036_854_775_807u128 {
        return None;
    }
    Some(total as i64)
}

/// Reads an amount typed by a person, such as `12.5`, as minor units of a
/// currency with `digits` fraction digits.
pub fn parse_amount(input: &str, digits: u32) -> (r: Result<i64, ParseAmountError>)
    ensures
        r == parse_amount_spec(input@, digits),
        r matches Ok(v) ==> v >= 0,
{
    let chars = chars_of(input);
    let ghost s = chars@;
    let (start, b) = trim_bounds(&chars);
    let mut a = start;
    if a < b && chars[a] == '+' {
        a = a + 1;
        assert(s.subrange(a - 1, b as int).drop_first() =~= s.subrange(a as int, b as int));
    }
    let ghost u = s.subrange(a as int, b as int);
    assert(u == strip_plus(trim(input@)));
    if a == b {
        return Err(ParseAmountError::Empty);
    }
    let p = find_char(&chars, a, b, '.');
    let fs: usize = if p < b {
        p + 1
    } else {
        b
    };
    assert(s.subrange(a as int, p as int) =~= whole_part(u));
    assert(s.subrange(fs as int, b as int) =~= fraction_part(u));
    if p == a && fs == b {
        return Err(ParseAmountError::NotANumber);
    }
    if !digits_only(&chars, a, p) || !digits_only(&chars, fs, b) {
        return Err(ParseAmountError::NotANumber);
    }
    if b - fs > digits as usize {
        return Err(ParseAmountError::TooPrecise { allowed: digits });
    }
    if digits > 18 {
        return Err(ParseAmountError::TooLarge);
    }
    match combine(&chars, a, p, fs, b, digits) {
        Some(v) => Ok(v),
        None => Err(ParseAmountError::TooLarge),
    }
}

/// The size of an amount, without its sign.
pub open spec fn magnitude(amount: i64) -> nat {
    if amount < 0 {
        (-amount) as nat
    } else {
        amount as nat
    }
}

/// How `format_amount` writes an amount of minor units with `digits` fraction
/// digits: a `-` for negative amounts, the whole units, and unless `digits` is 0
/// a `.` and the rest zero-padded to `digits` places. At most
/// `MAX_FRACTION_DIGITS` of the digits are taken as the scale.
pub open spec fn format_text(amount: i64, digits: u32) -> Seq<char> {
    let sign = if amount < 0 {
        "-"@
    } else {
        Seq::<char>::empty()
    };
    let m = magnitude(amount);
    if digits == 0 {
        sign + decimal(m)
    } else {
        let scale = pow10(
            if digits < MAX_FRACTION_DIGITS {
                digits as nat
            } else {
                MAX_FRACTION_DIGITS as nat
            },
        );
        sign + decimal(m / scale) + "."@ + pad_zeros(decimal(m % scale), digits as nat)
    }
}

/// Writes an amount of minor units for people to read, such as `12.05`.
pub fn format_amount(amount: i64, digits: u32) -> (r: String)
    ensures
        r@ == format_text(amount, digits),
{
    let m: u64 = if amount == i64::MIN {
        9_223_372_036_854_775_808u64
    } else if amount < 0 {
        (-amount) as u64
    } else {
        amount as u64
    };
    assert(m == magnitude(amount));
    let mut r = if amount < 0 {
        String::from_str("-")
    } else {
        String::new()
    };
    if digits == 0 {
        let numeral = decimal_string(m);
        r.append(numeral.as_str());
        return r;
    }
    let places = if digits < MAX_FRACTION_DIGITS {
        digits
    } else {
        MAX_FRACTION_DIGITS
    };
    let scale = pow10_u64(places);
    proof {
        lemma_pow10_positive(places as nat);
    }
    let whole = decimal_string(m / scale);
    r.append(whole.as_str());
    r.append(".");
    let rest = decimal_string(m % scale);
    let padded = pad_zeros_string(&rest, digits as usize);
    r.append(padded.as_str());
    r
}

/// A numeral written after another is worth the first shifted by its length.
pub proof fn lemma_digits_value_concat(s1: Seq<char>, s2: Seq<char>)
    ensures
        digits_value(s1 + s2) == digits_value(s1) * pow10(s2.len()) + digits_value(s2),
    decreases s2.len(),
{
    if s2.len() == 0 {
        assert(s1 + s2 =~= s1);
        assert(digits_value(s2) == 0);
        assert(pow10(0) == 1);
    } else {
        let t = s2.drop_last();
        lemma_digits_value_concat(s1, t);
        assert((s1 + s2).drop_last() =~= s1 + t);
        assert((s1 + s2).last() == s2.last());
        let x = digits_value(s1);
        let y = digits_value(t);
        let pt = pow10(t.len());
        let l = digit_value(s2.last());
        assert(pow10(s2.len()) == 10 * pt);
        assert(digits_value(s1 + s2) == digits_value(s1 + t) * 10 + l);
        assert(digits_value(s2) == y * 10 + l);
        assert((x * pt + y) * 10 + l == x * (10 * pt) + (y * 10 + l)) by (nonlinear_arith);
    }
}

/// Zeros are worth nothing.
pub proof fn lemma_digits_value_zeros(k: nat)
    ensures
        digits_value(Seq::new(k, |i: int| '0')) == 0,
        all_digits(Seq::new(k, |i: int| '0')),
    decreases k,
{
    if k > 0 {
        lemma_digits_value_zeros((k - 1) as nat);
        assert(Seq::new(k, |i: int| '0').drop_last() =~= Seq::new((k - 1) as nat, |i: int| '0'));
        assert(digit_value('0') == 0);
    }
}

/// A number below `10^k` has at most `k` digits.
pub proof fn lemma_decimal_len(n: nat, k: nat)
    requires
        n < pow10(k),
        k >= 1,
    ensures
        decimal(n).len() <= k,
    decreases n,
{
    if n >= 10 {
        if k == 1 {
            assert(pow10(1) == 10) by {
                reveal_with_fuel(pow10, 2);
            }
        } else {
            assert(n / 10 < pow10((k - 1) as nat)) by (nonlinear_arith)
                requires
                    n < pow10(k),
                    pow10(k) == 10 * pow10((k - 1) as nat),
            ;
            lemma_decimal_len(n / 10, (k - 1) as nat);
        }
    }
}

/// A sequence with no whitespace at either end is its own trim.
pub proof fn lemma_trim_unchanged(s: Seq<char>)
    requires
        s.len() > 0,
        !is_whitespace(s[0]),
        !is_whitespace(s.last()),
    ensures
        trim(s) == s,
{
}

/// Digits are not whitespace, `+` or `.`.
pub proof fn lemma_digit_is_plain(c: char)
    requires
        is_digit(c),
    ensures
        !is_whitespace(c),
        c != '+',
        c != '.',
{
}

/// Law: an amount written by `format_amount` reads back as itself through
/// `parse_amount`, for every amount that is not negative and every currency
/// of at most `MAX_FRACTION_DIGITS` fraction digits.
pub proof fn lemma_amount_round_trip(amount: i64, digits: u32)
    requires
        amount >= 0,
        digits <= MAX_FRACTION_DIGITS,
    ensures
        parse_amount_spec(format_text(amount, digits), digits) == Ok::<i64, ParseAmountError>(amount),
{
    let a = amount as nat;
    let text = format_text(amount, digits);
    lemma_pow10_positive(digits as nat);
    if digits == 0 {
        let w = decimal(a);
        lemma_decimal(a);
        assert(text =~= w);
        lemma_digit_is_plain(w[0]);
        lemma_digit_is_plain(w.last());
        lemma_trim_unchanged(text);
        assert forall|i: int| 0 <= i < text.len() implies #[trigger] text[i] != '.' by {
            lemma_digit_is_plain(w[i]);
        }
        lemma_first_index(text, '.', text.len() as int);
        assert(whole_part(text) =~= w);
        assert(fraction_part(text) =~= Seq::<char>::empty());
        assert(digits_value(Seq::<char>::empty()) == 0);
        assert(pow10(0) == 1);
        assert(minor_units(w, Seq::<char>::empty(), 0) == a);
    } else {
        let scale = pow10(digits as nat);
        let q = a / scale;
        let r = a % scale;
        let w = decimal(q);
        let d = decimal(r);
        lemma_decimal(q);
        lemma_decimal(r);
        lemma_decimal_len(r, digits as nat);
        let zeros = Seq::new((digits - d.len()) as nat, |i: int| '0');
        let f = pad_zeros(d, digits as nat);
        assert(f =~= zeros + d);
        lemma_digits_value_zeros((digits - d.len()) as nat);
        lemma_digits_value_concat(zeros, d);
        assert(digits_value(f) == r);
        assert(f.len() == digits);
        assert(all_digits(f)) by {
            assert forall|i: int| 0 <= i < f.len() implies #[trigger] is_digit(f[i]) by {
                if i < zeros.len() {
                    assert(f[i] == zeros[i]);
                } else {
                    assert(f[i] == d[i - zeros.len()]);
                }
            }
        }
        assert(text =~= w + "."@ + f) by {
            reveal_strlit(".");
        }
        reveal_strlit(".");
        assert(text[0] == w[0]);
        assert(text.last() == f.last());
        lemma_digit_is_plain(w[0]);
        lemma_digit_is_plain(f.last());
        lemma_trim_unchanged(text);
        assert forall|i: int| 0 <= i < w.len() implies #[trigger] text[i] != '.' by {
            assert(text[i] == w[i]);
            lemma_digit_is_plain(w[i]);
        }
        assert(text[w.len() as int] == '.');
        lemma_first_index(text, '.', w.len() as int);
        assert(whole_part(text) =~= w);
        assert(fraction_part(text) =~= f);
        assert(pow10(0) == 1);
        assert(a == q * scale + r) by (nonlinear_arith)
            requires
                scale >= 1,
                q == a / scale,
                r == a % scale,
        ;
        assert((digits - f.len()) as nat == 0);
        assert(digits_value(f) * pow10(0) == r);
        assert(digits_value(w) == q);
        assert(minor_units(w, f, digits as nat) == q * scale + r);
    }
}

} // verus!
