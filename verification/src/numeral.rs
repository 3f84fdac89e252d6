use vstd::prelude::*;
use vstd::arithmetic::div_mod::{lemma_fundamental_div_mod, lemma_fundamental_div_mod_converse};
use crate::text::{find_first, first_index, lemma_first_index, push_all, sub_vec};

verus! {

/// Whether `c` is one of the ten decimal digits.
pub open spec fn is_digit(c: char) -> bool {
    '0' <= c && c <= '9'
}

/// The number that the digit `c` stands for.
pub open spec fn digit_value(c: char) -> nat {
    (c as u32 - 48) as nat
}

/// The digit that stands for `d`, which is below ten.
pub open spec fn digit_char(d: nat) -> char {
    (d + 48) as u8 as char
}

/// Whether `s` holds decimal digits only.
pub open spec fn all_digits(s: Seq<char>) -> bool {
    forall|i: int| 0 <= i < s.len() ==> is_digit(#[trigger] s[i])
}

/// The number that a run of decimal digits denotes, the most significant digit first.
pub open spec fn digits_value(s: Seq<char>) -> nat
    decreases s.len(),
{
    if s.len() == 0 {
        0
    } else {
        digits_value(s.drop_last()) * 10 + digit_value(s.last())
    }
}

/// Ten to the power of `e`.
pub open spec fn pow10(e: nat) -> nat
    decreases e,
{
    if e == 0 {
        1
    } else {
        10 * pow10((e - 1) as nat)
    }
}

/// The decimal numeral of `n`, without leading zeros.
pub open spec fn decimal_text(n: nat) -> Seq<char>
    decreases n,
{
    if n < 10 {
        seq![digit_char(n)]
    } else {
        decimal_text(n / 10).push(digit_char(n % 10))
    }
}

/// What an unsigned numeral denotes: an optional `+`, then one digit or more.
pub open spec fn unsigned_value(s: Seq<char>) -> Option<nat> {
    let body = if s.len() > 0 && s[0] == '+' {
        s.drop_first()
    } else {
        s
    };
    if body.len() > 0 && all_digits(body) {
        Some(digits_value(body))
    } else {
        None
    }
}

/// What a numeral denotes as a `u64`: nothing where it is malformed or too large.
pub open spec fn u64_value(s: Seq<char>) -> Option<u64> {
    match unsigned_value(s) {
        Some(n) => if n <= u64::MAX {
            Some(n as u64)
        } else {
            None
        },
        None => None,
    }
}

/// What a numeral denotes as a `u32`: nothing where it is malformed or too large.
pub open spec fn u32_value(s: Seq<char>) -> Option<u32> {
    match u64_value(s) {
        Some(n) => if n <= u32::MAX {
            Some(n as u32)
        } else {
            None
        },
        None => None,
    }
}

/// The first digits of a run denote no more than the whole run.
proof fn lemma_digits_value_prefix(s: Seq<char>, k: int)
    requires
        0 <= k <= s.len(),
    ensures
        digits_value(s.take(k)) <= digits_value(s),
    decreases s.len() - k,
{
    if k == s.len() {
        assert(s.take(k) =~= s);
    } else {
        lemma_digits_value_prefix(s.drop_last(), k);
        assert(s.drop_last().take(k) =~= s.take(k));
    }
}

/// A further digit at the end multiplies the number by ten and adds the digit.
proof fn lemma_digits_value_push(s: Seq<char>, c: char)
    ensures
        digits_value(s.push(c)) == digits_value(s) * 10 + digit_value(c),
{
    assert(s.push(c).drop_last() =~= s);
}

/// Digits written behind a run shift the number of the run by as many places.
proof fn lemma_digits_value_concat(a: Seq<char>, b: Seq<char>)
    ensures
        digits_value(a + b) == digits_value(a) * pow10(b.len()) + digits_value(b),
    decreases b.len(),
{
    let x = digits_value(a) as int;
    if b.len() == 0 {
        assert(a + b =~= a);
        assert(pow10(b.len()) == 1);
        assert(x * 1 == x);
    } else {
        let front = b.drop_last();
        lemma_digits_value_concat(a, front);
        assert((a + b).drop_last() =~= a + front);
        assert((a + b).last() == b.last());
        let p = pow10(front.len()) as int;
        let y = digits_value(front) as int;
        assert(pow10(b.len()) == 10 * pow10((b.len() - 1) as nat));
        assert(digits_value(a + front) == x * p + y);
        assert(digits_value(a + b) == (x * p + y) * 10 + digit_value(b.last()));
        assert(digits_value(b) == y * 10 + digit_value(b.last()));
        assert((x * p + y) * 10 == x * (10 * p) + y * 10) by (nonlinear_arith);
    }
}

/// A power of ten is at least one.
proof fn lemma_pow10_positive(e: nat)
    ensures
        pow10(e) >= 1,
    decreases e,
{
    if e > 0 {
        lemma_pow10_positive((e - 1) as nat);
    }
}

/// The number that `c` stands for, where `c` is a decimal digit.
fn digit_of(c: char) -> (r: Option<u8>)
    ensures
        r is Some <==> is_digit(c),
        r matches Some(d) ==> d == digit_value(c) && d < 10,
{
    if c >= '0' && c <= '9' {
        Some((c as u32 - 48) as u8)
    } else {
        None
    }
}

/// The digit that stands for `d`.
fn char_of(d: u8) -> (c: char)
    requires
        d < 10,
    ensures
        c == digit_char(d as nat),
        is_digit(c),
        digit_value(c) == d,
{
    (d + 48) as char
}

/// Whether `s` holds decimal digits only.
fn check_digits(s: &Vec<char>) -> (r: bool)
    ensures
        r == all_digits(s@),
{
    let mut i: usize = 0;
    while i < s.len()
        invariant
            i <= s.len(),
            all_digits(s@.take(i as int)),
        decreases s.len() - i,
    {
        if digit_of(s[i]).is_none() {
            return false;
        }
        i += 1;
    }
    assert(s@.take(i as int) =~= s@);
    true
}

/// The value of a run of digits, where it fits in a `u64`.
fn digits_to_u64(s: &Vec<char>) -> (r: Option<u64>)
    requires
        all_digits(s@),
    ensures
        r == if digits_value(s@) <= u64::MAX {
            Some(digits_value(s@) as u64)
        } else {
            None
        },
{
    let mut acc: u64 = 0;
    let mut i: usize = 0;
    while i < s.len()
        invariant
            i <= s.len(),
            all_digits(s@),
            acc == digits_value(s@.take(i as int)),
        decreases s.len() - i,
    {
        let d = match digit_of(s[i]) {
            Some(d) => d,
            None => 0,
        };
        proof {
            assert(s@.take(i + 1) =~= s@.take(i as int).push(s@[i as int]));
            lemma_digits_value_push(s@.take(i as int), s@[i as int]);
            lemma_digits_value_prefix(s@, i + 1);
        }
        if acc > (u64::MAX - d as u64) / 10 {
            return None;
        }
        acc = acc * 10 + d as u64;
        i += 1;
    }
    assert(s@.take(i as int) =~= s@);
    Some(acc)
}

/// Reads an unsigned numeral.
pub fn parse_u64(s: &Vec<char>) -> (r: Option<u64>)
    ensures
        r == u64_value(s@),
{
    let start: usize = if s.len() > 0 && s[0] == '+' {
        1
    } else {
        0
    };
    let body = sub_vec(s, start, s.len());
    assert(body@ =~= if s@.len() > 0 && s@[0] == '+' {
        s@.drop_first()
    } else {
        s@
    });
    if body.len() == 0 || !check_digits(&body) {
        return None;
    }
    digits_to_u64(&body)
}

/// Reads an unsigned numeral that fits in a `u32`.
pub fn parse_u32(s: &Vec<char>) -> (r: Option<u32>)
    ensures
        r == u32_value(s@),
{
    match parse_u64(s) {
        Some(n) => if n <= u32::MAX as u64 {
            Some(n as u32)
        } else {
            None
        },
        None => None,
    }
}

/// Appends the decimal numeral of `n` to `out`.
pub fn push_decimal(out: &mut Vec<char>, n: u64)
    ensures
        final(out)@ == old(out)@ + decimal_text(n as nat),
    decreases n,
{
    if n >= 10 {
        push_decimal(out, n / 10);
    }
    out.push(char_of((n % 10) as u8));
    assert(out@ =~= old(out)@ + decimal_text(n as nat));
}

/// A numeral denotes the number that it was written for.
pub proof fn lemma_decimal_text_value(n: nat)
    ensures
        decimal_text(n).len() > 0,
        all_digits(decimal_text(n)),
        digits_value(decimal_text(n)) == n,
        unsigned_value(decimal_text(n)) == Some(n),
    decreases n,
{
    if n < 10 {
        let t = decimal_text(n);
        assert(t.drop_last() =~= Seq::<char>::empty());
        assert(digits_value(t.drop_last()) == 0);
    } else {
        lemma_decimal_text_value(n / 10);
        lemma_digits_value_push(decimal_text(n / 10), digit_char(n % 10));
    }
    assert(is_digit(decimal_text(n)[0]));
}

/// The largest magnitude that a fixed-point value can have.
pub const DECIMAL_MAX: i64 = 0x7fff_ffff_ffff_ffff;

/// What an unsigned decimal fraction denotes, counted in units of 10^-`places`:
/// digits, then optionally a point and more digits, with one digit at least.
/// The digits before the point and the first `places` digits behind it are read
/// as one number; digits further behind are cut off.
pub open spec fn magnitude_value(s: Seq<char>, places: nat) -> Option<nat> {
    let dot = first_index(s, '.');
    let whole = s.take(dot);
    let frac = if dot < s.len() {
        s.skip(dot + 1)
    } else {
        Seq::<char>::empty()
    };
    let kept = if frac.len() <= places {
        frac
    } else {
        frac.take(places as int)
    };
    if all_digits(whole) && all_digits(frac) && whole.len() + frac.len() > 0 {
        Some(digits_value(whole + kept) * pow10((places - kept.len()) as nat))
    } else {
        None
    }
}

/// What a decimal fraction with an optional sign denotes, in units of 10^-`places`.
pub open spec fn decimal_value(s: Seq<char>, places: nat) -> Option<int> {
    if s.len() > 0 && s[0] == '-' {
        match magnitude_value(s.drop_first(), places) {
            Some(m) => Some(-(m as int)),
            None => None,
        }
    } else if s.len() > 0 && s[0] == '+' {
        match magnitude_value(s.drop_first(), places) {
            Some(m) => Some(m as int),
            None => None,
        }
    } else {
        match magnitude_value(s, places) {
            Some(m) => Some(m as int),
            None => None,
        }
    }
}

/// What a decimal fraction denotes as a fixed-point `i64`: nothing where it is
/// malformed or its magnitude is over `DECIMAL_MAX`.
pub open spec fn fixed_value(s: Seq<char>, places: nat) -> Option<i64> {
    match decimal_value(s, places) {
        Some(v) => if -DECIMAL_MAX <= v <= DECIMAL_MAX {
            Some(v as i64)
        } else {
            None
        },
        None => None,
    }
}

/// What a decimal fraction without a minus sign denotes as a fixed-point `u64`.
pub open spec fn unsigned_fixed_value(s: Seq<char>, places: nat) -> Option<u64> {
    match fixed_value(s, places) {
        Some(v) => if v >= 0 {
            Some(v as u64)
        } else {
            None
        },
        None => None,
    }
}

/// A higher power of ten is not smaller.
proof fn lemma_pow10_monotonic(a: nat, b: nat)
    requires
        a <= b,
    ensures
        pow10(a) <= pow10(b),
    decreases b,
{
    lemma_pow10_positive(a);
    if a < b {
        lemma_pow10_monotonic(a, (b - 1) as nat);
    }
}

/// Reads an unsigned decimal fraction in units of 10^-`places`.
pub fn parse_magnitude(s: &Vec<char>, places: u32) -> (r: Option<u64>)
    ensures
        r == match magnitude_value(s@, places as nat) {
            Some(m) => if m <= u64::MAX {
                Some(m as u64)
            } else {
                None
            },
            None => None,
        },
{
    let dot = find_first(s, '.');
    let whole = sub_vec(s, 0, dot);
    let frac = if dot < s.len() {
        sub_vec(s, dot + 1, s.len())
    } else {
        Vec::new()
    };
    assert(whole@ =~= s@.take(dot as int));
    assert(frac@ =~= if dot < s@.len() {
        s@.skip(dot + 1)
    } else {
        Seq::<char>::empty()
    });
    if !check_digits(&whole) || !check_digits(&frac) || (whole.len() == 0 && frac.len() == 0) {
        return None;
    }
    let keep: usize = if frac.len() <= places as usize {
        frac.len()
    } else {
        places as usize
    };
    let kept = sub_vec(&frac, 0, keep);
    assert(kept@ =~= if frac@.len() <= places {
        frac@
    } else {
        frac@.take(places as int)
    });
    let mut digits = whole;
    push_all(&mut digits, &kept);
    let ghost unscaled = digits_value(digits@);
    let mut acc: u64 = match digits_to_u64(&digits) {
        Some(v) => v,
        None => {
            proof {
                lemma_pow10_positive((places - keep) as nat);
                assert(unscaled * pow10((places - keep) as nat) >= unscaled) by (nonlinear_arith)
                    requires
                        pow10((places - keep) as nat) >= 1,
                ;
            }
            return None;
        },
    };
    let pad: u32 = places - keep as u32;
    let mut k: u32 = 0;
    proof {
        assert(digits@ == s@.take(dot as int) + kept@);
        assert(magnitude_value(s@, places as nat) == Some(unscaled * pow10(pad as nat)));
        assert(unscaled * pow10(0) == unscaled) by (nonlinear_arith)
            requires
                pow10(0) == 1,
        ;
    }
    while k < pad
        invariant
            k <= pad,
            acc == unscaled * pow10(k as nat),
            magnitude_value(s@, places as nat) == Some(unscaled * pow10(pad as nat)),
        decreases pad - k,
    {
        if acc > u64::MAX / 10 {
            proof {
                lemma_pow10_monotonic((k + 1) as nat, pad as nat);
                let x = unscaled as int;
                let a = pow10((k + 1) as nat) as int;
                let b = pow10(pad as nat) as int;
                assert(x * a <= x * b) by (nonlinear_arith)
                    requires
                        0 <= x,
                        a <= b,
                ;
                assert(x * a == (x * pow10(k as nat)) * 10) by (nonlinear_arith)
                    requires
                        a == 10 * pow10(k as nat),
                ;
                assert(acc * 10 > u64::MAX);
                assert(unscaled * pow10(pad as nat) > u64::MAX);
            }
            return None;
        }
        proof {
            let x = unscaled as int;
            assert((x * pow10(k as nat)) * 10 == x * (10 * pow10(k as nat))) by (nonlinear_arith);
        }
        acc = acc * 10;
        k += 1;
    }
    Some(acc)
}

/// Reads a decimal fraction with an optional sign, in units of 10^-`places`.
pub fn parse_fixed(s: &Vec<char>, places: u32) -> (r: Option<i64>)
    ensures
        r == fixed_value(s@, places as nat),
{
    let negative = s.len() > 0 && s[0] == '-';
    let signed = negative || (s.len() > 0 && s[0] == '+');
    let body = if signed {
        sub_vec(s, 1, s.len())
    } else {
        sub_vec(s, 0, s.len())
    };
    assert(body@ =~= if signed {
        s@.drop_first()
    } else {
        s@
    });
    match parse_magnitude(&body, places) {
        Some(m) => {
            if m > DECIMAL_MAX as u64 {
                None
            } else if negative {
                Some(-(m as i64))
            } else {
                Some(m as i64)
            }
        },
        None => None,
    }
}

/// Reads a decimal fraction that is not negative, in units of 10^-`places`.
pub fn parse_unsigned_fixed(s: &Vec<char>, places: u32) -> (r: Option<u64>)
    ensures
        r == unsigned_fixed_value(s@, places as nat),
{
    match parse_fixed(s, places) {
        Some(v) => if v >= 0 {
            Some(v as u64)
        } else {
            None
        },
        None => None,
    }
}

/// The last `width` digits of `n`, with zeros in front where `n` has fewer.
pub open spec fn padded_digits(n: nat, width: nat) -> Seq<char>
    decreases width,
{
    if width == 0 {
        Seq::empty()
    } else {
        padded_digits(n / 10, (width - 1) as nat).push(digit_char(n % 10))
    }
}

/// `s` without the zeros at its end.
pub open spec fn strip_zeros(s: Seq<char>) -> Seq<char>
    decreases s.len(),
{
    if s.len() > 0 && s.last() == '0' {
        strip_zeros(s.drop_last())
    } else {
        s
    }
}

/// A fixed-point value written with a point and exactly `places` digits behind it.
pub open spec fn fixed_text(value: nat, places: nat) -> Seq<char> {
    decimal_text(value / pow10(places)) + seq!['.'] + padded_digits(value % pow10(places), places)
}

/// A fixed-point value written as briefly as it can be: no zeros at the end of
/// the fraction, and no point where the value is whole.
pub open spec fn shortest_text(value: nat, places: nat) -> Seq<char> {
    let frac = strip_zeros(padded_digits(value % pow10(places), places));
    if frac.len() == 0 {
        decimal_text(value / pow10(places))
    } else {
        decimal_text(value / pow10(places)) + seq!['.'] + frac
    }
}

/// The most digits behind the point that `power_of_ten` can scale by.
pub const MAX_PLACES: u32 = 18;

/// A power of ten with no more than `MAX_PLACES` places fits in a `u64`.
proof fn lemma_pow10_bound(e: nat)
    requires
        e <= MAX_PLACES,
    ensures
        pow10(e) <= 1_000_000_000_000_000_000,
{
    lemma_pow10_monotonic(e, 18);
    assert(pow10(18) == 1_000_000_000_000_000_000) by {
        reveal_with_fuel(pow10, 19);
    }
}

/// Ten to the power of `e`.
fn power_of_ten(e: u32) -> (r: u64)
    requires
        e <= MAX_PLACES,
    ensures
        r == pow10(e as nat),
        r >= 1,
{
    let mut r: u64 = 1;
    let mut k: u32 = 0;
    while k < e
        invariant
            k <= e <= MAX_PLACES,
            r == pow10(k as nat),
        decreases e - k,
    {
        proof {
            lemma_pow10_bound((k + 1) as nat);
        }
        r = r * 10;
        k += 1;
    }
    proof {
        lemma_pow10_positive(e as nat);
    }
    r
}

/// Appends the last `width` digits of `n` to `out`, with zeros in front where `n` has fewer.
pub fn push_padded(out: &mut Vec<char>, n: u64, width: u32)
    ensures
        final(out)@ == old(out)@ + padded_digits(n as nat, width as nat),
    decreases width,
{
    if width > 0 {
        push_padded(out, n / 10, width - 1);
        out.push(char_of((n % 10) as u8));
    }
    assert(out@ =~= old(out)@ + padded_digits(n as nat, width as nat));
}

/// Cutting a run after its last digit that is not zero takes the zeros off its end.
proof fn lemma_strip_zeros(s: Seq<char>, hi: int)
    requires
        0 <= hi <= s.len(),
        forall|j: int| hi <= j < s.len() ==> s[j] == '0',
        hi == 0 || s[hi - 1] != '0',
    ensures
        strip_zeros(s) == s.take(hi),
    decreases s.len(),
{
    if hi < s.len() {
        lemma_strip_zeros(s.drop_last(), hi);
        assert(s.drop_last().take(hi) =~= s.take(hi));
    } else {
        assert(s.take(hi) =~= s);
    }
}

/// Appends `value`, counted in units of 10^-`places`, with exactly `places` digits behind the point.
pub fn push_fixed(out: &mut Vec<char>, value: u64, places: u32)
    requires
        places <= MAX_PLACES,
    ensures
        final(out)@ == old(out)@ + fixed_text(value as nat, places as nat),
{
    let unit = power_of_ten(places);
    push_decimal(out, value / unit);
    out.push('.');
    push_padded(out, value % unit, places);
    assert(out@ =~= old(out)@ + fixed_text(value as nat, places as nat));
}

/// Appends `value`, counted in units of 10^-`places`, written as briefly as it can be.
pub fn push_shortest(out: &mut Vec<char>, value: u64, places: u32)
    requires
        places <= MAX_PLACES,
    ensures
        final(out)@ == old(out)@ + shortest_text(value as nat, places as nat),
{
    let unit = power_of_ten(places);
    push_decimal(out, value / unit);
    let mut frac: Vec<char> = Vec::new();
    push_padded(&mut frac, value % unit, places);
    assert(frac@ =~= padded_digits((value % unit) as nat, places as nat));
    let mut hi: usize = frac.len();
    while hi > 0 && frac[hi - 1] == '0'
        invariant
            hi <= frac.len(),
            forall|j: int| hi <= j < frac.len() ==> frac@[j] == '0',
        decreases hi,
    {
        hi -= 1;
    }
    proof {
        lemma_strip_zeros(frac@, hi as int);
    }
    if hi > 0 {
        out.push('.');
        let kept = sub_vec(&frac, 0, hi);
        assert(kept@ =~= frac@.take(hi as int));
        push_all(out, &kept);
    }
    assert(out@ =~= old(out)@ + shortest_text(value as nat, places as nat));
}

/// Powers of ten multiply by adding their exponents.
proof fn lemma_pow10_adds(a: nat, b: nat)
    ensures
        pow10(a + b) == pow10(a) * pow10(b),
    decreases b,
{
    if b == 0 {
        assert(pow10(a) * 1 == pow10(a));
    } else {
        lemma_pow10_adds(a, (b - 1) as nat);
        let x = pow10(a) as int;
        let y = pow10((b - 1) as nat) as int;
        assert(pow10(a + b) == 10 * pow10((a + b - 1) as nat));
        assert(10 * (x * y) == x * (10 * y)) by (nonlinear_arith);
    }
}

/// The digits that `padded_digits` writes are `width` digits that denote the
/// last `width` digits of `n`.
proof fn lemma_padded_digits(n: nat, width: nat)
    ensures
        padded_digits(n, width).len() == width,
        all_digits(padded_digits(n, width)),
        digits_value(padded_digits(n, width)) == n % pow10(width),
    decreases width,
{
    if width == 0 {
        assert(n % 1 == 0);
    } else {
        let front = padded_digits(n / 10, (width - 1) as nat);
        lemma_padded_digits(n / 10, (width - 1) as nat);
        lemma_digits_value_push(front, digit_char(n % 10));
        lemma_pow10_positive((width - 1) as nat);
        let p = pow10((width - 1) as nat) as int;
        let q = (n / 10) as int;
        let a = q / p;
        let b = q % p;
        lemma_fundamental_div_mod(q, p);
        lemma_fundamental_div_mod(n as int, 10);
        assert(n == a * (10 * p) + (10 * b + n % 10)) by (nonlinear_arith)
            requires
                n == 10 * q + n % 10,
                q == p * a + b,
        ;
        lemma_fundamental_div_mod_converse(n as int, 10 * p, a, 10 * b + n % 10);
    }
}

/// The digits that stand before the zeros at the end of a run of digits
/// denote the number of the whole run without those zeros.
proof fn lemma_strip_zeros_value(s: Seq<char>)
    requires
        all_digits(s),
    ensures
        strip_zeros(s).len() <= s.len(),
        all_digits(strip_zeros(s)),
        strip_zeros(s).len() > 0 ==> strip_zeros(s).last() != '0',
        digits_value(s) == digits_value(strip_zeros(s)) * pow10((s.len() - strip_zeros(s).len()) as nat),
    decreases s.len(),
{
    if s.len() > 0 && s.last() == '0' {
        let front = s.drop_last();
        lemma_strip_zeros_value(front);
        let kept = strip_zeros(front);
        let e = (front.len() - kept.len()) as nat;
        let x = digits_value(kept) as int;
        assert(pow10(e + 1) == 10 * pow10(e));
        assert((x * pow10(e)) * 10 == x * (10 * pow10(e))) by (nonlinear_arith);
    } else {
        assert(digits_value(s) * 1 == digits_value(s));
    }
}

/// A digit is neither a point nor a sign.
proof fn lemma_digit_is_no_sign(c: char)
    requires
        is_digit(c),
    ensures
        c != '.',
        c != '-',
        c != '+',
{
}

/// A numeral with at most `places` digits behind its point denotes those
/// digits read as one number, scaled to `places` places.
proof fn lemma_reads_back(whole: nat, kept: Seq<char>, places: nat)
    requires
        all_digits(kept),
        kept.len() <= places,
    ensures
        ({
            let text = if kept.len() == 0 {
                decimal_text(whole)
            } else {
                decimal_text(whole) + seq!['.'] + kept
            };
            &&& magnitude_value(text, places) == Some(
                (whole * pow10(kept.len()) + digits_value(kept)) * pow10((places - kept.len()) as nat),
            )
            &&& decimal_value(text, places) == Some(
                ((whole * pow10(kept.len()) + digits_value(kept)) * pow10((places - kept.len()) as nat)) as int,
            )
        }),
{
    let dec = decimal_text(whole);
    lemma_decimal_text_value(whole);
    lemma_digit_is_no_sign(dec[0]);
    lemma_digits_value_concat(dec, kept);
    if kept.len() == 0 {
        let text = dec;
        assert forall|j: int| 0 <= j < text.len() implies text[j] != '.' by {
            lemma_digit_is_no_sign(text[j]);
        }
        lemma_first_index(text, '.', text.len() as int);
        assert(text.take(text.len() as int) =~= dec);
        assert(dec + Seq::<char>::empty() =~= dec);
        assert(dec + kept =~= dec);
    } else {
        let text = dec + seq!['.'] + kept;
        assert forall|j: int| 0 <= j < dec.len() implies text[j] != '.' by {
            lemma_digit_is_no_sign(dec[j]);
        }
        lemma_first_index(text, '.', dec.len() as int);
        assert(text.take(dec.len() as int) =~= dec);
        assert(text.skip(dec.len() as int + 1) =~= kept);
        assert(text[0] == dec[0]);
    }
}

/// What is written with a fixed number of digits behind the point is read
/// back as the same value.
pub proof fn lemma_fixed_text_reads_back(value: nat, places: nat)
    ensures
        decimal_value(fixed_text(value, places), places) == Some(value as int),
{
    let unit = pow10(places);
    lemma_pow10_positive(places);
    let whole = value / unit;
    let frac = padded_digits(value % unit, places);
    lemma_padded_digits(value % unit, places);
    lemma_fundamental_div_mod(value as int, unit as int);
    assert((value % unit) % unit == value % unit) by (nonlinear_arith)
        requires
            unit > 0,
    ;
    lemma_decimal_text_value(whole);
    lemma_digit_is_no_sign(decimal_text(whole)[0]);
    let dec = decimal_text(whole);
    let text = fixed_text(value, places);
    if places == 0 {
        assert forall|j: int| 0 <= j < dec.len() implies text[j] != '.' by {
            lemma_digit_is_no_sign(dec[j]);
        }
        lemma_first_index(text, '.', dec.len() as int);
        assert(text.take(dec.len() as int) =~= dec);
        assert(text.skip(dec.len() as int + 1) =~= Seq::<char>::empty());
        assert(dec + Seq::<char>::empty() =~= dec);
        assert(text[0] == dec[0]);
        assert(digits_value(dec) * 1 == digits_value(dec));
        assert(value % 1 == 0);
        assert(unit * whole == whole) by (nonlinear_arith)
            requires
                unit == 1,
        ;
    } else {
        lemma_reads_back(whole, frac, places);
        assert(pow10(0) == 1);
        let x = (whole * unit + value % unit) as int;
        assert(x * 1 == x);
        assert(whole * unit == unit * whole) by (nonlinear_arith);
    }
}

/// What is written as briefly as it can be is read back as the same value.
pub proof fn lemma_shortest_text_reads_back(value: nat, places: nat)
    ensures
        decimal_value(shortest_text(value, places), places) == Some(value as int),
{
    let unit = pow10(places);
    lemma_pow10_positive(places);
    let whole = value / unit;
    let padded = padded_digits(value % unit, places);
    lemma_padded_digits(value % unit, places);
    lemma_fundamental_div_mod(value as int, unit as int);
    assert((value % unit) % unit == value % unit) by (nonlinear_arith)
        requires
            unit > 0,
    ;
    let kept = strip_zeros(padded);
    lemma_strip_zeros_value(padded);
    lemma_reads_back(whole, kept, places);
    let h = kept.len();
    let rest = (places - h) as nat;
    lemma_pow10_adds(h, rest);
    let w = whole as int;
    let k = digits_value(kept) as int;
    let a = pow10(h) as int;
    let b = pow10(rest) as int;
    assert((w * a + k) * b == w * (a * b) + k * b) by (nonlinear_arith);
    assert(w * unit == unit * w) by (nonlinear_arith);
}

} // verus!
