//! Decimal conversion of tokens, mirroring the standard integer parsers:
//! an optional single sign, then one or more ASCII digits, rejected when
//! the value leaves the target type's range.

use vstd::prelude::*;

verus! {

pub open spec fn is_digit(c: char) -> bool {
    48 <= c as int <= 57
}

pub open spec fn digit_val(c: char) -> int {
    c as int - 48
}

pub open spec fn all_digits(t: Seq<char>) -> bool {
    forall|i: int| 0 <= i < t.len() ==> is_digit(t[i])
}

/// The value of a string of decimal digits, most significant first.
pub open spec fn digits_val(t: Seq<char>) -> int
    decreases t.len(),
{
    if t.len() == 0 {
        0
    } else {
        digits_val(t.take(t.len() - 1)) * 10 + digit_val(t.last())
    }
}

/// The digits of an unsigned token: everything after one optional `+`.
pub open spec fn uint_body(t: Seq<char>) -> Seq<char> {
    if t.len() > 0 && t[0] == '+' {
        t.skip(1)
    } else {
        t
    }
}

/// Whether `t` is a well-formed unsigned decimal token whose value is at
/// most `max`.
pub open spec fn is_uint_token(t: Seq<char>, max: int) -> bool {
    let b = uint_body(t);
    b.len() > 0 && all_digits(b) && digits_val(b) <= max
}

pub open spec fn uint_token_val(t: Seq<char>) -> int {
    digits_val(uint_body(t))
}

pub open spec fn int_sign(t: Seq<char>) -> int {
    if t.len() > 0 && t[0] == '-' {
        -1
    } else {
        1
    }
}

/// The digits of a signed token: everything after one optional `+` or `-`.
pub open spec fn int_body(t: Seq<char>) -> Seq<char> {
    if t.len() > 0 && (t[0] == '-' || t[0] == '+') {
        t.skip(1)
    } else {
        t
    }
}

/// Whether `t` is a well-formed signed decimal token whose value lies in
/// `min ..= max`.
pub open spec fn is_int_token(t: Seq<char>, min: int, max: int) -> bool {
    let b = int_body(t);
    b.len() > 0 && all_digits(b) && min <= int_sign(t) * digits_val(b) <= max
}

pub open spec fn int_token_val(t: Seq<char>) -> int {
    int_sign(t) * digits_val(int_body(t))
}

pub proof fn lemma_digits_val_nonneg(t: Seq<char>)
    requires
        all_digits(t),
    ensures
        digits_val(t) >= 0,
    decreases t.len(),
{
    if t.len() > 0 {
        assert(all_digits(t.take(t.len() - 1)));
        lemma_digits_val_nonneg(t.take(t.len() - 1));
        assert(digits_val(t.take(t.len() - 1)) * 10 >= 0) by (nonlinear_arith)
            requires
                digits_val(t.take(t.len() - 1)) >= 0,
        ;
    }
}

/// Appending digits never shrinks the value: the value of a digit string is
/// at least the value of any of its prefixes.
pub proof fn lemma_digits_val_prefix(t: Seq<char>, k: int)
    requires
        all_digits(t),
        0 <= k <= t.len(),
    ensures
        digits_val(t) >= digits_val(t.take(k)),
    decreases t.len() - k,
{
    if k < t.len() {
        lemma_digits_val_prefix(t, k + 1);
        let p = t.take(k + 1);
        assert(p.take(k) =~= t.take(k));
        assert(all_digits(t.take(k)));
        lemma_digits_val_nonneg(t.take(k));
        assert(digits_val(p) == digits_val(t.take(k)) * 10 + digit_val(t[k]));
        assert(digits_val(t.take(k)) * 10 >= digits_val(t.take(k))) by (nonlinear_arith)
            requires
                digits_val(t.take(k)) >= 0,
        ;
    } else {
        assert(t.take(k) =~= t);
    }
}

/// Reads the digits of `t` from position `from` on, failing on an empty or
/// non-digit remainder and on a value above `max`.
pub fn parse_digits(t: &str, from: usize, max: u128) -> (r: Option<u128>)
    requires
        from <= t@.len(),
    ensures
        ({
            let b = t@.skip(from as int);
            match r {
                Some(v) => b.len() > 0 && all_digits(b) && v as int == digits_val(b) && v <= max,
                None => !(b.len() > 0 && all_digits(b) && digits_val(b) <= max),
            }
        }),
{
    let ghost b = t@.skip(from as int);
    let n = t.unicode_len();
    if from >= n {
        return None;
    }
    let mut acc: u128 = 0;
    let mut i = from;
    while i < n
        invariant
            from <= i <= n,
            n == t@.len(),
            b == t@.skip(from as int),
            b.len() == n - from,
            forall|k: int| 0 <= k < i - from ==> is_digit(b[k]),
            acc <= max,
            acc as int == digits_val(b.take(i - from)),
        decreases n - i,
    {
        let c = t.get_char(i);
        let cv = c as u32;
        proof {
            assert(b[i - from] == t@[i as int]);
        }
        if cv < 48 || cv > 57 {
            return None;
        }
        let d = (cv - 48) as u128;
        proof {
            assert(b.take(i - from + 1).take(i - from) =~= b.take(i - from));
            assert(b.take(i - from + 1).last() == b[i - from]);
        }
        if acc > max / 10 || (acc == max / 10 && d > max % 10) {
            proof {
                assert(acc as int * 10 + d > max) by (nonlinear_arith)
                    requires
                        acc as int > max / 10 || (acc as int == max / 10 && d > max % 10),
                        acc >= 0,
                        max >= 0,
                        0 <= d <= 9,
                ;
                if all_digits(b) {
                    lemma_digits_val_prefix(b, i - from + 1);
                }
            }
            return None;
        }
        proof {
            assert(acc as int * 10 + d <= max) by (nonlinear_arith)
                requires
                    acc as int <= max / 10,
                    acc as int == max / 10 ==> d <= max % 10,
                    acc >= 0,
                    max >= 0,
                    0 <= d <= 9,
            ;
        }
        acc = acc * 10 + d;
        i += 1;
    }
    proof {
        assert(b.take(n - from) =~= b);
    }
    Some(acc)
}

/// Reads an unsigned decimal token: one optional `+`, then digits, with
/// value at most `max`.
pub fn parse_uint_max(t: &str, max: u128) -> (r: Option<u128>)
    ensures
        match r {
            Some(v) => is_uint_token(t@, max as int) && v as int == uint_token_val(t@),
            None => !is_uint_token(t@, max as int),
        },
{
    let n = t.unicode_len();
    let start: usize = if n > 0 && t.get_char(0) == '+' {
        1
    } else {
        0
    };
    proof {
        assert(t@.skip(start as int) =~= uint_body(t@));
    }
    parse_digits(t, start, max)
}

/// Reads a signed decimal token: one optional `+` or `-`, then digits, with
/// value in `min ..= max`.
pub fn parse_int(t: &str, min: i128, max: i128) -> (r: Option<i128>)
    requires
        i128::MIN < min <= 0,
        0 <= max,
    ensures
        match r {
            Some(v) => is_int_token(t@, min as int, max as int) && v as int == int_token_val(t@),
            None => !is_int_token(t@, min as int, max as int),
        },
{
    let n = t.unicode_len();
    let mut start: usize = 0;
    let mut negative = false;
    if n > 0 {
        let c = t.get_char(0);
        if c == '-' {
            negative = true;
            start = 1;
        } else if c == '+' {
            start = 1;
        }
    }
    proof {
        assert(t@.skip(start as int) =~= int_body(t@));
    }
    let bound: u128 = if negative {
        (-min) as u128
    } else {
        max as u128
    };
    match parse_digits(t, start, bound) {
        None => None,
        Some(v) => {
            if negative {
                let r = -(v as i128);
                proof {
                    assert(int_sign(t@) == -1);
                }
                Some(r)
            } else {
                Some(v as i128)
            }
        },
    }
}


/// The `w`-th power of ten.
pub open spec fn pow10(w: nat) -> int
    decreases w,
{
    if w == 0 {
        1
    } else {
        10 * pow10((w - 1) as nat)
    }
}

/// The character of one decimal digit.
pub open spec fn dec_digit(d: int) -> char {
    if d == 0 {
        '0'
    } else if d == 1 {
        '1'
    } else if d == 2 {
        '2'
    } else if d == 3 {
        '3'
    } else if d == 4 {
        '4'
    } else if d == 5 {
        '5'
    } else if d == 6 {
        '6'
    } else if d == 7 {
        '7'
    } else if d == 8 {
        '8'
    } else {
        '9'
    }
}

/// The fixed-width decimal rendering of `n`: exactly `w` digits, zero
/// padded on the left.
pub open spec fn dec_fixed(n: int, w: nat) -> Seq<char>
    decreases w,
{
    if w == 0 {
        Seq::<char>::empty()
    } else {
        dec_fixed(n / 10, (w - 1) as nat) + seq![dec_digit(n % 10)]
    }
}

/// A fixed-width rendering is `w` digits and reads back as its value.
pub proof fn lemma_dec_fixed(n: int, w: nat)
    requires
        0 <= n < pow10(w),
    ensures
        dec_fixed(n, w).len() == w,
        all_digits(dec_fixed(n, w)),
        digits_val(dec_fixed(n, w)) == n,
    decreases w,
{
    if w == 0 {
    } else {
        assert(n / 10 < pow10((w - 1) as nat)) by (nonlinear_arith)
            requires
                0 <= n < 10 * pow10((w - 1) as nat),
        ;
        lemma_dec_fixed(n / 10, (w - 1) as nat);
        let d = dec_fixed(n, w);
        let p = dec_fixed(n / 10, (w - 1) as nat);
        assert(d.take(d.len() - 1) =~= p);
        assert(d.last() == dec_digit(n % 10));
        assert(digit_val(dec_digit(n % 10)) == n % 10);
        assert(forall|i: int| 0 <= i < d.len() ==> is_digit(#[trigger] d[i]));
    }
}

/// Ten to the 19, 20 and 39: enough room for a 63-bit magnitude, a usize
/// length, and a 128-bit value.
pub proof fn lemma_pow10_bounds()
    ensures
        pow10(19) > i64::MAX as int + 1,
        pow10(20) > usize::MAX as int,
        pow10(39) > u128::MAX as int,
        pow10(19) <= u128::MAX as int,
        pow10(19) < i128::MAX as int,
        pow10(20) <= u128::MAX as int,
{
    reveal_with_fuel(pow10, 40);
    assert(pow10(19) == 10_000_000_000_000_000_000);
    assert(pow10(20) == 100_000_000_000_000_000_000);
    assert(pow10(39) == 1_000_000_000_000_000_000_000_000_000_000_000_000_000);
}


/// A string of `w` digits has value below the `w`-th power of ten.
pub proof fn lemma_digits_val_bound(t: Seq<char>)
    requires
        all_digits(t),
    ensures
        0 <= digits_val(t) < pow10(t.len()),
    decreases t.len(),
{
    if t.len() == 0 {
    } else {
        let p = t.take(t.len() - 1);
        assert(all_digits(p));
        lemma_digits_val_bound(p);
        assert(digits_val(p) * 10 + digit_val(t.last()) < 10 * pow10(p.len())) by (nonlinear_arith)
            requires
                0 <= digits_val(p) < pow10(p.len()),
                0 <= digit_val(t.last()) <= 9,
        ;
    }
}

/// A fixed-width rendering always has exactly its width, whatever the
/// value.
pub proof fn lemma_dec_fixed_len(n: int, w: nat)
    ensures
        dec_fixed(n, w).len() == w,
    decreases w,
{
    if w > 0 {
        lemma_dec_fixed_len(n / 10, (w - 1) as nat);
    }
}

} // verus!


