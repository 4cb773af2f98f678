//! Decimal text for the integer-valued known fields.
//!
//! An integer field is written as its plain decimal token and read back from
//! exactly that shape: an optional minus sign followed by digits.  Anything
//! else (a fraction, an exponent, a non-digit) is a schema error at the
//! field that holds it.

use vstd::prelude::*;

use crate::json::{is_digit, num_after_int, num_body, num_digits_then, num_token};

verus! {

/// The digit character for `d` (0 through 9).
pub open spec fn digit_char(d: int) -> char {
    if d == 0 { '0' }
    else if d == 1 { '1' }
    else if d == 2 { '2' }
    else if d == 3 { '3' }
    else if d == 4 { '4' }
    else if d == 5 { '5' }
    else if d == 6 { '6' }
    else if d == 7 { '7' }
    else if d == 8 { '8' }
    else { '9' }
}

/// The value of a digit character; 10 marks a non-digit.
pub open spec fn char_digit(c: char) -> nat {
    if c == '0' { 0 }
    else if c == '1' { 1 }
    else if c == '2' { 2 }
    else if c == '3' { 3 }
    else if c == '4' { 4 }
    else if c == '5' { 5 }
    else if c == '6' { 6 }
    else if c == '7' { 7 }
    else if c == '8' { 8 }
    else if c == '9' { 9 }
    else { 10 }
}

/// The decimal text of `n`, most significant digit first.
pub open spec fn nat_text(n: nat) -> Seq<char>
    decreases n,
{
    if n < 10 {
        seq![digit_char(n as int)]
    } else {
        nat_text(n / 10) + seq![digit_char((n % 10) as int)]
    }
}

/// Every character is a digit.
pub open spec fn all_digits(s: Seq<char>) -> bool {
    forall|i: int| 0 <= i < s.len() ==> is_digit(#[trigger] s[i])
}

/// The value of a digit string.
pub open spec fn digits_val(s: Seq<char>) -> nat
    decreases s.len(),
{
    if s.len() == 0 {
        0
    } else {
        digits_val(s.drop_last()) * 10 + char_digit(s.last())
    }
}

/// The value of an unsigned integer field's number token: digits only,
/// within `bound`.  A sign, a fraction or an exponent is rejected.
pub open spec fn unsigned_field_val(s: Seq<char>, bound: int) -> Option<int> {
    if s.len() >= 1 && all_digits(s) && digits_val(s) <= bound {
        Some(digits_val(s) as int)
    } else {
        None
    }
}

/// The value of an `i32` field's number token: an optional minus sign, then
/// digits, within the `i32` range.  A fraction or an exponent is rejected.
pub open spec fn i32_field_val(s: Seq<char>) -> Option<int> {
    if s.len() >= 2 && s[0] == '-' && all_digits(s.skip(1)) && digits_val(s.skip(1))
        <= 0x8000_0000 {
        Some(-(digits_val(s.skip(1)) as int))
    } else if s.len() >= 1 && all_digits(s) && digits_val(s) <= 0x7fff_ffff {
        Some(digits_val(s) as int)
    } else {
        None
    }
}

/// `digit_char` and `char_digit` invert each other on digits.
proof fn lemma_digit_char_val(d: int)
    requires
        0 <= d <= 9,
    ensures
        is_digit(digit_char(d)),
        char_digit(digit_char(d)) == d,
{
}

/// The decimal text of `n` is all digits, is nonempty, and starts with `'0'`
/// only when it is exactly `"0"`.
pub proof fn lemma_nat_text_shape(n: nat)
    ensures
        nat_text(n).len() >= 1,
        all_digits(nat_text(n)),
        nat_text(n)[0] == '0' ==> n == 0 && nat_text(n).len() == 1,
    decreases n,
{
    if n < 10 {
        lemma_digit_char_val(n as int);
    } else {
        lemma_nat_text_shape(n / 10);
        lemma_digit_char_val((n % 10) as int);
        let s = nat_text(n);
        let front = nat_text(n / 10);
        assert(s[0] == front[0]);
        assert forall|i: int| 0 <= i < s.len() implies is_digit(#[trigger] s[i]) by {
            if i < front.len() {
                assert(s[i] == front[i]);
            } else {
                assert(s[i] == digit_char((n % 10) as int));
            }
        }
    }
}

/// Reading the decimal text of `n` back gives `n`.
pub proof fn lemma_digits_val_nat_text(n: nat)
    ensures
        digits_val(nat_text(n)) == n,
    decreases n,
{
    if n < 10 {
        lemma_digit_char_val(n as int);
        assert(nat_text(n).drop_last() =~= Seq::<char>::empty());
        assert(digits_val(Seq::<char>::empty()) == 0);
    } else {
        lemma_digits_val_nat_text(n / 10);
        lemma_digit_char_val((n % 10) as int);
        let s = nat_text(n);
        let front = nat_text(n / 10);
        assert(s.drop_last() =~= front);
        assert(s.last() == digit_char((n % 10) as int));
        assert(n / 10 * 10 + n % 10 == n) by (nonlinear_arith);
    }
}

/// A nonempty digit string from `i` on satisfies the scanner's digit run.
proof fn lemma_digits_then(s: Seq<char>, i: int)
    requires
        0 <= i <= s.len(),
        forall|k: int| i <= k < s.len() ==> is_digit(#[trigger] s[k]),
    ensures
        num_digits_then(s, i),
    decreases s.len() - i,
{
    if i < s.len() {
        lemma_digits_then(s, i + 1);
    }
}

/// The decimal text of `n` is a well-formed number token.
pub proof fn lemma_nat_text_token(n: nat)
    ensures
        num_token(nat_text(n)),
{
    let s = nat_text(n);
    lemma_nat_text_shape(n);
    lemma_digits_then(s, 1);
    if s[0] == '0' {
        assert(num_after_int(s, 1));
    }
}

/// A negative decimal text (`'-'` then digits, nonzero) is a well-formed
/// number token.
pub proof fn lemma_neg_text_token(n: nat)
    requires
        n > 0,
    ensures
        num_token(seq!['-'] + nat_text(n)),
{
    let s = seq!['-'] + nat_text(n);
    let t = nat_text(n);
    lemma_nat_text_shape(n);
    assert forall|k: int| 1 <= k < s.len() implies is_digit(#[trigger] s[k]) by {
        assert(s[k] == t[k - 1]);
    }
    lemma_digits_then(s, 2);
    assert(s[1] == t[0]);
    if s[1] == '0' {
        assert(s.len() == 2);
        assert(num_after_int(s, 2));
    }
}

/// Extending a digit string cannot shrink its value.
proof fn lemma_digits_val_prefix(s: Seq<char>, i: int)
    requires
        0 <= i <= s.len(),
    ensures
        digits_val(s.take(i)) <= digits_val(s),
    decreases s.len() - i,
{
    if i < s.len() {
        lemma_digits_val_prefix(s, i + 1);
        assert(s.take(i + 1).drop_last() =~= s.take(i));
        assert(digits_val(s.take(i + 1)) == digits_val(s.take(i)) * 10 + char_digit(
            s.take(i + 1).last(),
        ));
    } else {
        assert(s.take(i) =~= s);
    }
}

/// The decimal text of a possibly negative integer.
pub open spec fn int_text(n: int) -> Seq<char> {
    if n < 0 {
        seq!['-'] + nat_text((-n) as nat)
    } else {
        nat_text(n as nat)
    }
}

/// The decimal text of an integer is a well-formed number token.
pub proof fn lemma_int_text_token(n: int)
    ensures
        num_token(int_text(n)),
{
    if n < 0 {
        lemma_neg_text_token((-n) as nat);
    } else {
        lemma_nat_text_token(n as nat);
    }
}

/// Reading back the decimal text of an unsigned value gives the value.
pub proof fn lemma_unsigned_text_round(n: nat, bound: int)
    requires
        n <= bound,
    ensures
        unsigned_field_val(nat_text(n), bound) == Some(n as int),
{
    lemma_nat_text_shape(n);
    lemma_digits_val_nat_text(n);
}

/// Reading back the decimal text of an `i32` value gives the value.
pub proof fn lemma_i32_text_round(n: int)
    requires
        -0x8000_0000 <= n <= 0x7fff_ffff,
    ensures
        i32_field_val(int_text(n)) == Some(n),
{
    if n < 0 {
        let m = (-n) as nat;
        let s = int_text(n);
        let t = nat_text(m);
        lemma_nat_text_shape(m);
        lemma_digits_val_nat_text(m);
        assert(s.skip(1) =~= t);
        assert(s[0] == '-');
    } else {
        lemma_nat_text_shape(n as nat);
        lemma_digits_val_nat_text(n as nat);
        let s = int_text(n);
        assert(s[0] != '-');
        if s.len() >= 2 && s[0] == '-' && all_digits(s.skip(1)) && digits_val(s.skip(1))
            <= 0x8000_0000 {
            assert(false);
        }
    }
}

/// Every significand digit from position `i` on (sign and decimal point
/// skipped, exponent and everything after it ignored) is zero.
pub open spec fn zero_mantissa(s: Seq<char>, i: int) -> bool
    decreases s.len() - i when 0 <= i <= s.len()
{
    if i >= s.len() {
        true
    } else if s[i] == 'e' {
        true
    } else if s[i] == '.' || s[i] == '-' || s[i] == '0' {
        zero_mantissa(s, i + 1)
    } else {
        false
    }
}

/// The number a token denotes is zero or negative: it carries a minus sign
/// or its significand is all zeros.
pub open spec fn num_le_zero(s: Seq<char>) -> bool {
    s.len() > 0 && (s[0] == '-' || zero_mantissa(s, 0))
}

/// Whether the number a token denotes is zero or negative.
pub fn dec_le_zero(s: &str) -> (r: bool)
    ensures
        r == num_le_zero(s@),
{
    let n = s.unicode_len();
    if n == 0 {
        return false;
    }
    if s.get_char(0) == '-' {
        return true;
    }
    let mut i: usize = 0;
    while i < n
        invariant
            0 <= i <= n,
            n == s@.len(),
            n > 0,
            s@[0] != '-',
            zero_mantissa(s@, 0) == zero_mantissa(s@, i as int),
        decreases n - i,
    {
        let c = s.get_char(i);
        if c == 'e' {
            return true;
        }
        if c != '.' && c != '-' && c != '0' {
            return false;
        }
        i = i + 1;
    }
    true
}

/// The digit character of a digit `d`, as text.
fn digit_str(d: u64) -> (s: String)
    requires
        d < 10,
    ensures
        s@ =~= seq![digit_char(d as int)],
{
    let s = if d == 0 { "0" }
    else if d == 1 { "1" }
    else if d == 2 { "2" }
    else if d == 3 { "3" }
    else if d == 4 { "4" }
    else if d == 5 { "5" }
    else if d == 6 { "6" }
    else if d == 7 { "7" }
    else if d == 8 { "8" }
    else { "9" };
    proof {
        reveal_strlit("0");
        reveal_strlit("1");
        reveal_strlit("2");
        reveal_strlit("3");
        reveal_strlit("4");
        reveal_strlit("5");
        reveal_strlit("6");
        reveal_strlit("7");
        reveal_strlit("8");
        reveal_strlit("9");
    }
    s.to_owned()
}

/// The value of a digit character.
fn char_to_digit(c: char) -> (r: Option<u64>)
    ensures
        r is Some <==> is_digit(c),
        r matches Some(d) ==> d == char_digit(c) && d < 10,
{
    match c {
        '0' => Some(0),
        '1' => Some(1),
        '2' => Some(2),
        '3' => Some(3),
        '4' => Some(4),
        '5' => Some(5),
        '6' => Some(6),
        '7' => Some(7),
        '8' => Some(8),
        '9' => Some(9),
        _ => None,
    }
}

/// The decimal text of a machine integer.
pub fn u64_to_dec(n: u64) -> (s: String)
    ensures
        s@ == nat_text(n as nat),
    decreases n,
{
    let d = n % 10;
    let ds = digit_str(d);
    if n < 10 {
        ds
    } else {
        let front = u64_to_dec(n / 10);
        front.concat(ds.as_str())
    }
}

/// The decimal text of an `i32`.
pub fn i32_to_dec(n: i32) -> (s: String)
    ensures
        s@ == int_text(n as int),
{
    if n < 0 {
        let m = (-(n as i64)) as u64;
        let tail = u64_to_dec(m);
        let head = "-".to_owned();
        proof {
            reveal_strlit("-");
            assert(head@ =~= seq!['-']);
        }
        head.concat(tail.as_str())
    } else {
        u64_to_dec(n as u64)
    }
}

/// Reads the digit run of `s` from position `from` to the end: `None` unless
/// it is nonempty, all digits, and its value fits `bound`.
fn dec_digits_to_u64(s: &str, from: usize, bound: u64) -> (r: Option<u64>)
    requires
        from <= s@.len(),
    ensures
        r is Some <==> s@.len() - from >= 1 && all_digits(s@.skip(from as int)) && digits_val(
            s@.skip(from as int),
        ) <= bound,
        r matches Some(v) ==> v == digits_val(s@.skip(from as int)),
{
    let n = s.unicode_len();
    if n - from == 0 {
        return None;
    }
    let ghost whole = s@.skip(from as int);
    let mut acc: u64 = 0;
    let mut i: usize = from;
    while i < n
        invariant
            from <= i <= n,
            n == s@.len(),
            whole == s@.skip(from as int),
            all_digits(whole.take(i - from)),
            acc == digits_val(whole.take(i - from)),
            acc <= bound,
        decreases n - i,
    {
        let c = s.get_char(i);
        proof {
            assert(whole[i - from] == s@[i as int]);
        }
        let d = match char_to_digit(c) {
            Some(d) => d,
            None => {
                proof {
                    assert(!is_digit(whole[i - from]));
                }
                return None;
            },
        };
        proof {
            assert(whole.take(i - from + 1).drop_last() =~= whole.take(i - from));
            assert(whole.take(i - from + 1).last() == whole[i - from]);
        }
        let next = (acc as u128) * 10 + (d as u128);
        if next > bound as u128 {
            proof {
                lemma_digits_val_prefix(whole, i - from + 1);
                assert(digits_val(whole.take(i - from + 1)) == acc * 10 + d);
            }
            return None;
        }
        acc = (next as u64);
        i = i + 1;
    }
    proof {
        assert(whole.take(n - from) =~= whole);
    }
    Some(acc)
}

/// Reads an unsigned integer field's number token, rejecting values over
/// `bound`.
pub fn dec_to_unsigned(s: &str, bound: u64) -> (r: Option<u64>)
    ensures
        r is Some <==> unsigned_field_val(s@, bound as int) is Some,
        r matches Some(v) ==> unsigned_field_val(s@, bound as int) == Some(v as int),
{
    let r = dec_digits_to_u64(s, 0, bound);
    proof {
        assert(s@.skip(0) =~= s@);
    }
    r
}

/// Reads an `i32` field's number token.
pub fn dec_to_i32(s: &str) -> (r: Option<i32>)
    ensures
        r is Some <==> i32_field_val(s@) is Some,
        r matches Some(v) ==> i32_field_val(s@) == Some(v as int),
{
    let n = s.unicode_len();
    if n == 0 {
        return None;
    }
    let first = s.get_char(0);
    if first == '-' {
        proof {
            if s@.len() >= 1 && all_digits(s@) {
                assert(is_digit(s@[0]));
            }
        }
        match dec_digits_to_u64(s, 1, 0x8000_0000) {
            Some(v) => Some((-(v as i64)) as i32),
            None => None,
        }
    } else {
        proof {
            assert(s@.skip(0) =~= s@);
        }
        match dec_digits_to_u64(s, 0, 0x7fff_ffff) {
            Some(v) => Some(v as i32),
            None => None,
        }
    }
}

} // verus!
