use crate::text::eq_ignore_ascii_case;
use crate::text::lower_seq;
use vstd::prelude::*;
use vstd::string::*;

verus! {

// ---------------------------------------------------------------------------
// Digits
// ---------------------------------------------------------------------------
/// Decimal digit test on a single character.
pub open spec fn spec_is_digit(c: char) -> bool {
    '0' <= c && c <= '9'
}

pub fn is_digit(c: char) -> (r: bool)
    ensures
        r == spec_is_digit(c),
{
    '0' <= c && c <= '9'
}

/// The numeric value of a decimal digit character.
pub open spec fn digit_val(c: char) -> int {
    c as u32 - 48
}

/// The character for a decimal digit value.
pub open spec fn digit_char(d: int) -> char {
    ((d + 48) as u32) as char
}

pub open spec fn all_digits(s: Seq<char>) -> bool {
    forall|i: int| 0 <= i < s.len() ==> spec_is_digit(#[trigger] s[i])
}

/// One or more decimal digits.
pub open spec fn is_digits(s: Seq<char>) -> bool {
    s.len() > 0 && all_digits(s)
}

/// The value of a digit string read in base ten.
pub open spec fn digits_val(s: Seq<char>) -> int
    decreases s.len(),
{
    if s.len() == 0 {
        0
    } else {
        digits_val(s.drop_last()) * 10 + digit_val(s.last())
    }
}

pub proof fn lemma_digits_val_nonneg(s: Seq<char>)
    requires
        all_digits(s),
    ensures
        digits_val(s) >= 0,
    decreases s.len(),
{
    if s.len() > 0 {
        assert(all_digits(s.drop_last()));
        lemma_digits_val_nonneg(s.drop_last());
        assert(digit_val(s.last()) >= 0);
    }
}

/// The value of a digit string is at least the value of any of its prefixes.
pub proof fn lemma_digits_val_prefix_le(s: Seq<char>, k: int)
    requires
        all_digits(s),
        0 <= k <= s.len(),
    ensures
        digits_val(s.take(k)) <= digits_val(s),
    decreases s.len() - k,
{
    if k < s.len() {
        lemma_digits_val_prefix_le(s, k + 1);
        let p = s.take(k + 1);
        assert(p.drop_last() =~= s.take(k));
        assert(all_digits(s.take(k)));
        lemma_digits_val_nonneg(s.take(k));
        assert(digits_val(p) == digits_val(s.take(k)) * 10 + digit_val(p.last()));
        assert(digit_val(p.last()) >= 0);
    } else {
        assert(s.take(k) =~= s);
    }
}

// ---------------------------------------------------------------------------
// Integer tokens, as `str::parse::<i32>` accepts them
// ---------------------------------------------------------------------------
/// The token after its optional leading sign.
pub open spec fn int_body(s: Seq<char>) -> Seq<char> {
    if s.len() > 0 && (s[0] == '+' || s[0] == '-') {
        s.drop_first()
    } else {
        s
    }
}

pub open spec fn int_negative(s: Seq<char>) -> bool {
    s.len() > 0 && s[0] == '-'
}

/// The signed value of an integer token.
pub open spec fn int_token_val(s: Seq<char>) -> int {
    if int_negative(s) {
        -digits_val(int_body(s))
    } else {
        digits_val(int_body(s))
    }
}

/// `s` is what `str::parse::<i32>` accepts: an optional sign, one or more
/// decimal digits, and a value within `i32`'s range.
pub open spec fn is_i32_token(s: Seq<char>) -> bool {
    is_digits(int_body(s)) && i32::MIN <= int_token_val(s) <= i32::MAX
}

/// Parses a decimal integer token, returning `Some` exactly on the tokens
/// `str::parse::<i32>` accepts and the value that parse yields.
pub fn parse_i32_token(s: &str) -> (r: Option<i32>)
    ensures
        r is Some <==> is_i32_token(s@),
        r matches Some(v) ==> v as int == int_token_val(s@),
{
    let n = s.unicode_len();
    if n == 0 {
        return None;
    }
    let c0 = s.get_char(0);
    let neg = c0 == '-';
    let start: usize = if c0 == '+' || c0 == '-' {
        1
    } else {
        0
    };
    proof {
        if start == 1 {
            assert(int_body(s@) =~= s@.skip(1));
        } else {
            assert(int_body(s@) =~= s@.skip(0));
            assert(s@.skip(0) =~= s@);
        }
    }
    let ghost body = int_body(s@);
    if start == n {
        // a bare sign has no digits
        return None;
    }
    let mut i: usize = start;
    let mut acc: i64 = 0;
    proof {
        assert(body.take(0) =~= Seq::<char>::empty());
    }
    while i < n
        invariant
            n == s@.len(),
            start <= i <= n,
            start < n,
            body == int_body(s@),
            body == s@.skip(start as int),
            all_digits(body.take(i - start)),
            0 <= acc <= 0x8000_0000i64,
            acc == digits_val(body.take(i - start)),
        decreases n - i,
    {
        let c = s.get_char(i);
        if !is_digit(c) {
            proof {
                let k = i - start;
                assert(0 <= k < body.len());
                assert(body[k as int] == s@[i as int]);
                assert(!spec_is_digit(body[k as int]));
                assert(!all_digits(body));
                assert(!is_i32_token(s@));
            }
            return None;
        }
        let d: i64 = ((c as u32) - 48) as i64;
        proof {
            let p = body.take(i - start + 1);
            assert(p.drop_last() =~= body.take(i - start));
            assert(p.last() == body[i - start]);
            assert(body[i - start] == s@[i as int]);
        }
        acc = acc * 10 + d;
        i += 1;
        if acc > 0x8000_0000i64 {
            // too many digits: no completion of this prefix fits in an i32
            proof {
                if is_i32_token(s@) {
                    assert(all_digits(body));
                    lemma_digits_val_prefix_le(body, i - start);
                    lemma_digits_val_nonneg(body);
                }
            }
            return None;
        }
    }
    proof {
        assert(body.take(i - start) =~= body);
        assert(is_digits(body));
    }
    if neg {
        let v: i64 = -acc;
        proof {
            assert(int_negative(s@));
            assert(int_token_val(s@) == -digits_val(body));
        }
        Some(v as i32)
    } else {
        if acc > 0x7FFF_FFFFi64 {
            proof {
                assert(int_token_val(s@) == digits_val(body));
            }
            return None;
        }
        Some(acc as i32)
    }
}

// ---------------------------------------------------------------------------
// Rendering integers in decimal
// ---------------------------------------------------------------------------
/// The decimal digits of a non-negative value, most significant first.
pub open spec fn dec_digits(n: int) -> Seq<char>
    decreases n,
{
    if n < 10 {
        seq![digit_char(if n >= 0 {
            n
        } else {
            0
        })]
    } else {
        dec_digits(n / 10).push(digit_char(n % 10))
    }
}

/// The decimal rendering of a signed value.
pub open spec fn spec_i32_string(n: int) -> Seq<char> {
    if n < 0 {
        seq!['-'] + dec_digits(-n)
    } else {
        dec_digits(n)
    }
}

/// The one-character string for a decimal digit value.
fn digit_str(d: u8) -> (r: &'static str)
    requires
        d < 10,
    ensures
        r@ == seq![digit_char(d as int)],
{
    let r = match d {
        0u8 => "0",
        1u8 => "1",
        2u8 => "2",
        3u8 => "3",
        4u8 => "4",
        5u8 => "5",
        6u8 => "6",
        7u8 => "7",
        8u8 => "8",
        _ => "9",
    };
    proof {
        reveal_strlit("0");
        reveal_strlit("1");
        reveal_strlit("2");
        reveal_strlit("3");
        reveal_strlit("4");
        reveal_strlit("5");
        reveal_strlit("6");
        reveal_strlit("7");
        reveal_strlit("8");
        reveal_strlit("9");
        assert(r@ =~= seq![digit_char(d as int)]);
    }
    r
}

/// Renders a non-negative value in decimal.
fn u64_to_string(m: u64) -> (r: String)
    ensures
        r@ == dec_digits(m as int),
    decreases m,
{
    if m < 10 {
        let r = digit_str(m as u8).to_owned();
        proof {
            assert(r@ =~= seq![digit_char(m as int)]);
        }
        r
    } else {
        let mut r = u64_to_string(m / 10);
        r.append(digit_str((m % 10) as u8));
        proof {
            assert(r@ =~= dec_digits((m / 10) as int).push(digit_char((m % 10) as int)));
        }
        r
    }
}

proof fn lemma_dec_digits_are_digits(n: int)
    requires
        n >= 0,
    ensures
        dec_digits(n).len() >= 1,
        all_digits(dec_digits(n)),
    decreases n,
{
    if n < 10 {
        assert(spec_is_digit(digit_char(n)));
    } else {
        lemma_dec_digits_are_digits(n / 10);
        let s = dec_digits(n);
        assert(s == dec_digits(n / 10).push(digit_char(n % 10)));
        assert(spec_is_digit(digit_char(n % 10)));
        assert forall|i: int| 0 <= i < s.len() implies spec_is_digit(#[trigger] s[i]) by {
            if i < s.len() - 1 {
                assert(s[i] == dec_digits(n / 10)[i]);
            }
        }
    }
}

proof fn lemma_dec_digits_value(n: int)
    requires
        n >= 0,
    ensures
        digits_val(dec_digits(n)) == n,
    decreases n,
{
    if n < 10 {
        let s = dec_digits(n);
        assert(s == seq![digit_char(n)]);
        assert(s.len() == 1 && s.last() == digit_char(n));
        assert(s.drop_last() =~= Seq::<char>::empty());
        assert(digits_val(Seq::<char>::empty()) == 0);
        assert(digits_val(s) == digits_val(s.drop_last()) * 10 + digit_val(s.last()));
        assert(digit_val(digit_char(n)) == n);
    } else {
        lemma_dec_digits_value(n / 10);
        let s = dec_digits(n);
        assert(s == dec_digits(n / 10).push(digit_char(n % 10)));
        assert(s.len() >= 1);
        assert(s.drop_last() =~= dec_digits(n / 10));
        assert(s.last() == digit_char(n % 10));
        assert(digits_val(s) == digits_val(s.drop_last()) * 10 + digit_val(s.last()));
        assert(digit_val(digit_char(n % 10)) == n % 10);
        assert(n / 10 * 10 + n % 10 == n);
    }
}

/// Rendering a value in decimal and parsing the rendering gives the value
/// back: the renderer and the integer-token parser agree on every `i32`.
pub proof fn lemma_i32_string_round_trip(v: int)
    requires
        i32::MIN <= v <= i32::MAX,
    ensures
        is_i32_token(spec_i32_string(v)),
        int_token_val(spec_i32_string(v)) == v,
{
    if v < 0 {
        lemma_dec_digits_are_digits(-v);
        lemma_dec_digits_value(-v);
        let s = spec_i32_string(v);
        assert(s == seq!['-'] + dec_digits(-v));
        assert(s[0] == '-');
        assert(s.drop_first() =~= dec_digits(-v));
        assert(int_body(s) == dec_digits(-v));
        assert(int_negative(s));
    } else {
        lemma_dec_digits_are_digits(v);
        lemma_dec_digits_value(v);
        let s = spec_i32_string(v);
        assert(s == dec_digits(v));
        assert(spec_is_digit(s[0]));
        assert(s[0] != '+' && s[0] != '-');
        assert(int_body(s) == s);
        assert(!int_negative(s));
    }
}

// ---------------------------------------------------------------------------
// Float tokens, as `str::parse::<f32>` accepts them
// ---------------------------------------------------------------------------
/// The named special float values, in any letter case.
pub open spec fn is_special_float(b: Seq<char>) -> bool {
    ||| lower_seq(b) == "inf"@
    ||| lower_seq(b) == "infinity"@
    ||| lower_seq(b) == "nan"@
}

/// A mantissa: decimal digits holding at most one decimal point, with at
/// least one digit.
pub open spec fn mantissa_ok(m: Seq<char>) -> bool {
    &&& forall|i: int, j: int|
        #![trigger m[i], m[j]]
        0 <= i < j < m.len() && m[i] == '.' ==> m[j] != '.'
    &&& forall|i: int| 0 <= i < m.len() && #[trigger] m[i] != '.' ==> spec_is_digit(m[i])
    &&& exists|i: int| 0 <= i < m.len() && spec_is_digit(#[trigger] m[i])
}

pub open spec fn is_exp_marker(c: char) -> bool {
    c == 'e' || c == 'E'
}

/// An exponent: an optional sign, then one or more decimal digits.
pub open spec fn exp_ok(x: Seq<char>) -> bool {
    is_digits(int_body(x))
}

/// A numeric float body: a mantissa, optionally followed by an exponent
/// marker and an exponent.
pub open spec fn float_number_ok(b: Seq<char>) -> bool {
    if exists|i: int| 0 <= i < b.len() && is_exp_marker(#[trigger] b[i]) {
        exists|i: int|
            {
                &&& 0 <= i < b.len()
                &&& is_exp_marker(#[trigger] b[i])
                &&& forall|j: int| 0 <= j < i ==> !is_exp_marker(#[trigger] b[j])
                &&& mantissa_ok(b.take(i))
                &&& exp_ok(b.skip(i + 1))
            }
    } else {
        mantissa_ok(b)
    }
}

/// `s` is what `str::parse::<f32>` accepts: an optional sign, then one of the
/// special names or a decimal number with an optional exponent.
pub open spec fn is_float_token(s: Seq<char>) -> bool {
    is_special_float(int_body(s)) || float_number_ok(int_body(s))
}

/// Checks a mantissa over the characters of `s` between `from` and `to`.
fn mantissa_ok_range(s: &str, from: usize, to: usize) -> (r: bool)
    requires
        from <= to <= s@.len(),
    ensures
        r == mantissa_ok(s@.subrange(from as int, to as int)),
{
    let ghost m = s@.subrange(from as int, to as int);
    let mut seen_dot = false;
    let mut seen_digit = false;
    let mut i: usize = from;
    while i < to
        invariant
            from <= i <= to <= s@.len(),
            m == s@.subrange(from as int, to as int),
            seen_dot == exists|k: int| 0 <= k < i - from && #[trigger] m[k] == '.',
            seen_digit == exists|k: int| 0 <= k < i - from && spec_is_digit(#[trigger] m[k]),
            forall|k: int| 0 <= k < i - from && #[trigger] m[k] != '.' ==> spec_is_digit(m[k]),
            forall|k: int, l: int|
                #![trigger m[k], m[l]]
                0 <= k < l < i - from && m[k] == '.' ==> m[l] != '.',
        decreases to - i,
    {
        let c = s.get_char(i);
        proof {
            assert(m[i - from] == s@[i as int]);
        }
        if c == '.' {
            if seen_dot {
                proof {
                    let k = choose|k: int| 0 <= k < i - from && #[trigger] m[k] == '.';
                    assert(m[k] == '.' && m[i - from] == '.');
                    assert(!mantissa_ok(m));
                }
                return false;
            }
            seen_dot = true;
        } else if is_digit(c) {
            seen_digit = true;
        } else {
            proof {
                assert(m[i - from] != '.' && !spec_is_digit(m[i - from]));
                assert(!mantissa_ok(m));
            }
            return false;
        }
        i += 1;
    }
    proof {
        assert(i - from == m.len());
        if seen_digit {
            assert(mantissa_ok(m));
        } else {
            assert(!mantissa_ok(m));
        }
    }
    seen_digit
}

/// Checks an exponent over the characters of `s` between `from` and `to`.
fn exp_ok_range(s: &str, from: usize, to: usize) -> (r: bool)
    requires
        from <= to <= s@.len(),
    ensures
        r == exp_ok(s@.subrange(from as int, to as int)),
{
    let ghost x = s@.subrange(from as int, to as int);
    let mut i: usize = from;
    if i < to {
        let c = s.get_char(i);
        if c == '+' || c == '-' {
            i += 1;
            proof {
                assert(x[0] == s@[from as int]);
                assert(int_body(x) =~= s@.subrange(from as int + 1, to as int));
            }
        } else {
            proof {
                assert(x[0] == s@[from as int]);
                assert(int_body(x) =~= x);
            }
        }
    } else {
        proof {
            assert(int_body(x) =~= x);
        }
    }
    let ghost bd = s@.subrange(i as int, to as int);
    proof {
        assert(bd =~= int_body(x));
    }
    if i == to {
        proof {
            assert(bd.len() == 0);
            assert(!is_digits(bd));
            assert(bd == int_body(x));
            assert(!exp_ok(x));
        }
        return false;
    }
    let start = i;
    while i < to
        invariant
            start <= i <= to <= s@.len(),
            start < to,
            x == s@.subrange(from as int, to as int),
            bd == int_body(x),
            bd == s@.subrange(start as int, to as int),
            forall|k: int| 0 <= k < i - start ==> spec_is_digit(#[trigger] bd[k]),
        decreases to - i,
    {
        let c = s.get_char(i);
        proof {
            assert(bd[i - start] == s@[i as int]);
        }
        if !is_digit(c) {
            proof {
                assert(!spec_is_digit(bd[i - start]));
                assert(!all_digits(bd));
            }
            return false;
        }
        i += 1;
    }
    proof {
        assert(all_digits(bd));
        assert(is_digits(bd));
    }
    true
}

/// Decides whether `str::parse::<f32>` would accept `s`.
pub fn is_float_token_str(s: &str) -> (r: bool)
    ensures
        r == is_float_token(s@),
{
    let n = s.unicode_len();
    let start: usize = if n > 0 && (s.get_char(0) == '+' || s.get_char(0) == '-') {
        1
    } else {
        0
    };
    let ghost b = int_body(s@);
    proof {
        assert(b =~= s@.subrange(start as int, n as int));
    }
    let rem = s.substring_char(start, n);
    if eq_ignore_ascii_case(rem, "inf") || eq_ignore_ascii_case(rem, "infinity")
        || eq_ignore_ascii_case(rem, "nan") {
        return true;
    }
    // the body is not a special name; scan for the first exponent marker
    let mut k: usize = start;
    while k < n && !(s.get_char(k) == 'e' || s.get_char(k) == 'E')
        invariant
            start <= k <= n,
            n == s@.len(),
            forall|j: int| start <= j < k ==> !is_exp_marker(#[trigger] s@[j]),
        decreases n - k,
    {
        k += 1;
    }
    if k == n {
        let r = mantissa_ok_range(s, start, n);
        proof {
            assert(forall|i: int| 0 <= i < b.len() ==> !is_exp_marker(#[trigger] b[i]));
        }
        r
    } else {
        let mant = mantissa_ok_range(s, start, k);
        let e = exp_ok_range(s, k + 1, n);
        proof {
            let w = k - start;
            assert(b[w] == s@[k as int]);
            assert(is_exp_marker(b[w]));
            assert(forall|j: int| 0 <= j < w ==> !is_exp_marker(#[trigger] b[j]));
            assert(b.take(w) =~= s@.subrange(start as int, k as int));
            assert(b.skip(w + 1) =~= s@.subrange(k as int + 1, n as int));
            if mant && e {
                assert(float_number_ok(b));
            } else {
                assert(!float_number_ok(b)) by {
                    if float_number_ok(b) {
                        let i = choose|i: int|
                            {
                                &&& 0 <= i < b.len()
                                &&& is_exp_marker(#[trigger] b[i])
                                &&& forall|j: int| 0 <= j < i ==> !is_exp_marker(#[trigger] b[j])
                                &&& mantissa_ok(b.take(i))
                                &&& exp_ok(b.skip(i + 1))
                            };
                        assert(i == w);
                    }
                }
            }
        }
        mant && e
    }
}

/// Renders a signed value in decimal, as `i32`'s `Display` does.
pub fn i32_to_string(v: i32) -> (r: String)
    ensures
        r@ == spec_i32_string(v as int),
{
    if v < 0 {
        let m: i64 = -(v as i64);
        let mut r = String::from_str("-");
        proof {
            reveal_strlit("-");
            assert(r@ =~= seq!['-']);
        }
        r.append(u64_to_string(m as u64).as_str());
        proof {
            assert(r@ =~= seq!['-'] + dec_digits(m as int));
        }
        r
    } else {
        u64_to_string(v as u64)
    }
}

} // verus!
