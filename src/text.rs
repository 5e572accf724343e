use vstd::prelude::*;

verus! {

pub open spec fn is_digit(c: char) -> bool {
    '0' <= c && c <= '9'
}

pub open spec fn digit_value(c: char) -> int {
    c as int - '0' as int
}

/// A non-empty run of decimal digits.
pub open spec fn all_digits(s: Seq<char>) -> bool {
    s.len() > 0 && forall|i: int| 0 <= i < s.len() ==> is_digit(#[trigger] s[i])
}

/// The number that a run of decimal digits denotes.
pub open spec fn digits_value(s: Seq<char>) -> int
    decreases s.len(),
{
    if s.len() == 0 {
        0
    } else {
        digits_value(s.drop_last()) * 10 + digit_value(s.last())
    }
}

/// The integer that the standard decimal rule reads from `s`, before any bound
/// on its size: an optional `+` (or, for signed types, `-`) followed by at least one
/// digit, with nothing else around it.
pub open spec fn decimal_of(s: Seq<char>, signed: bool) -> Option<int> {
    if s.len() > 0 && s[0] == '+' {
        if all_digits(s.skip(1)) {
            Some(digits_value(s.skip(1)))
        } else {
            None
        }
    } else if signed && s.len() > 0 && s[0] == '-' {
        if all_digits(s.skip(1)) {
            Some(-digits_value(s.skip(1)))
        } else {
            None
        }
    } else if all_digits(s) {
        Some(digits_value(s))
    } else {
        None
    }
}

/// The value of type with bounds `lo..=hi` that `s` denotes, if any.
pub open spec fn decimal_in(s: Seq<char>, signed: bool, lo: int, hi: int) -> Option<int> {
    match decimal_of(s, signed) {
        Some(v) => if lo <= v && v <= hi {
            Some(v)
        } else {
            None
        },
        None => None,
    }
}

/// Why a text is not an integer of a type, in the standard rule's terms.
#[derive(Clone, Copy, Debug, PartialEq, Eq, Structural)]
pub enum IntErrorKind {
    /// The text is empty.
    Empty,
    /// A character is no digit (a lone sign counts as one).
    InvalidDigit,
    /// The value is above the type's maximum.
    PosOverflow,
    /// The value is below the type's minimum.
    NegOverflow,
}

/// Whether the text is negative, and the digits after the sign.
pub open spec fn sign_split(s: Seq<char>, signed: bool) -> (bool, Seq<char>) {
    if s.len() > 0 && s[0] == '+' {
        (false, s.skip(1))
    } else if signed && s.len() > 0 && s[0] == '-' {
        (true, s.skip(1))
    } else {
        (false, s)
    }
}

/// The first fault met reading digits `d` from position `k` on, left to right:
/// a character that is no digit, or a prefix whose value passes `bound`.
pub open spec fn digits_error(d: Seq<char>, neg: bool, bound: int, k: int) -> IntErrorKind
    decreases d.len() - k,
{
    if k < 0 || k >= d.len() {
        IntErrorKind::InvalidDigit
    } else if !is_digit(d[k]) {
        IntErrorKind::InvalidDigit
    } else if digits_value(d.take(k + 1)) > bound {
        if neg {
            IntErrorKind::NegOverflow
        } else {
            IntErrorKind::PosOverflow
        }
    } else {
        digits_error(d, neg, bound, k + 1)
    }
}

/// The error kind the standard rule gives for a text it rejects for the
/// type with bounds `lo..=hi`.
pub open spec fn int_error(s: Seq<char>, signed: bool, lo: int, hi: int) -> IntErrorKind {
    if s.len() == 0 {
        IntErrorKind::Empty
    } else {
        let (neg, d) = sign_split(s, signed);
        if d.len() == 0 {
            IntErrorKind::InvalidDigit
        } else {
            digits_error(
                d,
                neg,
                if neg {
                    -lo
                } else {
                    hi
                },
                0,
            )
        }
    }
}

proof fn lemma_digits_nonneg(s: Seq<char>)
    requires
        forall|i: int| 0 <= i < s.len() ==> is_digit(#[trigger] s[i]),
    ensures
        digits_value(s) >= 0,
    decreases s.len(),
{
    if s.len() > 0 {
        lemma_digits_nonneg(s.drop_last());
    }
}

proof fn lemma_digits_prefix_le(s: Seq<char>, j: int, k: int)
    requires
        0 <= j <= k <= s.len(),
        forall|i: int| 0 <= i < s.len() ==> is_digit(#[trigger] s[i]),
    ensures
        digits_value(s.take(j)) <= digits_value(s.take(k)),
    decreases k - j,
{
    if j < k {
        lemma_digits_prefix_le(s, j, k - 1);
        assert(s.take(k).drop_last() =~= s.take(k - 1));
        lemma_digits_nonneg(s.take(k - 1));
    }
}

/// Reads the digits of `s` from `start` on, left to right, as a magnitude of
/// at most `bound`; the error is the first fault met.
fn scan_digits(s: &str, start: usize, neg: bool, bound: u128) -> (r: Result<u128, IntErrorKind>)
    requires
        start <= s@.len(),
    ensures
        match r {
            Ok(m) => all_digits(s@.skip(start as int)) && m as int == digits_value(
                s@.skip(start as int),
            ) && m <= bound,
            Err(k) => !(all_digits(s@.skip(start as int)) && digits_value(s@.skip(start as int))
                <= bound) && k == digits_error(s@.skip(start as int), neg, bound as int, 0),
        },
{
    let n = s.unicode_len();
    let ghost t = s@.skip(start as int);
    if start >= n {
        return Err(IntErrorKind::InvalidDigit);
    }
    let mut m: u128 = 0;
    let mut i: usize = start;
    assert(t.take(0) =~= Seq::<char>::empty());
    while i < n
        invariant
            start <= i <= n,
            n == s@.len(),
            t == s@.skip(start as int),
            forall|k: int| 0 <= k < i - start ==> is_digit(#[trigger] t[k]),
            m as int == digits_value(t.take(i - start)),
            m <= bound,
            digits_error(t, neg, bound as int, 0) == digits_error(t, neg, bound as int, i - start),
        decreases n - i,
    {
        let c = s.get_char(i);
        let ghost k = i - start;
        assert(t[k] == c);
        if c < '0' || c > '9' {
            return Err(IntErrorKind::InvalidDigit);
        }
        let d = (c as u32 - '0' as u32) as u128;
        assert(t.take(k + 1).drop_last() =~= t.take(k));
        assert(t.take(k + 1).last() == c);
        let next = match m.checked_mul(10) {
            Some(m10) => m10.checked_add(d),
            None => None,
        };
        let fits = match next {
            Some(v) => v <= bound,
            None => false,
        };
        if !fits {
            proof {
                if all_digits(t) {
                    lemma_digits_prefix_le(t, k + 1, t.len() as int);
                    assert(t.take(t.len() as int) =~= t);
                }
            }
            if neg {
                return Err(IntErrorKind::NegOverflow);
            } else {
                return Err(IntErrorKind::PosOverflow);
            }
        }
        m = match next {
            Some(v) => v,
            None => 0,
        };
        i = i + 1;
    }
    assert(t.take(i - start) =~= t);
    Ok(m)
}

/// Reads `s` by the standard decimal rule for a type whose values run from
/// `-neg_bound` to `pos_bound`: `(negative, magnitude)`, or the error kind.
fn read_integer(s: &str, signed: bool, neg_bound: u128, pos_bound: u128) -> (r: Result<
    (bool, u128),
    IntErrorKind,
>)
    ensures
        match r {
            Ok((neg, m)) => (neg ==> signed) && m <= (if neg {
                neg_bound
            } else {
                pos_bound
            }) && decimal_of(s@, signed) == Some(
                if neg {
                    -(m as int)
                } else {
                    m as int
                },
            ),
            Err(k) => decimal_in(s@, signed, -(neg_bound as int), pos_bound as int) is None && k
                == int_error(s@, signed, -(neg_bound as int), pos_bound as int),
        },
{
    let n = s.unicode_len();
    if n == 0 {
        assert(!all_digits(s@));
        return Err(IntErrorKind::Empty);
    }
    let c = s.get_char(0);
    if c == '+' {
        match scan_digits(s, 1, false, pos_bound) {
            Ok(m) => Ok((false, m)),
            Err(k) => Err(k),
        }
    } else if signed && c == '-' {
        match scan_digits(s, 1, true, neg_bound) {
            Ok(m) => Ok((true, m)),
            Err(k) => Err(k),
        }
    } else {
        assert(s@.skip(0) =~= s@);
        match scan_digits(s, 0, false, pos_bound) {
            Ok(m) => Ok((false, m)),
            Err(k) => Err(k),
        }
    }
}

/// The negative of a magnitude that fits below `i128`'s minimum.
fn negated(m: u128) -> (r: i128)
    requires
        m <= 170141183460469231731687303715884105728u128,
    ensures
        r as int == -(m as int),
{
    if m == 170141183460469231731687303715884105728u128 {
        i128::MIN
    } else {
        0 - (m as i128)
    }
}

/// The same text, character for character.
pub fn same_text(a: &str, b: &str) -> (r: bool)
    ensures
        r == (a@ == b@),
{
    let n = a.unicode_len();
    if n != b.unicode_len() {
        return false;
    }
    let mut i: usize = 0;
    while i < n
        invariant
            n == a@.len() == b@.len(),
            i <= n,
            forall|k: int| 0 <= k < i ==> a@[k] == b@[k],
        decreases n - i,
    {
        if a.get_char(i) != b.get_char(i) {
            return false;
        }
        i = i + 1;
    }
    assert(a@ =~= b@);
    true
}

/// Reads `true` or `false`, exactly as written.
pub fn parse_bool(s: &str) -> (r: Option<bool>)
    ensures
        r == (if s@ == "true"@ {
            Some(true)
        } else if s@ == "false"@ {
            Some(false)
        } else {
            None::<bool>
        }),
{
    if same_text(s, "true") {
        Some(true)
    } else if same_text(s, "false") {
        Some(false)
    } else {
        None
    }
}

/// Reads a text of exactly one character.
pub fn parse_char(s: &str) -> (r: Option<char>)
    ensures
        r == (if s@.len() == 1 {
            Some(s@[0])
        } else {
            None::<char>
        }),
{
    if s.unicode_len() == 1 {
        Some(s.get_char(0))
    } else {
        None
    }
}

/// Reads an `i8` by the standard decimal rule.
pub fn parse_i8(s: &str) -> (r: Result<i8, IntErrorKind>)
    ensures
        match r {
            Ok(v) => decimal_in(s@, true, i8::MIN as int, i8::MAX as int) == Some(v as int),
            Err(k) => decimal_in(s@, true, i8::MIN as int, i8::MAX as int) is None && k
                == int_error(s@, true, i8::MIN as int, i8::MAX as int),
        },
{
    match read_integer(s, true, i8::MAX as u128 + 1, i8::MAX as u128) {
        Ok((neg, m)) => if neg {
            Ok(negated(m) as i8)
        } else {
            Ok(m as i8)
        },
        Err(k) => Err(k),
    }
}

/// Reads an `i16` by the standard decimal rule.
pub fn parse_i16(s: &str) -> (r: Result<i16, IntErrorKind>)
    ensures
        match r {
            Ok(v) => decimal_in(s@, true, i16::MIN as int, i16::MAX as int) == Some(v as int),
            Err(k) => decimal_in(s@, true, i16::MIN as int, i16::MAX as int) is None && k
                == int_error(s@, true, i16::MIN as int, i16::MAX as int),
        },
{
    match read_integer(s, true, i16::MAX as u128 + 1, i16::MAX as u128) {
        Ok((neg, m)) => if neg {
            Ok(negated(m) as i16)
        } else {
            Ok(m as i16)
        },
        Err(k) => Err(k),
    }
}

/// Reads an `i32` by the standard decimal rule.
pub fn parse_i32(s: &str) -> (r: Result<i32, IntErrorKind>)
    ensures
        match r {
            Ok(v) => decimal_in(s@, true, i32::MIN as int, i32::MAX as int) == Some(v as int),
            Err(k) => decimal_in(s@, true, i32::MIN as int, i32::MAX as int) is None && k
                == int_error(s@, true, i32::MIN as int, i32::MAX as int),
        },
{
    match read_integer(s, true, i32::MAX as u128 + 1, i32::MAX as u128) {
        Ok((neg, m)) => if neg {
            Ok(negated(m) as i32)
        } else {
            Ok(m as i32)
        },
        Err(k) => Err(k),
    }
}

/// Reads an `i64` by the standard decimal rule.
pub fn parse_i64(s: &str) -> (r: Result<i64, IntErrorKind>)
    ensures
        match r {
            Ok(v) => decimal_in(s@, true, i64::MIN as int, i64::MAX as int) == Some(v as int),
            Err(k) => decimal_in(s@, true, i64::MIN as int, i64::MAX as int) is None && k
                == int_error(s@, true, i64::MIN as int, i64::MAX as int),
        },
{
    match read_integer(s, true, i64::MAX as u128 + 1, i64::MAX as u128) {
        Ok((neg, m)) => if neg {
            Ok(negated(m) as i64)
        } else {
            Ok(m as i64)
        },
        Err(k) => Err(k),
    }
}

/// Reads an `i128` by the standard decimal rule.
pub fn parse_i128(s: &str) -> (r: Result<i128, IntErrorKind>)
    ensures
        match r {
            Ok(v) => decimal_in(s@, true, i128::MIN as int, i128::MAX as int) == Some(v as int),
            Err(k) => decimal_in(s@, true, i128::MIN as int, i128::MAX as int) is None && k
                == int_error(s@, true, i128::MIN as int, i128::MAX as int),
        },
{
    match read_integer(s, true, i128::MAX as u128 + 1, i128::MAX as u128) {
        Ok((neg, m)) => if neg {
            Ok(negated(m) as i128)
        } else {
            Ok(m as i128)
        },
        Err(k) => Err(k),
    }
}

/// Reads an `isize` by the standard decimal rule.
pub fn parse_isize(s: &str) -> (r: Result<isize, IntErrorKind>)
    ensures
        match r {
            Ok(v) => decimal_in(s@, true, isize::MIN as int, isize::MAX as int) == Some(v as int),
            Err(k) => decimal_in(s@, true, isize::MIN as int, isize::MAX as int) is None && k
                == int_error(s@, true, isize::MIN as int, isize::MAX as int),
        },
{
    match read_integer(s, true, isize::MAX as u128 + 1, isize::MAX as u128) {
        Ok((neg, m)) => if neg {
            Ok(negated(m) as isize)
        } else {
            Ok(m as isize)
        },
        Err(k) => Err(k),
    }
}

/// Reads a `u8` by the standard decimal rule.
pub fn parse_u8(s: &str) -> (r: Result<u8, IntErrorKind>)
    ensures
        match r {
            Ok(v) => decimal_in(s@, false, 0, u8::MAX as int) == Some(v as int),
            Err(k) => decimal_in(s@, false, 0, u8::MAX as int) is None && k == int_error(
                s@,
                false,
                0,
                u8::MAX as int,
            ),
        },
{
    match read_integer(s, false, 0, u8::MAX as u128) {
        Ok((_, m)) => Ok(m as u8),
        Err(k) => Err(k),
    }
}

/// Reads a `u16` by the standard decimal rule.
pub fn parse_u16(s: &str) -> (r: Result<u16, IntErrorKind>)
    ensures
        match r {
            Ok(v) => decimal_in(s@, false, 0, u16::MAX as int) == Some(v as int),
            Err(k) => decimal_in(s@, false, 0, u16::MAX as int) is None && k == int_error(
                s@,
                false,
                0,
                u16::MAX as int,
            ),
        },
{
    match read_integer(s, false, 0, u16::MAX as u128) {
        Ok((_, m)) => Ok(m as u16),
        Err(k) => Err(k),
    }
}

/// Reads a `u32` by the standard decimal rule.
pub fn parse_u32(s: &str) -> (r: Result<u32, IntErrorKind>)
    ensures
        match r {
            Ok(v) => decimal_in(s@, false, 0, u32::MAX as int) == Some(v as int),
            Err(k) => decimal_in(s@, false, 0, u32::MAX as int) is None && k == int_error(
                s@,
                false,
                0,
                u32::MAX as int,
            ),
        },
{
    match read_integer(s, false, 0, u32::MAX as u128) {
        Ok((_, m)) => Ok(m as u32),
        Err(k) => Err(k),
    }
}

/// Reads a `u64` by the standard decimal rule.
pub fn parse_u64(s: &str) -> (r: Result<u64, IntErrorKind>)
    ensures
        match r {
            Ok(v) => decimal_in(s@, false, 0, u64::MAX as int) == Some(v as int),
            Err(k) => decimal_in(s@, false, 0, u64::MAX as int) is None && k == int_error(
                s@,
                false,
                0,
                u64::MAX as int,
            ),
        },
{
    match read_integer(s, false, 0, u64::MAX as u128) {
        Ok((_, m)) => Ok(m as u64),
        Err(k) => Err(k),
    }
}

/// Reads a `u128` by the standard decimal rule.
pub fn parse_u128(s: &str) -> (r: Result<u128, IntErrorKind>)
    ensures
        match r {
            Ok(v) => decimal_in(s@, false, 0, u128::MAX as int) == Some(v as int),
            Err(k) => decimal_in(s@, false, 0, u128::MAX as int) is None && k == int_error(
                s@,
                false,
                0,
                u128::MAX as int,
            ),
        },
{
    match read_integer(s, false, 0, u128::MAX as u128) {
        Ok((_, m)) => Ok(m as u128),
        Err(k) => Err(k),
    }
}

/// Reads a `usize` by the standard decimal rule.
pub fn parse_usize(s: &str) -> (r: Result<usize, IntErrorKind>)
    ensures
        match r {
            Ok(v) => decimal_in(s@, false, 0, usize::MAX as int) == Some(v as int),
            Err(k) => decimal_in(s@, false, 0, usize::MAX as int) is None && k == int_error(
                s@,
                false,
                0,
                usize::MAX as int,
            ),
        },
{
    match read_integer(s, false, 0, usize::MAX as u128) {
        Ok((_, m)) => Ok(m as usize),
        Err(k) => Err(k),
    }
}

pub open spec fn digit_char(d: nat) -> char {
    if d == 0 {
        '0'
    } else if d == 1 {
        '1'
    } else if d == 2 {
        '2'
    } else if d == 3 {
        '3'
    } else if d == 4 {
        '4'
    } else if d == 5 {
        '5'
    } else if d == 6 {
        '6'
    } else if d == 7 {
        '7'
    } else if d == 8 {
        '8'
    } else {
        '9'
    }
}

/// The decimal digits of `n`, with no leading zero.
pub open spec fn digits_text(n: nat) -> Seq<char>
    decreases n,
{
    if n < 10 {
        seq![digit_char(n)]
    } else {
        digits_text(n / 10).push(digit_char(n % 10))
    }
}

/// The usual decimal text of an integer: a `-` for negatives, then its digits.
pub open spec fn decimal_text(v: int) -> Seq<char> {
    if v < 0 {
        seq!['-'] + digits_text((-v) as nat)
    } else {
        digits_text(v as nat)
    }
}

proof fn lemma_digit_char(d: nat)
    requires
        d < 10,
    ensures
        is_digit(digit_char(d)),
        digit_value(digit_char(d)) == d,
{
}

proof fn lemma_digits_text(n: nat)
    ensures
        all_digits(digits_text(n)),
        digits_value(digits_text(n)) == n,
    decreases n,
{
    lemma_digit_char(n % 10);
    if n >= 10 {
        lemma_digits_text(n / 10);
        let t = digits_text(n);
        assert(t.drop_last() =~= digits_text(n / 10));
        assert forall|i: int| 0 <= i < t.len() implies is_digit(#[trigger] t[i]) by {
            if i < t.len() - 1 {
                assert(t[i] == digits_text(n / 10)[i]);
            }
        }
    } else {
        assert(seq![digit_char(n)].drop_last() =~= Seq::<char>::empty());
        assert(digits_value(Seq::<char>::empty()) == 0);
        assert(n % 10 == n);
    }
}

/// Reading back the decimal text of any integer in a type's range gives that
/// integer: the signed rule reads every such value, the unsigned rule every
/// non-negative one.
pub proof fn lemma_decimal_round_trip(v: int, signed: bool, lo: int, hi: int)
    requires
        lo <= v <= hi,
        signed || v >= 0,
    ensures
        decimal_in(decimal_text(v), signed, lo, hi) == Some(v),
{
    if v < 0 {
        let d = digits_text((-v) as nat);
        lemma_digits_text((-v) as nat);
        assert(decimal_text(v).skip(1) =~= d);
    } else {
        lemma_digits_text(v as nat);
        let t = decimal_text(v);
        assert(is_digit(t[0]));
    }
}

/// Reading back the text of a boolean gives that boolean.
pub proof fn lemma_bool_round_trip(b: bool)
    ensures
        (if (if b {
            "true"@
        } else {
            "false"@
        }) == "true"@ {
            Some(true)
        } else if (if b {
            "true"@
        } else {
            "false"@
        }) == "false"@ {
            Some(false)
        } else {
            None::<bool>
        }) == Some(b),
{
    reveal_strlit("true");
    reveal_strlit("false");
    assert("true"@[0] != "false"@[0]);
}

/// Reading back the one-character text of a character gives that character.
pub proof fn lemma_char_round_trip(c: char)
    ensures
        (if seq![c].len() == 1 {
            Some(seq![c][0])
        } else {
            None::<char>
        }) == Some(c),
{
}

} // verus!
