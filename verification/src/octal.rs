use vstd::prelude::*;
use crate::error::DecodeError;

verus! {

/// Index of the first position at or after `i` that does not hold an ASCII
/// space, or the length of `s` if every later byte is a space.
pub open spec fn skip_spaces(s: Seq<u8>, i: int) -> int
    recommends 0 <= i <= s.len(),
    decreases s.len() - i when 0 <= i <= s.len()
{
    if i < s.len() && s[i] == 0x20 {
        skip_spaces(s, i + 1)
    } else {
        i
    }
}

/// Index of the first position at or after `i` that holds a field terminator
/// (NUL or space), or the length of `s` if there is none.
pub open spec fn digits_end(s: Seq<u8>, i: int) -> int
    recommends 0 <= i <= s.len(),
    decreases s.len() - i when 0 <= i <= s.len()
{
    if i < s.len() && s[i] != 0x00 && s[i] != 0x20 {
        digits_end(s, i + 1)
    } else {
        i
    }
}

pub open spec fn is_octal_digit(b: u8) -> bool {
    0x30 <= b <= 0x37
}

pub open spec fn all_octal_digits(s: Seq<u8>, i: int, j: int) -> bool {
    forall|k: int| i <= k < j ==> is_octal_digit(#[trigger] s[k])
}

/// Numeric value of the octal digit run `s[i..j]`, most significant first.
pub open spec fn octal_value(s: Seq<u8>, i: int, j: int) -> int
    decreases j - i
{
    if i >= j {
        0
    } else {
        octal_value(s, i, j - 1) * 8 + s[j - 1] - 0x30
    }
}

pub open spec fn pow8(n: nat) -> int
    decreases n
{
    if n == 0 {
        1
    } else {
        8 * pow8((n - 1) as nat)
    }
}

/// What a numeric header field denotes: leading spaces are skipped, then a
/// run of octal digits ends at the first NUL or space (or the end of the
/// field); anything past the terminator is ignored. A field with no digit
/// run, or with a non-octal byte inside the run, denotes nothing.
pub open spec fn spec_parse_octal(s: Seq<u8>) -> Option<int> {
    let a = skip_spaces(s, 0);
    let b = digits_end(s, a);
    if b <= a || !all_octal_digits(s, a, b) {
        None
    } else {
        Some(octal_value(s, a, b))
    }
}

pub proof fn lemma_octal_value_bound(s: Seq<u8>, i: int, j: int)
    requires
        0 <= i <= j <= s.len(),
        all_octal_digits(s, i, j),
    ensures
        0 <= octal_value(s, i, j) < pow8((j - i) as nat),
    decreases j - i,
{
    if i < j {
        lemma_octal_value_bound(s, i, j - 1);
        assert(pow8((j - i) as nat) == 8 * pow8((j - i - 1) as nat));
        assert(is_octal_digit(s[j - 1]));
    }
}

pub proof fn lemma_pow8_increases(m: nat, n: nat)
    requires m <= n,
    ensures pow8(m) <= pow8(n),
    decreases n,
{
    if m < n {
        lemma_pow8_increases(m, (n - 1) as nat);
        assert(pow8((n - 1) as nat) >= 1) by {
            lemma_pow8_increases(0, (n - 1) as nat);
        }
    }
}

/// Parse one numeric header field as an octal number.
///
/// Returns the denoted value, or `InvalidNumericField` where the field
/// denotes nothing.
pub fn parse_octal(s: &[u8]) -> (r: Result<u64, DecodeError>)
    requires
        s@.len() <= 12,
    ensures
        (match spec_parse_octal(s@) {
            Some(v) => r == Ok::<u64, DecodeError>(v as u64) && 0 <= v <= u64::MAX,
            None => r == Err::<u64, DecodeError>(DecodeError::InvalidNumericField),
        }),
{
    let n = s.len();
    let mut a: usize = 0;
    while a < n && s[a] == 0x20
        invariant
            0 <= a <= n,
            n == s@.len() <= 12,
            skip_spaces(s@, 0) == skip_spaces(s@, a as int),
        decreases n - a,
    {
        a += 1;
    }
    assert(skip_spaces(s@, 0) == a as int);

    let mut b: usize = a;
    let mut acc: u64 = 0;
    let mut ok: bool = true;
    while b < n && s[b] != 0x00 && s[b] != 0x20
        invariant
            0 <= a <= b <= n,
            n == s@.len() <= 12,
            skip_spaces(s@, 0) == a as int,
            digits_end(s@, a as int) == digits_end(s@, b as int),
            ok <==> all_octal_digits(s@, a as int, b as int),
            ok ==> acc == octal_value(s@, a as int, b as int),
        decreases n - b,
    {
        let c = s[b];
        if c >= 0x30 && c <= 0x37 {
            if ok {
                proof {
                    lemma_octal_value_bound(s@, a as int, b as int);
                    lemma_pow8_increases((b - a) as nat, 11);
                    reveal_with_fuel(pow8, 13);
                    assert(pow8(11) == 0x200000000);
                }
                acc = acc * 8 + ((c - 0x30) as u64);
            }
        } else {
            ok = false;
            acc = 0;
        }
        b += 1;
    }
    assert(digits_end(s@, a as int) == b as int);

    if ok && b > a {
        proof {
            lemma_octal_value_bound(s@, a as int, b as int);
        }
        Ok(acc)
    } else {
        Err(DecodeError::InvalidNumericField)
    }
}

}
