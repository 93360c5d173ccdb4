//! Characters and decimal / hexadecimal notation.

use vstd::prelude::*;
use vstd::string::*;

verus! {

/// The ten decimal digits, in order.
pub open spec fn decimal_digit_chars() -> Seq<char> {
    seq!['0', '1', '2', '3', '4', '5', '6', '7', '8', '9']
}

/// The sixteen lowercase hexadecimal digits, in order.
pub open spec fn hex_digit_chars() -> Seq<char> {
    seq!['0', '1', '2', '3', '4', '5', '6', '7', '8', '9', 'a', 'b', 'c', 'd', 'e', 'f']
}

/// The decimal notation of `n`, without sign or leading zeros.
pub open spec fn decimal(n: nat) -> Seq<char>
    decreases n,
{
    if n < 10 {
        seq![decimal_digit_chars()[n as int]]
    } else {
        decimal(n / 10).push(decimal_digit_chars()[(n % 10) as int])
    }
}

/// The one-character string of decimal digit `d`.
fn digit_str(d: u64) -> (r: &'static str)
    requires
        d < 10,
    ensures
        r@ == seq![decimal_digit_chars()[d as int]],
{
    match d {
        0 => { proof { reveal_strlit("0"); } "0" },
        1 => { proof { reveal_strlit("1"); } "1" },
        2 => { proof { reveal_strlit("2"); } "2" },
        3 => { proof { reveal_strlit("3"); } "3" },
        4 => { proof { reveal_strlit("4"); } "4" },
        5 => { proof { reveal_strlit("5"); } "5" },
        6 => { proof { reveal_strlit("6"); } "6" },
        7 => { proof { reveal_strlit("7"); } "7" },
        8 => { proof { reveal_strlit("8"); } "8" },
        _ => { proof { reveal_strlit("9"); } "9" },
    }
}

/// Appends the decimal notation of `n` to `s`.
pub fn push_decimal(s: &mut String, n: u64)
    ensures
        final(s)@ == old(s)@ + decimal(n as nat),
    decreases n,
{
    if n >= 10 {
        push_decimal(s, n / 10);
    }
    s.append(digit_str(n % 10));
    proof {
        if n >= 10 {
            assert(old(s)@ + decimal(n as nat) =~= old(s)@ + decimal((n / 10) as nat) + seq![
                decimal_digit_chars()[(n % 10) as int],
            ]);
        } else {
            assert(n % 10 == n);
        }
    }
}

/// Whether `c` is one of the sixteen lowercase hexadecimal digits.
pub open spec fn is_hex_digit(c: char) -> bool {
    ('0' <= c && c <= '9') || ('a' <= c && c <= 'f')
}

/// The value of a lowercase hexadecimal digit.
pub open spec fn hex_digit_value(c: char) -> nat {
    if '0' <= c && c <= '9' {
        (c as u32 - '0' as u32) as nat
    } else {
        (c as u32 - 'a' as u32 + 10) as nat
    }
}

/// Sixteen to the power `n`.
pub open spec fn pow16(n: nat) -> nat
    decreases n,
{
    if n == 0 {
        1
    } else {
        16 * pow16((n - 1) as nat)
    }
}

/// The number that a string of hexadecimal digits denotes, most significant first.
pub open spec fn hex_value(s: Seq<char>) -> nat
    decreases s.len(),
{
    if s.len() == 0 {
        0
    } else {
        hex_value(s.drop_last()) * 16 + hex_digit_value(s.last())
    }
}

/// Lowercase hexadecimal notation of a byte string: two digits per byte,
/// the high nibble first.
pub open spec fn hex_lower(b: Seq<u8>) -> Seq<char> {
    Seq::new(
        2 * b.len(),
        |i: int|
            if i % 2 == 0 {
                hex_digit_chars()[(b[i / 2] / 16) as int]
            } else {
                hex_digit_chars()[(b[i / 2] % 16) as int]
            },
    )
}

/// Every character of `s` is a lowercase hexadecimal digit.
pub open spec fn all_hex_digits(s: Seq<char>) -> bool {
    forall|i: int| 0 <= i < s.len() ==> is_hex_digit(#[trigger] s[i])
}

/// Each character of the hexadecimal notation of bytes is a hexadecimal digit.
pub proof fn lemma_hex_lower_digits(b: Seq<u8>)
    ensures
        hex_lower(b).len() == 2 * b.len(),
        all_hex_digits(hex_lower(b)),
{
    assert forall|i: int| 0 <= i < hex_lower(b).len() implies is_hex_digit(
        #[trigger] hex_lower(b)[i],
    ) by {
        let k: int = if i % 2 == 0 {
            (b[i / 2] / 16) as int
        } else {
            (b[i / 2] % 16) as int
        };
        assert(0 <= k < 16);
        assert(hex_lower(b)[i] == hex_digit_chars()[k]);
    }
}

proof fn lemma_pow16_monotone(a: nat, b: nat)
    requires
        a <= b,
    ensures
        pow16(a) <= pow16(b),
    decreases b - a,
{
    if a < b {
        lemma_pow16_monotone(a, (b - 1) as nat);
    }
}

/// A string of `n` hexadecimal digits denotes a number below sixteen to the `n`.
pub proof fn lemma_hex_value_bound(s: Seq<char>)
    requires
        all_hex_digits(s),
    ensures
        hex_value(s) < pow16(s.len()),
    decreases s.len(),
{
    if s.len() > 0 {
        let t = s.drop_last();
        assert(is_hex_digit(s[s.len() - 1]));
        lemma_hex_value_bound(t);
        let h = hex_value(t);
        let p = pow16(t.len());
        let d = hex_digit_value(s.last());
        assert(d < 16);
        assert(h * 16 + d < 16 * p) by (nonlinear_arith)
            requires
                h < p,
                d < 16,
        ;
    }
}

/// Sixteen hexadecimal digits denote a number that fits in 64 bits.
pub proof fn lemma_pow16_sixteen()
    ensures
        pow16(16) == 0x1_0000_0000_0000_0000,
{
    reveal_with_fuel(pow16, 17);
}

/// The value of one hexadecimal digit, if `c` is one.
pub fn hex_digit(c: char) -> (r: Option<u8>)
    ensures
        r == (if is_hex_digit(c) {
            Some(hex_digit_value(c) as u8)
        } else {
            None::<u8>
        }),
        r is Some ==> r.unwrap() < 16,
{
    if '0' <= c && c <= '9' {
        Some((c as u32 - '0' as u32) as u8)
    } else if 'a' <= c && c <= 'f' {
        Some((c as u32 - 'a' as u32 + 10) as u8)
    } else {
        None
    }
}

/// The number that `s` denotes when it is exactly `width` lowercase
/// hexadecimal digits (at most sixteen), and `None` otherwise.
pub fn parse_hex_exact(s: &str, width: usize) -> (r: Option<u64>)
    requires
        width <= 16,
    ensures
        r == (if s@.len() == width && all_hex_digits(s@) {
            Some(hex_value(s@) as u64)
        } else {
            None::<u64>
        }),
        r is Some ==> r.unwrap() as nat == hex_value(s@),
{
    let n = s.unicode_len();
    if n != width {
        return None;
    }
    let mut acc: u64 = 0;
    let mut i: usize = 0;
    proof {
        lemma_pow16_sixteen();
    }
    while i < n
        invariant
            n == s@.len(),
            n <= 16,
            i <= n,
            all_hex_digits(s@.subrange(0, i as int)),
            acc as nat == hex_value(s@.subrange(0, i as int)),
            acc < pow16(i as nat),
            pow16(16) == 0x1_0000_0000_0000_0000,
        decreases n - i,
    {
        let c = s.get_char(i);
        match hex_digit(c) {
            None => {
                proof {
                    assert(!all_hex_digits(s@));
                }
                return None;
            },
            Some(d) => {
                proof {
                    lemma_pow16_monotone((i + 1) as nat, 16);
                    assert(acc * 16 + d < 16 * pow16(i as nat)) by (nonlinear_arith)
                        requires
                            acc < pow16(i as nat),
                            d < 16,
                    ;
                    assert(s@.subrange(0, i + 1).drop_last() =~= s@.subrange(0, i as int));
                }
                acc = acc * 16 + d as u64;
                i = i + 1;
            },
        }
    }
    proof {
        assert(s@.subrange(0, n as int) =~= s@);
    }
    Some(acc)
}

/// Whether `c` is a decimal digit.
pub open spec fn is_decimal_digit(c: char) -> bool {
    '0' <= c && c <= '9'
}

/// Every character of `s` is a decimal digit.
pub open spec fn all_decimal(s: Seq<char>) -> bool {
    forall|i: int| 0 <= i < s.len() ==> is_decimal_digit(#[trigger] s[i])
}

/// The number that a string of decimal digits denotes, most significant first.
pub open spec fn decimal_value(s: Seq<char>) -> nat
    decreases s.len(),
{
    if s.len() == 0 {
        0
    } else {
        decimal_value(s.drop_last()) * 10 + (s.last() as u32 - '0' as u32) as nat
    }
}

/// The longest run of decimal digits in `s` that starts at `from`: where it
/// ends, and the number it denotes if that fits in 64 bits.
pub fn decimal_run(s: &str, from: usize) -> (r: (usize, Option<u64>))
    requires
        from <= s@.len(),
    ensures
        from <= r.0 <= s@.len(),
        all_decimal(s@.subrange(from as int, r.0 as int)),
        r.0 == s@.len() || !is_decimal_digit(s@[r.0 as int]),
        r.1 == (if decimal_value(s@.subrange(from as int, r.0 as int)) <= u64::MAX {
            Some(decimal_value(s@.subrange(from as int, r.0 as int)) as u64)
        } else {
            None::<u64>
        }),
{
    let n = s.unicode_len();
    let mut i: usize = from;
    let mut acc: u64 = 0;
    let mut fits = true;
    while i < n
        invariant
            n == s@.len(),
            from <= i <= n,
            all_decimal(s@.subrange(from as int, i as int)),
            fits ==> acc as nat == decimal_value(s@.subrange(from as int, i as int)),
            !fits ==> decimal_value(s@.subrange(from as int, i as int)) > u64::MAX,
        ensures
            from <= i <= n,
            all_decimal(s@.subrange(from as int, i as int)),
            fits ==> acc as nat == decimal_value(s@.subrange(from as int, i as int)),
            !fits ==> decimal_value(s@.subrange(from as int, i as int)) > u64::MAX,
            i == n || !is_decimal_digit(s@[i as int]),
        decreases n - i,
    {
        let c = s.get_char(i);
        if !('0' <= c && c <= '9') {
            break;
        }
        let d = (c as u32 - '0' as u32) as u64;
        let ghost prev = decimal_value(s@.subrange(from as int, i as int));
        proof {
            assert(s@.subrange(from as int, i + 1).drop_last() =~= s@.subrange(from as int, i as int));
            assert(decimal_value(s@.subrange(from as int, i + 1)) == prev * 10 + d);
        }
        if fits {
            if acc > (u64::MAX - d) / 10 {
                fits = false;
                proof {
                    assert(acc * 10 + d > u64::MAX) by (nonlinear_arith)
                        requires
                            acc > (u64::MAX - d) / 10,
                            d <= 9,
                    ;
                }
            } else {
                proof {
                    assert(acc * 10 + d <= u64::MAX) by (nonlinear_arith)
                        requires
                            acc <= (u64::MAX - d) / 10,
                            d <= 9,
                    ;
                }
                acc = acc * 10 + d;
            }
        } else {
            proof {
                assert(prev * 10 + d >= prev) by (nonlinear_arith);
            }
        }
        i = i + 1;
        proof {
            assert forall|j: int| 0 <= j < s@.subrange(from as int, i as int).len() implies is_decimal_digit(
                #[trigger] s@.subrange(from as int, i as int)[j],
            ) by {
                if j < i - 1 - from {
                    assert(s@.subrange(from as int, i as int)[j] == s@.subrange(
                        from as int,
                        i - 1,
                    )[j]);
                }
            }
        }
    }
    if fits {
        (i, Some(acc))
    } else {
        (i, None)
    }
}

} // verus!
