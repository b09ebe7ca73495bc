//! Decoding of hexadecimal quantities as a JSON-RPC node reports them.
//!
//! A quantity arrives as a string such as `"0x3b9aca00"`. Leading `"0x"`
//! pairs are stripped, one leading `'+'` sign is accepted, and the remaining
//! characters must be hexadecimal digits of either case whose value fits in
//! a `u128`.

use vstd::prelude::*;

verus! {

/// A hexadecimal digit of either case.
pub open spec fn is_hex_digit(c: char) -> bool {
    ('0' <= c && c <= '9') || ('a' <= c && c <= 'f') || ('A' <= c && c <= 'F')
}

/// The numeric value of one hexadecimal digit.
pub open spec fn hex_digit_value(c: char) -> nat
    recommends
        is_hex_digit(c),
{
    if '0' <= c && c <= '9' {
        (c as nat - '0' as nat) as nat
    } else if 'a' <= c && c <= 'f' {
        (c as nat - 'a' as nat + 10) as nat
    } else {
        (c as nat - 'A' as nat + 10) as nat
    }
}

pub open spec fn all_hex_digits(s: Seq<char>) -> bool {
    forall|i: int| 0 <= i < s.len() ==> is_hex_digit(#[trigger] s[i])
}

/// The value of a big-endian string of hexadecimal digits.
pub open spec fn hex_value(s: Seq<char>) -> nat
    decreases s.len(),
{
    if s.len() == 0 {
        0
    } else {
        hex_value(s.drop_last()) * 16 + hex_digit_value(s.last())
    }
}

/// Every leading `"0x"` pair removed, as repeated prefix stripping leaves it.
pub open spec fn strip_hex_prefixes(s: Seq<char>) -> Seq<char>
    decreases s.len(),
{
    if s.len() >= 2 && s[0] == '0' && s[1] == 'x' {
        strip_hex_prefixes(s.skip(2))
    } else {
        s
    }
}

/// One leading `'+'` sign removed, as unsigned radix parsing accepts it.
pub open spec fn drop_plus(s: Seq<char>) -> Seq<char> {
    if s.len() >= 1 && s[0] == '+' {
        s.skip(1)
    } else {
        s
    }
}

/// The digit characters that remain once the prefix and the sign are gone.
pub open spec fn hex_digits_of(s: Seq<char>) -> Seq<char> {
    drop_plus(strip_hex_prefixes(s))
}

/// A string that decodes to a `u128` quantity: at least one digit after the
/// prefix and the sign, every character a hexadecimal digit, and a value
/// that fits.
pub open spec fn is_valid_quantity(s: Seq<char>) -> bool {
    &&& hex_digits_of(s).len() > 0
    &&& all_hex_digits(hex_digits_of(s))
    &&& hex_value(hex_digits_of(s)) <= u128::MAX
}

/// What decoding a quantity string yields.
pub open spec fn spec_decode(s: Seq<char>) -> Option<u128> {
    if is_valid_quantity(s) {
        Some(hex_value(hex_digits_of(s)) as u128)
    } else {
        None
    }
}

/// A digit string is worth at least as much as any of its prefixes.
proof fn lemma_hex_value_take_le(s: Seq<char>, k: int)
    requires
        0 <= k <= s.len(),
    ensures
        hex_value(s.take(k)) <= hex_value(s),
    decreases s.len(),
{
    if k == s.len() {
        assert(s.take(k) =~= s);
    } else {
        assert(s.drop_last().take(k) =~= s.take(k));
        lemma_hex_value_take_le(s.drop_last(), k);
    }
}

/// The digit value of one character, or `None` where it is no digit.
pub(crate) fn hex_digit_val_exec(c: char) -> (r: Option<u8>)
    ensures
        r == if is_hex_digit(c) {
            Some(hex_digit_value(c) as u8)
        } else {
            None::<u8>
        },
{
    let u = c as u32;
    if '0' as u32 <= u && u <= '9' as u32 {
        Some((u - '0' as u32) as u8)
    } else if 'a' as u32 <= u && u <= 'f' as u32 {
        Some((u - 'a' as u32 + 10) as u8)
    } else if 'A' as u32 <= u && u <= 'F' as u32 {
        Some((u - 'A' as u32 + 10) as u8)
    } else {
        None
    }
}

/// Decodes a hexadecimal quantity string to its value.
///
/// Returns `Some` exactly on the strings that `is_valid_quantity` admits:
/// any number of leading `"0x"` pairs and one optional `'+'` are accepted,
/// the digits may be of either case, and the value must fit in a `u128`.
pub fn decode_quantity(s: &str) -> (r: Option<u128>)
    ensures
        r == spec_decode(s@),
{
    let n = s.unicode_len();
    let mut i: usize = 0;
    proof {
        assert(s@.skip(0) =~= s@);
    }
    while n - i >= 2 && s.get_char(i) == '0' && s.get_char(i + 1) == 'x'
        invariant
            i <= n,
            n == s@.len(),
            strip_hex_prefixes(s@) == strip_hex_prefixes(s@.skip(i as int)),
        decreases n - i,
    {
        proof {
            assert(s@.skip(i as int).skip(2) =~= s@.skip(i as int + 2));
        }
        i = i + 2;
    }
    proof {
        assert(strip_hex_prefixes(s@.skip(i as int)) == s@.skip(i as int));
    }
    if i < n && s.get_char(i) == '+' {
        proof {
            assert(s@.skip(i as int).skip(1) =~= s@.skip(i as int + 1));
        }
        i = i + 1;
    } else {
        proof {
            assert(drop_plus(s@.skip(i as int)) == s@.skip(i as int));
        }
    }
    let ghost digits: Seq<char> = s@.skip(i as int);
    proof {
        assert(hex_digits_of(s@) == digits);
    }
    if i == n {
        return None;
    }
    let start = i;
    let mut acc: u128 = 0;
    let mut j: usize = start;
    while j < n
        invariant
            start <= j <= n,
            n == s@.len(),
            start < n,
            digits == s@.skip(start as int),
            hex_digits_of(s@) == digits,
            acc == hex_value(digits.take(j - start)),
            all_hex_digits(digits.take(j - start)),
        decreases n - j,
    {
        let c = s.get_char(j);
        proof {
            assert(digits[j - start] == c);
        }
        match hex_digit_val_exec(c) {
            None => {
                proof {
                    assert(!is_hex_digit(hex_digits_of(s@)[j - start]));
                }
                return None;
            },
            Some(d) => {
                proof {
                    assert(digits.take(j - start + 1).drop_last() =~= digits.take(j - start));
                    assert(digits.take(j - start + 1).last() == digits[j - start]);
                }
                if acc > (u128::MAX - d as u128) / 16 {
                    proof {
                        let pre = digits.take(j - start + 1);
                        assert(hex_value(pre) == acc * 16 + d);
                        assert(acc * 16 + d > u128::MAX) by {
                            vstd::arithmetic::div_mod::lemma_fundamental_div_mod(
                                u128::MAX - d as u128 as int,
                                16,
                            );
                        };
                        lemma_hex_value_take_le(digits, j - start + 1);
                        assert(hex_value(digits) > u128::MAX);
                    }
                    return None;
                }
                proof {
                    assert(acc * 16 + d <= u128::MAX) by {
                        vstd::arithmetic::div_mod::lemma_fundamental_div_mod(
                            u128::MAX - d as u128 as int,
                            16,
                        );
                    };
                }
                acc = acc * 16 + d as u128;
                j = j + 1;
            },
        }
    }
    proof {
        assert(digits.take(n - start) =~= digits);
    }
    Some(acc)
}

/// A leading `"0x"` prefix is transparent to decoding: the string with the
/// prefix and the string without it select the same digits, and decode to
/// the same quantity.
pub proof fn lemma_prefix_transparent(s: Seq<char>)
    requires
        s.len() >= 2,
        s[0] == '0',
        s[1] == 'x',
    ensures
        hex_digits_of(s) == hex_digits_of(s.skip(2)),
        spec_decode(s) == spec_decode(s.skip(2)),
{
}

/// Decoding depends only on the digit values: two digit strings whose
/// characters carry the same values — as an upper-case and a lower-case
/// spelling of the same digits do — decode to the same number.
pub proof fn lemma_case_insensitive(a: Seq<char>, b: Seq<char>)
    requires
        a.len() == b.len(),
        forall|i: int| 0 <= i < a.len() ==> hex_digit_value(#[trigger] a[i]) == hex_digit_value(#[trigger] b[i]),
    ensures
        hex_value(a) == hex_value(b),
    decreases a.len(),
{
    if a.len() > 0 {
        lemma_case_insensitive(a.drop_last(), b.drop_last());
    }
}

} // verus!
