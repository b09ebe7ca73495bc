//! Rendering a base-unit price as a display string.
//!
//! A price is shown either as the plain base-unit integer followed by
//! `" wei"`, or scaled to gwei with two decimal digits followed by
//! `" gwei"`. The scaled form carries hundredths of a gwei, with the third
//! decimal rounded half-up; the precision this keeps is what a display
//! needs, not exact accounting.

use vstd::prelude::*;

verus! {

/// The character of one decimal digit.
pub open spec fn dec_digit_char(d: nat) -> char
    recommends
        d < 10,
{
    ((d + 48) as u8) as char
}

/// The decimal digit string of a number, without leading zeros except for
/// the number zero itself.
pub open spec fn dec_str(n: nat) -> Seq<char>
    decreases n,
{
    if n < 10 {
        seq![dec_digit_char(n)]
    } else {
        dec_str(n / 10).push(dec_digit_char(n % 10))
    }
}

/// A sequence read back to front.
pub open spec fn flipped(s: Seq<char>) -> Seq<char> {
    Seq::new(s.len(), |i: int| s[s.len() - 1 - i])
}

/// A price in hundredths of a gwei, rounded half-up from wei.
pub open spec fn centi_gwei_of(wei: nat) -> nat {
    wei / 10_000_000 + if wei % 10_000_000 >= 5_000_000 {
        1nat
    } else {
        0nat
    }
}

/// What `format_price` renders: the base-unit integer with the `" wei"`
/// label, or the gwei value with two decimal digits and the `" gwei"` label.
pub open spec fn spec_format_price(wei: nat, as_wei: bool) -> Seq<char> {
    if as_wei {
        dec_str(wei) + " wei"@
    } else {
        let c = centi_gwei_of(wei);
        dec_str(c / 100) + seq!['.', dec_digit_char((c / 10) % 10), dec_digit_char(c % 10)]
            + " gwei"@
    }
}

/// Relies on `String`'s `FromIterator<char>` implementation: collecting
/// characters yields the string of exactly those characters in order.
#[verifier::external_body]
pub(crate) fn chars_to_string(v: &Vec<char>) -> (s: String)
    ensures
        s@ == v@,
{
    v.iter().collect()
}

/// The decimal digit characters of a number.
fn u128_to_decimal(n: u128) -> (v: Vec<char>)
    ensures
        v@ == dec_str(n as nat),
{
    let mut rev: Vec<char> = Vec::new();
    let mut m = n;
    if m == 0 {
        let mut out: Vec<char> = Vec::new();
        out.push('0');
        proof {
            assert(out@ =~= dec_str(0));
        }
        return out;
    }
    while m > 0
        invariant
            n > 0,
            m > 0 ==> dec_str(n as nat) == dec_str(m as nat) + flipped(rev@),
            m == 0 ==> dec_str(n as nat) == flipped(rev@),
        decreases m,
    {
        let d = (m % 10) as u8;
        let c = (48 + d) as char;
        proof {
            assert(c == dec_digit_char((m % 10) as nat));
            assert(flipped(rev@.push(c)) =~= seq![c] + flipped(rev@));
            if m >= 10 {
                assert(dec_str(m as nat) == dec_str((m / 10) as nat).push(c));
                assert(dec_str((m / 10) as nat).push(c) + flipped(rev@) =~= dec_str(
                    (m / 10) as nat,
                ) + (seq![c] + flipped(rev@)));
            } else {
                assert(dec_str(m as nat) =~= seq![c]);
                assert(seq![c] + flipped(rev@) =~= flipped(rev@.push(c)));
            }
        }
        rev.push(c);
        m = m / 10;
    }
    let mut out: Vec<char> = Vec::new();
    let mut k: usize = 0;
    while k < rev.len()
        invariant
            k <= rev@.len(),
            out@ == flipped(rev@).take(k as int),
            dec_str(n as nat) == flipped(rev@),
        decreases rev@.len() - k,
    {
        let c = rev[rev.len() - 1 - k];
        proof {
            assert(flipped(rev@).take(k as int + 1) =~= flipped(rev@).take(k as int).push(
                flipped(rev@)[k as int],
            ));
        }
        out.push(c);
        k = k + 1;
    }
    proof {
        assert(flipped(rev@).take(rev@.len() as int) =~= flipped(rev@));
    }
    out
}

/// Renders a base-unit price for display.
///
/// With `as_wei` the literal integer and the `" wei"` label; otherwise the
/// price scaled to gwei, rounded half-up to two decimal digits, and the
/// `" gwei"` label.
pub fn format_price(wei: u128, as_wei: bool) -> (s: String)
    ensures
        s@ == spec_format_price(wei as nat, as_wei),
{
    if as_wei {
        let digits = u128_to_decimal(wei);
        let mut s = chars_to_string(&digits);
        s.append(" wei");
        s
    } else {
        proof {
            vstd::arithmetic::div_mod::lemma_div_is_ordered(
                wei as int,
                u128::MAX as int,
                10_000_000,
            );
        }
        let c: u128 = wei / 10_000_000 + if wei % 10_000_000 >= 5_000_000 {
            1
        } else {
            0
        };
        proof {
            assert(c == centi_gwei_of(wei as nat));
        }
        let mut chars = u128_to_decimal(c / 100);
        chars.push('.');
        let tens = ((c / 10) % 10) as u8;
        let ones = (c % 10) as u8;
        chars.push((48 + tens) as char);
        chars.push((48 + ones) as char);
        let mut s = chars_to_string(&chars);
        s.append(" gwei");
        s
    }
}

/// The displayed gwei value round-trips to within half a hundredth of a
/// gwei: scaling the rendered hundredths back to wei lands within
/// 5,000,000 wei of the original price.
pub proof fn lemma_display_round_trip(wei: nat)
    ensures
        -5_000_000 <= centi_gwei_of(wei) * 10_000_000 - wei <= 5_000_000,
{
    vstd::arithmetic::div_mod::lemma_fundamental_div_mod(wei as int, 10_000_000);
}

} // verus!
