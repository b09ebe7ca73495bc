//! A parser for the JSON bodies a gas-price node replies with.
//!
//! The reply is a JSON object. The parser reads the `"result"` member (a
//! string or `null`) and the `"message"` string inside an `"error"` object
//! member, skips every other member whatever its value, and rejects
//! duplicates of the members it reads, an `"error"` object without a
//! message, and anything that is not a single well-formed object.
//!
//! The specification functions below define the accepted grammar and what
//! is extracted; the executable parser returns exactly what they say.
//! Nesting inside skipped values is bounded by a fuel that the top-level
//! entry points set to the input length, which no input with one value per
//! character can exhaust.

use vstd::prelude::*;

use crate::display::chars_to_string;
use crate::hex::hex_digit_val_exec;
use crate::hex::hex_digit_value;
use crate::hex::is_hex_digit;

verus! {

/// JSON whitespace.
pub open spec fn is_json_ws(c: char) -> bool {
    c == ' ' || c == '\t' || c == '\n' || c == '\r'
}

/// A decimal digit.
pub open spec fn is_dec_digit(c: char) -> bool {
    '0' <= c && c <= '9'
}

/// The first position at or after `i` that holds no whitespace.
pub open spec fn skip_ws(s: Seq<char>, i: int) -> int
    decreases s.len() - i,
{
    if 0 <= i < s.len() && is_json_ws(s[i]) {
        skip_ws(s, i + 1)
    } else {
        i
    }
}

/// The position after `lit` where `s` carries it at `i`.
pub open spec fn match_lit(s: Seq<char>, i: int, lit: Seq<char>) -> Option<int> {
    if 0 <= i && i + lit.len() <= s.len() && s.subrange(i, i + lit.len() as int) == lit {
        Some(i + lit.len() as int)
    } else {
        None
    }
}

/// The value of four hexadecimal digits at `i`.
pub open spec fn hex4_at(s: Seq<char>, i: int) -> Option<nat> {
    if 0 <= i && i + 4 <= s.len() && is_hex_digit(s[i]) && is_hex_digit(s[i + 1]) && is_hex_digit(
        s[i + 2],
    ) && is_hex_digit(s[i + 3]) {
        Some(
            (hex_digit_value(s[i]) * 4096 + hex_digit_value(s[i + 1]) * 256 + hex_digit_value(
                s[i + 2],
            ) * 16 + hex_digit_value(s[i + 3])) as nat,
        )
    } else {
        None
    }
}

/// The character a single-character escape stands for.
pub open spec fn escape_char(e: char) -> Option<char> {
    if e == '"' {
        Some('"')
    } else if e == '\\' {
        Some('\\')
    } else if e == '/' {
        Some('/')
    } else if e == 'b' {
        Some('\u{0008}')
    } else if e == 'f' {
        Some('\u{000C}')
    } else if e == 'n' {
        Some('\n')
    } else if e == 'r' {
        Some('\r')
    } else if e == 't' {
        Some('\t')
    } else {
        None
    }
}

/// The content and end of a string body starting at `i`, which points just
/// after the opening quote. Escapes are decoded; a `\u` escape in the high
/// surrogate range must pair with a low one, and an unpaired surrogate,
/// an unknown escape or an unescaped control character rejects the string.
pub open spec fn parse_string(s: Seq<char>, i: int) -> Option<(Seq<char>, int)>
    decreases s.len() - i,
{
    if !(0 <= i < s.len()) {
        None
    } else if s[i] == '"' {
        Some((Seq::empty(), i + 1))
    } else if s[i] == '\\' {
        if i + 1 < s.len() {
            let e = s[i + 1];
            if e == 'u' {
                match hex4_at(s, i + 2) {
                    Some(code) => if 0xD800 <= code < 0xDC00 {
                        if i + 8 <= s.len() && s[i + 6] == '\\' && s[i + 7] == 'u' {
                            match hex4_at(s, i + 8) {
                                Some(code2) => if 0xDC00 <= code2 < 0xE000 {
                                    let full = (0x10000 + (code - 0xD800) * 0x400 + (code2
                                        - 0xDC00)) as nat;
                                    match parse_string(s, i + 12) {
                                        Some(p) => Some((seq![full as char] + p.0, p.1)),
                                        None => None,
                                    }
                                } else {
                                    None
                                },
                                None => None,
                            }
                        } else {
                            None
                        }
                    } else if 0xDC00 <= code < 0xE000 {
                        None
                    } else {
                        match parse_string(s, i + 6) {
                            Some(p) => Some((seq![code as char] + p.0, p.1)),
                            None => None,
                        }
                    },
                    None => None,
                }
            } else {
                match escape_char(e) {
                    Some(c) => match parse_string(s, i + 2) {
                        Some(p) => Some((seq![c] + p.0, p.1)),
                        None => None,
                    },
                    None => None,
                }
            }
        } else {
            None
        }
    } else if (s[i] as u32) < 0x20 {
        None
    } else {
        match parse_string(s, i + 1) {
            Some(p) => Some((seq![s[i]] + p.0, p.1)),
            None => None,
        }
    }
}

/// The first position at or after `i` that holds no decimal digit.
pub open spec fn skip_digits(s: Seq<char>, i: int) -> int
    decreases s.len() - i,
{
    if 0 <= i < s.len() && is_dec_digit(s[i]) {
        skip_digits(s, i + 1)
    } else {
        i
    }
}

/// The end of an optional fraction part at `k`.
pub open spec fn parse_frac(s: Seq<char>, k: int) -> Option<int> {
    if 0 <= k < s.len() && s[k] == '.' {
        if k + 1 < s.len() && is_dec_digit(s[k + 1]) {
            Some(skip_digits(s, k + 1))
        } else {
            None
        }
    } else {
        Some(k)
    }
}

/// The end of an optional exponent part at `k`.
pub open spec fn parse_exp(s: Seq<char>, k: int) -> Option<int> {
    if 0 <= k < s.len() && (s[k] == 'e' || s[k] == 'E') {
        let m = if k + 1 < s.len() && (s[k + 1] == '+' || s[k + 1] == '-') {
            k + 2
        } else {
            k + 1
        };
        if m < s.len() && is_dec_digit(s[m]) {
            Some(skip_digits(s, m))
        } else {
            None
        }
    } else {
        Some(k)
    }
}

/// The end of a number starting at `i`: an optional minus sign, an integer
/// part without a superfluous leading zero, then optional fraction and
/// exponent parts.
pub open spec fn parse_number(s: Seq<char>, i: int) -> Option<int> {
    let j = if 0 <= i < s.len() && s[i] == '-' {
        i + 1
    } else {
        i
    };
    if 0 <= j < s.len() && is_dec_digit(s[j]) {
        let k = if s[j] == '0' {
            j + 1
        } else {
            skip_digits(s, j)
        };
        match parse_frac(s, k) {
            Some(k2) => parse_exp(s, k2),
            None => None,
        }
    } else {
        None
    }
}

/// The end of the value starting at `i`, whatever its kind.
pub open spec fn skip_value(s: Seq<char>, i: int, fuel: nat) -> Option<int>
    decreases fuel, 1nat,
{
    if fuel == 0 {
        None
    } else if !(0 <= i < s.len()) {
        None
    } else {
        let c = s[i];
        if c == '"' {
            match parse_string(s, i + 1) {
                Some(p) => Some(p.1),
                None => None,
            }
        } else if c == '{' {
            skip_members(s, skip_ws(s, i + 1), true, (fuel - 1) as nat)
        } else if c == '[' {
            skip_elements(s, skip_ws(s, i + 1), true, (fuel - 1) as nat)
        } else if c == 't' {
            match_lit(s, i, "true"@)
        } else if c == 'f' {
            match_lit(s, i, "false"@)
        } else if c == 'n' {
            match_lit(s, i, "null"@)
        } else if c == '-' || is_dec_digit(c) {
            parse_number(s, i)
        } else {
            None
        }
    }
}

/// The end of an object whose members are skipped; `i` points at the
/// closing brace of an empty object or at the quote of the next key.
pub open spec fn skip_members(s: Seq<char>, i: int, first: bool, fuel: nat) -> Option<int>
    decreases fuel, 1nat,
{
    if fuel == 0 {
        None
    } else if !(0 <= i < s.len()) {
        None
    } else if first && s[i] == '}' {
        Some(i + 1)
    } else if s[i] == '"' {
        match parse_string(s, i + 1) {
            Some(kp) => {
                let j = skip_ws(s, kp.1);
                if j < s.len() && s[j] == ':' {
                    match skip_value(s, skip_ws(s, j + 1), (fuel - 1) as nat) {
                        Some(k) => {
                            let m = skip_ws(s, k);
                            if m < s.len() && s[m] == ',' {
                                skip_members(s, skip_ws(s, m + 1), false, (fuel - 1) as nat)
                            } else if m < s.len() && s[m] == '}' {
                                Some(m + 1)
                            } else {
                                None
                            }
                        },
                        None => None,
                    }
                } else {
                    None
                }
            },
            None => None,
        }
    } else {
        None
    }
}

/// The end of an array whose elements are skipped; `i` points at the
/// closing bracket of an empty array or at the first character of the next
/// element.
pub open spec fn skip_elements(s: Seq<char>, i: int, first: bool, fuel: nat) -> Option<int>
    decreases fuel, 1nat,
{
    if fuel == 0 {
        None
    } else if !(0 <= i < s.len()) {
        None
    } else if first && s[i] == ']' {
        Some(i + 1)
    } else {
        match skip_value(s, i, (fuel - 1) as nat) {
            Some(k) => {
                let m = skip_ws(s, k);
                if m < s.len() && s[m] == ',' {
                    skip_elements(s, skip_ws(s, m + 1), false, (fuel - 1) as nat)
                } else if m < s.len() && s[m] == ']' {
                    Some(m + 1)
                } else {
                    None
                }
            },
            None => None,
        }
    }
}

/// Continues an error object after one member's value ending at `k`: a
/// comma leads to the next member, a brace closes the object, which must
/// have carried a message by then.
pub open spec fn error_after(s: Seq<char>, k: int, msg: Option<Seq<char>>, fuel: nat) -> Option<
    (Seq<char>, int),
>
    decreases fuel, 0nat,
{
    let m = skip_ws(s, k);
    if m < s.len() && s[m] == ',' {
        if fuel == 0 {
            None
        } else {
            error_members(s, skip_ws(s, m + 1), false, msg, (fuel - 1) as nat)
        }
    } else if m < s.len() && s[m] == '}' {
        match msg {
            Some(t) => Some((t, m + 1)),
            None => None,
        }
    } else {
        None
    }
}

/// The members of an error object: the `"message"` member must be a string
/// and may come once, every other member is skipped. Yields the message
/// and the position after the closing brace.
pub open spec fn error_members(
    s: Seq<char>,
    i: int,
    first: bool,
    msg: Option<Seq<char>>,
    fuel: nat,
) -> Option<(Seq<char>, int)>
    decreases fuel, 1nat,
{
    if !(0 <= i < s.len()) {
        None
    } else if first && s[i] == '}' {
        match msg {
            Some(t) => Some((t, i + 1)),
            None => None,
        }
    } else if s[i] == '"' {
        match parse_string(s, i + 1) {
            Some(kp) => {
                let j = skip_ws(s, kp.1);
                if j < s.len() && s[j] == ':' {
                    let v = skip_ws(s, j + 1);
                    if kp.0 == "message"@ {
                        if msg is Some {
                            None
                        } else if v < s.len() && s[v] == '"' {
                            match parse_string(s, v + 1) {
                                Some(cp) => error_after(s, cp.1, Some(cp.0), fuel),
                                None => None,
                            }
                        } else {
                            None
                        }
                    } else {
                        if fuel == 0 {
                            None
                        } else {
                            match skip_value(s, v, (fuel - 1) as nat) {
                                Some(k) => error_after(s, k, msg, fuel),
                                None => None,
                            }
                        }
                    }
                } else {
                    None
                }
            },
            None => None,
        }
    } else {
        None
    }
}

/// Continues the top-level object after one member's value ending at `k`.
pub open spec fn top_after(
    s: Seq<char>,
    k: int,
    res: Option<Option<Seq<char>>>,
    err: Option<Option<Seq<char>>>,
    fuel: nat,
) -> Option<(Option<Option<Seq<char>>>, Option<Option<Seq<char>>>, int)>
    decreases fuel, 0nat,
{
    let m = skip_ws(s, k);
    if m < s.len() && s[m] == ',' {
        if fuel == 0 {
            None
        } else {
            top_members(s, skip_ws(s, m + 1), false, res, err, (fuel - 1) as nat)
        }
    } else if m < s.len() && s[m] == '}' {
        Some((res, err, m + 1))
    } else {
        None
    }
}

/// The members of the top-level object. A `"result"` member must be a
/// string or `null`, an `"error"` member must be an object with a message
/// or `null`, each may come once, and every other member is skipped.
/// Yields what was seen of the two members and the position after the
/// closing brace.
pub open spec fn top_members(
    s: Seq<char>,
    i: int,
    first: bool,
    res: Option<Option<Seq<char>>>,
    err: Option<Option<Seq<char>>>,
    fuel: nat,
) -> Option<(Option<Option<Seq<char>>>, Option<Option<Seq<char>>>, int)>
    decreases fuel, 1nat,
{
    if !(0 <= i < s.len()) {
        None
    } else if first && s[i] == '}' {
        Some((res, err, i + 1))
    } else if s[i] == '"' {
        match parse_string(s, i + 1) {
            Some(kp) => {
                let j = skip_ws(s, kp.1);
                if j < s.len() && s[j] == ':' {
                    let v = skip_ws(s, j + 1);
                    if kp.0 == "result"@ {
                        if res is Some {
                            None
                        } else if v < s.len() && s[v] == '"' {
                            match parse_string(s, v + 1) {
                                Some(cp) => top_after(s, cp.1, Some(Some(cp.0)), err, fuel),
                                None => None,
                            }
                        } else if v < s.len() && s[v] == 'n' {
                            match match_lit(s, v, "null"@) {
                                Some(k) => top_after(s, k, Some(None), err, fuel),
                                None => None,
                            }
                        } else {
                            None
                        }
                    } else if kp.0 == "error"@ {
                        if err is Some {
                            None
                        } else if v < s.len() && s[v] == '{' {
                            if fuel == 0 {
                                None
                            } else {
                                match error_members(
                                    s,
                                    skip_ws(s, v + 1),
                                    true,
                                    None,
                                    (fuel - 1) as nat,
                                ) {
                                    Some(ep) => top_after(s, ep.1, res, Some(Some(ep.0)), fuel),
                                    None => None,
                                }
                            }
                        } else if v < s.len() && s[v] == 'n' {
                            match match_lit(s, v, "null"@) {
                                Some(k) => top_after(s, k, res, Some(None), fuel),
                                None => None,
                            }
                        } else {
                            None
                        }
                    } else {
                        if fuel == 0 {
                            None
                        } else {
                            match skip_value(s, v, (fuel - 1) as nat) {
                                Some(k) => top_after(s, k, res, err, fuel),
                                None => None,
                            }
                        }
                    }
                } else {
                    None
                }
            },
            None => None,
        }
    } else {
        None
    }
}

/// What a reply body parses to: the `"result"` member and the `"error"`
/// message of the single top-level object, with nothing but whitespace
/// after it. `None` where the body is not such an object.
pub open spec fn parse_reply(s: Seq<char>) -> Option<
    (Option<Option<Seq<char>>>, Option<Option<Seq<char>>>),
> {
    let i = skip_ws(s, 0);
    if 0 <= i < s.len() && s[i] == '{' {
        match top_members(s, skip_ws(s, i + 1), true, None, None, s.len()) {
            Some(t) => if skip_ws(s, t.2) == s.len() {
                Some((t.0, t.1))
            } else {
                None
            },
            None => None,
        }
    } else {
        None
    }
}

/// Relies on `char::from_u32`: every Unicode scalar value converts to the
/// character of that code, and no code this parser builds is a surrogate.
#[verifier::external_body]
fn char_from_code(code: u32) -> (c: char)
    requires
        code < 0xD800 || (0xE000 <= code && code <= 0x10FFFF),
    ensures
        c as u32 == code,
{
    char::from_u32(code).unwrap()
}

fn is_ws_exec(c: char) -> (b: bool)
    ensures
        b == is_json_ws(c),
{
    c == ' ' || c == '\t' || c == '\n' || c == '\r'
}

fn is_dec_digit_exec(c: char) -> (b: bool)
    ensures
        b == is_dec_digit(c),
{
    let u = c as u32;
    '0' as u32 <= u && u <= '9' as u32
}

fn skip_ws_exec(s: &str, i: usize, n: usize) -> (j: usize)
    requires
        n == s@.len(),
        i <= n,
    ensures
        i <= j <= n,
        j as int == skip_ws(s@, i as int),
{
    let mut j: usize = i;
    while j < n && is_ws_exec(s.get_char(j))
        invariant
            i <= j <= n,
            n == s@.len(),
            skip_ws(s@, i as int) == skip_ws(s@, j as int),
        decreases n - j,
    {
        j = j + 1;
    }
    j
}

/// Whether a parsed key equals a literal.
fn chars_eq_lit(v: &Vec<char>, lit: &str) -> (b: bool)
    ensures
        b == (v@ == lit@),
{
    let m: usize = lit.unicode_len();
    if v.len() != m {
        proof {
            assert(v@ != lit@);
        }
        return false;
    }
    let mut k: usize = 0;
    while k < m
        invariant
            k <= m,
            m == lit@.len(),
            m == v@.len(),
            forall|t: int| 0 <= t < k ==> v@[t] == lit@[t],
        decreases m - k,
    {
        if v[k] != lit.get_char(k) {
            return false;
        }
        k = k + 1;
    }
    proof {
        assert(v@ =~= lit@);
    }
    true
}

fn match_lit_exec(s: &str, i: usize, n: usize, lit: &str) -> (r: Option<usize>)
    requires
        n == s@.len(),
        i <= n,
    ensures
        ({
            let g = match_lit(s@, i as int, lit@);
            match r {
                Some(j) => g == Some(j as int) && i <= j <= n,
                None => g is None,
            }
        }),
{
    let m: usize = lit.unicode_len();
    if n - i < m {
        return None;
    }
    let mut k: usize = 0;
    while k < m
        invariant
            k <= m,
            m == lit@.len(),
            n == s@.len(),
            i + m <= n,
            forall|t: int| 0 <= t < k ==> s@[i + t] == lit@[t],
        decreases m - k,
    {
        if s.get_char(i + k) != lit.get_char(k) {
            proof {
                assert(s@.subrange(i as int, i + m as int)[k as int] == s@[i + k]);
            }
            return None;
        }
        k = k + 1;
    }
    proof {
        assert(s@.subrange(i as int, i + m as int) =~= lit@);
    }
    Some(i + m)
}

fn hex4_exec(s: &str, j: usize, n: usize) -> (r: Option<u32>)
    requires
        n == s@.len(),
        j <= n,
    ensures
        ({
            let g = hex4_at(s@, j as int);
            match r {
                Some(v) => g == Some(v as nat) && v < 0x10000 && j + 4 <= n,
                None => g is None,
            }
        }),
{
    if n - j < 4 {
        return None;
    }
    let d0 = hex_digit_val_exec(s.get_char(j));
    let d1 = hex_digit_val_exec(s.get_char(j + 1));
    let d2 = hex_digit_val_exec(s.get_char(j + 2));
    let d3 = hex_digit_val_exec(s.get_char(j + 3));
    match (d0, d1, d2, d3) {
        (Some(a), Some(b), Some(c), Some(d)) => Some(
            (a as u32) * 4096 + (b as u32) * 256 + (c as u32) * 16 + (d as u32),
        ),
        _ => None,
    }
}

fn escape_char_exec(e: char) -> (r: Option<char>)
    ensures
        r == escape_char(e),
{
    if e == '"' {
        Some('"')
    } else if e == '\\' {
        Some('\\')
    } else if e == '/' {
        Some('/')
    } else if e == 'b' {
        Some('\u{0008}')
    } else if e == 'f' {
        Some('\u{000C}')
    } else if e == 'n' {
        Some('\n')
    } else if e == 'r' {
        Some('\r')
    } else if e == 't' {
        Some('\t')
    } else {
        None
    }
}

fn parse_string_exec(s: &str, i: usize, n: usize) -> (r: Option<(Vec<char>, usize)>)
    requires
        n == s@.len(),
        i <= n,
    ensures
        ({
            let g = parse_string(s@, i as int);
            match r {
                Some(p) => g matches Some(gp) && p.0@ == gp.0 && p.1 as int == gp.1 && i < p.1
                    <= n,
                None => g is None,
            }
        }),
    decreases n - i,
{
    if i >= n {
        return None;
    }
    let c = s.get_char(i);
    if c == '"' {
        let v: Vec<char> = Vec::new();
        return Some((v, i + 1));
    }
    if c == '\\' {
        if n - i < 2 {
            return None;
        }
        let e = s.get_char(i + 1);
        if e == 'u' {
            match hex4_exec(s, i + 2, n) {
                None => None,
                Some(code) => {
                    if 0xD800 <= code && code < 0xDC00 {
                        if n - i >= 8 && s.get_char(i + 6) == '\\' && s.get_char(i + 7) == 'u' {
                            match hex4_exec(s, i + 8, n) {
                                None => None,
                                Some(code2) => {
                                    if 0xDC00 <= code2 && code2 < 0xE000 {
                                        let full: u32 = 0x10000 + (code - 0xD800) * 0x400 + (code2
                                            - 0xDC00);
                                        let ch = char_from_code(full);
                                        match parse_string_exec(s, i + 12, n) {
                                            None => None,
                                            Some((mut v, j)) => {
                                                v.insert(0, ch);
                                                proof {
                                                    let gp = parse_string(
                                                        s@,
                                                        i as int,
                                                    ).unwrap();
                                                    assert(v@ =~= seq![ch] + v@.skip(1));
                                                }
                                                Some((v, j))
                                            },
                                        }
                                    } else {
                                        None
                                    }
                                },
                            }
                        } else {
                            None
                        }
                    } else if 0xDC00 <= code && code < 0xE000 {
                        None
                    } else {
                        let ch = char_from_code(code);
                        match parse_string_exec(s, i + 6, n) {
                            None => None,
                            Some((mut v, j)) => {
                                v.insert(0, ch);
                                proof {
                                    assert(v@ =~= seq![ch] + v@.skip(1));
                                }
                                Some((v, j))
                            },
                        }
                    }
                },
            }
        } else {
            match escape_char_exec(e) {
                None => None,
                Some(ch) => {
                    match parse_string_exec(s, i + 2, n) {
                        None => None,
                        Some((mut v, j)) => {
                            v.insert(0, ch);
                            proof {
                                assert(v@ =~= seq![ch] + v@.skip(1));
                            }
                            Some((v, j))
                        },
                    }
                },
            }
        }
    } else if (c as u32) < 0x20 {
        None
    } else {
        match parse_string_exec(s, i + 1, n) {
            None => None,
            Some((mut v, j)) => {
                v.insert(0, c);
                proof {
                    assert(v@ =~= seq![c] + v@.skip(1));
                }
                Some((v, j))
            },
        }
    }
}

fn skip_digits_exec(s: &str, i: usize, n: usize) -> (j: usize)
    requires
        n == s@.len(),
        i <= n,
    ensures
        i <= j <= n,
        j as int == skip_digits(s@, i as int),
{
    let mut j: usize = i;
    while j < n && is_dec_digit_exec(s.get_char(j))
        invariant
            i <= j <= n,
            n == s@.len(),
            skip_digits(s@, i as int) == skip_digits(s@, j as int),
        decreases n - j,
    {
        j = j + 1;
    }
    j
}

fn parse_frac_exec(s: &str, k: usize, n: usize) -> (r: Option<usize>)
    requires
        n == s@.len(),
        k <= n,
    ensures
        ({
            let g = parse_frac(s@, k as int);
            match r {
                Some(j) => g == Some(j as int) && j <= n,
                None => g is None,
            }
        }),
{
    if k < n && s.get_char(k) == '.' {
        if k + 1 < n && is_dec_digit_exec(s.get_char(k + 1)) {
            Some(skip_digits_exec(s, k + 1, n))
        } else {
            None
        }
    } else {
        Some(k)
    }
}

fn parse_exp_exec(s: &str, k: usize, n: usize) -> (r: Option<usize>)
    requires
        n == s@.len(),
        k <= n,
    ensures
        ({
            let g = parse_exp(s@, k as int);
            match r {
                Some(j) => g == Some(j as int) && j <= n,
                None => g is None,
            }
        }),
{
    if k < n && (s.get_char(k) == 'e' || s.get_char(k) == 'E') {
        let m: usize = if k + 1 < n && (s.get_char(k + 1) == '+' || s.get_char(k + 1) == '-') {
            k + 2
        } else {
            k + 1
        };
        if m < n && is_dec_digit_exec(s.get_char(m)) {
            Some(skip_digits_exec(s, m, n))
        } else {
            None
        }
    } else {
        Some(k)
    }
}

fn parse_number_exec(s: &str, i: usize, n: usize) -> (r: Option<usize>)
    requires
        n == s@.len(),
        i <= n,
    ensures
        ({
            let g = parse_number(s@, i as int);
            match r {
                Some(j) => g == Some(j as int) && j <= n,
                None => g is None,
            }
        }),
{
    let j: usize = if i < n && s.get_char(i) == '-' {
        i + 1
    } else {
        i
    };
    if j < n && is_dec_digit_exec(s.get_char(j)) {
        let k: usize = if s.get_char(j) == '0' {
            j + 1
        } else {
            skip_digits_exec(s, j, n)
        };
        match parse_frac_exec(s, k, n) {
            Some(k2) => parse_exp_exec(s, k2, n),
            None => None,
        }
    } else {
        None
    }
}

fn skip_value_exec(s: &str, i: usize, fuel: usize, n: usize) -> (r: Option<usize>)
    requires
        n == s@.len(),
        i <= n,
    ensures
        ({
            let g = skip_value(s@, i as int, fuel as nat);
            match r {
                Some(j) => g == Some(j as int) && j <= n,
                None => g is None,
            }
        }),
    decreases fuel, 1int,
{
    if fuel == 0 {
        return None;
    }
    if i >= n {
        return None;
    }
    let c = s.get_char(i);
    if c == '"' {
        match parse_string_exec(s, i + 1, n) {
            Some((_content, j)) => Some(j),
            None => None,
        }
    } else if c == '{' {
        let w = skip_ws_exec(s, i + 1, n);
        skip_members_exec(s, w, true, fuel - 1, n)
    } else if c == '[' {
        let w = skip_ws_exec(s, i + 1, n);
        skip_elements_exec(s, w, true, fuel - 1, n)
    } else if c == 't' {
        match_lit_exec(s, i, n, "true")
    } else if c == 'f' {
        match_lit_exec(s, i, n, "false")
    } else if c == 'n' {
        match_lit_exec(s, i, n, "null")
    } else if c == '-' || is_dec_digit_exec(c) {
        parse_number_exec(s, i, n)
    } else {
        None
    }
}

fn skip_members_exec(s: &str, i: usize, first: bool, fuel: usize, n: usize) -> (r: Option<usize>)
    requires
        n == s@.len(),
        i <= n,
    ensures
        ({
            let g = skip_members(s@, i as int, first, fuel as nat);
            match r {
                Some(j) => g == Some(j as int) && j <= n,
                None => g is None,
            }
        }),
    decreases fuel, 1int,
{
    if fuel == 0 {
        return None;
    }
    if i >= n {
        return None;
    }
    if first && s.get_char(i) == '}' {
        return Some(i + 1);
    }
    if s.get_char(i) != '"' {
        return None;
    }
    match parse_string_exec(s, i + 1, n) {
        None => None,
        Some((_key, j0)) => {
            let j = skip_ws_exec(s, j0, n);
            if j < n && s.get_char(j) == ':' {
                let v = skip_ws_exec(s, j + 1, n);
                match skip_value_exec(s, v, fuel - 1, n) {
                    Some(k) => {
                        let m = skip_ws_exec(s, k, n);
                        if m < n && s.get_char(m) == ',' {
                            let w = skip_ws_exec(s, m + 1, n);
                            skip_members_exec(s, w, false, fuel - 1, n)
                        } else if m < n && s.get_char(m) == '}' {
                            Some(m + 1)
                        } else {
                            None
                        }
                    },
                    None => None,
                }
            } else {
                None
            }
        },
    }
}

fn skip_elements_exec(s: &str, i: usize, first: bool, fuel: usize, n: usize) -> (r: Option<usize>)
    requires
        n == s@.len(),
        i <= n,
    ensures
        ({
            let g = skip_elements(s@, i as int, first, fuel as nat);
            match r {
                Some(j) => g == Some(j as int) && j <= n,
                None => g is None,
            }
        }),
    decreases fuel, 1int,
{
    if fuel == 0 {
        return None;
    }
    if i >= n {
        return None;
    }
    if first && s.get_char(i) == ']' {
        return Some(i + 1);
    }
    match skip_value_exec(s, i, fuel - 1, n) {
        Some(k) => {
            let m = skip_ws_exec(s, k, n);
            if m < n && s.get_char(m) == ',' {
                let w = skip_ws_exec(s, m + 1, n);
                skip_elements_exec(s, w, false, fuel - 1, n)
            } else if m < n && s.get_char(m) == ']' {
                Some(m + 1)
            } else {
                None
            }
        },
        None => None,
    }
}

/// What an optional string field looks like to the specification.
pub open spec fn msg_view(x: Option<String>) -> Option<Seq<char>> {
    match x {
        Option::None => Option::None,
        Option::Some(t) => Option::Some(t@),
    }
}

/// What an optional string-or-null member looks like to the specification.
pub open spec fn field_view(x: Option<Option<String>>) -> Option<Option<Seq<char>>> {
    match x {
        Option::None => Option::None,
        Option::Some(y) => Option::Some(msg_view(y)),
    }
}

fn error_after_exec(s: &str, k: usize, msg: Option<String>, fuel: usize, n: usize) -> (r: Option<
    (String, usize),
>)
    requires
        n == s@.len(),
        k <= n,
    ensures
        ({
            let g = error_after(s@, k as int, msg_view(msg), fuel as nat);
            match r {
                Some(p) => g matches Some(gp) && p.0@ == gp.0 && p.1 as int == gp.1 && p.1 <= n,
                None => g is None,
            }
        }),
    decreases fuel, 0int,
{
    let m = skip_ws_exec(s, k, n);
    if m < n && s.get_char(m) == ',' {
        if fuel == 0 {
            return None;
        }
        let w = skip_ws_exec(s, m + 1, n);
        error_members_exec(s, w, false, msg, fuel - 1, n)
    } else if m < n && s.get_char(m) == '}' {
        match msg {
            Some(t) => Some((t, m + 1)),
            None => None,
        }
    } else {
        None
    }
}

fn error_members_exec(
    s: &str,
    i: usize,
    first: bool,
    msg: Option<String>,
    fuel: usize,
    n: usize,
) -> (r: Option<(String, usize)>)
    requires
        n == s@.len(),
        i <= n,
    ensures
        ({
            let g = error_members(s@, i as int, first, msg_view(msg), fuel as nat);
            match r {
                Some(p) => g matches Some(gp) && p.0@ == gp.0 && p.1 as int == gp.1 && p.1 <= n,
                None => g is None,
            }
        }),
    decreases fuel, 1int,
{
    if i >= n {
        return None;
    }
    if first && s.get_char(i) == '}' {
        return match msg {
            Some(t) => Some((t, i + 1)),
            None => None,
        };
    }
    if s.get_char(i) != '"' {
        return None;
    }
    match parse_string_exec(s, i + 1, n) {
        None => None,
        Some((key, j0)) => {
            let j = skip_ws_exec(s, j0, n);
            if j < n && s.get_char(j) == ':' {
                let v = skip_ws_exec(s, j + 1, n);
                if chars_eq_lit(&key, "message") {
                    if msg.is_some() {
                        None
                    } else if v < n && s.get_char(v) == '"' {
                        match parse_string_exec(s, v + 1, n) {
                            Some((content, k)) => {
                                let t = chars_to_string(&content);
                                error_after_exec(s, k, Some(t), fuel, n)
                            },
                            None => None,
                        }
                    } else {
                        None
                    }
                } else {
                    if fuel == 0 {
                        None
                    } else {
                        match skip_value_exec(s, v, fuel - 1, n) {
                            Some(k) => error_after_exec(s, k, msg, fuel, n),
                            None => None,
                        }
                    }
                }
            } else {
                None
            }
        },
    }
}

fn top_after_exec(
    s: &str,
    k: usize,
    res: Option<Option<String>>,
    err: Option<Option<String>>,
    fuel: usize,
    n: usize,
) -> (r: Option<(Option<Option<String>>, Option<Option<String>>, usize)>)
    requires
        n == s@.len(),
        k <= n,
    ensures
        ({
            let g = top_after(s@, k as int, field_view(res), field_view(err), fuel as nat);
            match r {
                Some(t) => g matches Some(gt) && field_view(t.0) == gt.0 && field_view(t.1)
                    == gt.1 && t.2 as int == gt.2 && t.2 <= n,
                None => g is None,
            }
        }),
    decreases fuel, 0int,
{
    let m = skip_ws_exec(s, k, n);
    if m < n && s.get_char(m) == ',' {
        if fuel == 0 {
            return None;
        }
        let w = skip_ws_exec(s, m + 1, n);
        top_members_exec(s, w, false, res, err, fuel - 1, n)
    } else if m < n && s.get_char(m) == '}' {
        Some((res, err, m + 1))
    } else {
        None
    }
}

fn top_members_exec(
    s: &str,
    i: usize,
    first: bool,
    res: Option<Option<String>>,
    err: Option<Option<String>>,
    fuel: usize,
    n: usize,
) -> (r: Option<(Option<Option<String>>, Option<Option<String>>, usize)>)
    requires
        n == s@.len(),
        i <= n,
    ensures
        ({
            let g = top_members(s@, i as int, first, field_view(res), field_view(err), fuel as nat);
            match r {
                Some(t) => g matches Some(gt) && field_view(t.0) == gt.0 && field_view(t.1)
                    == gt.1 && t.2 as int == gt.2 && t.2 <= n,
                None => g is None,
            }
        }),
    decreases fuel, 1int,
{
    if i >= n {
        return None;
    }
    if first && s.get_char(i) == '}' {
        return Some((res, err, i + 1));
    }
    if s.get_char(i) != '"' {
        return None;
    }
    match parse_string_exec(s, i + 1, n) {
        None => None,
        Some((key, j0)) => {
            let j = skip_ws_exec(s, j0, n);
            if j < n && s.get_char(j) == ':' {
                let v = skip_ws_exec(s, j + 1, n);
                if chars_eq_lit(&key, "result") {
                    if res.is_some() {
                        None
                    } else if v < n && s.get_char(v) == '"' {
                        match parse_string_exec(s, v + 1, n) {
                            Some((content, k)) => {
                                let t = chars_to_string(&content);
                                top_after_exec(s, k, Some(Some(t)), err, fuel, n)
                            },
                            None => None,
                        }
                    } else if v < n && s.get_char(v) == 'n' {
                        match match_lit_exec(s, v, n, "null") {
                            Some(k) => top_after_exec(s, k, Some(None), err, fuel, n),
                            None => None,
                        }
                    } else {
                        None
                    }
                } else if chars_eq_lit(&key, "error") {
                    if err.is_some() {
                        None
                    } else if v < n && s.get_char(v) == '{' {
                        if fuel == 0 {
                            None
                        } else {
                            let w = skip_ws_exec(s, v + 1, n);
                            match error_members_exec(s, w, true, None, fuel - 1, n) {
                                Some((emsg, k)) => top_after_exec(
                                    s,
                                    k,
                                    res,
                                    Some(Some(emsg)),
                                    fuel,
                                    n,
                                ),
                                None => None,
                            }
                        }
                    } else if v < n && s.get_char(v) == 'n' {
                        match match_lit_exec(s, v, n, "null") {
                            Some(k) => top_after_exec(s, k, res, Some(None), fuel, n),
                            None => None,
                        }
                    } else {
                        None
                    }
                } else {
                    if fuel == 0 {
                        None
                    } else {
                        match skip_value_exec(s, v, fuel - 1, n) {
                            Some(k) => top_after_exec(s, k, res, err, fuel, n),
                            None => None,
                        }
                    }
                }
            } else {
                None
            }
        },
    }
}

/// Parses a reply body, returning the `"result"` member and the `"error"`
/// message exactly as `parse_reply` describes them.
pub fn parse_reply_exec(s: &str) -> (r: Option<(Option<Option<String>>, Option<Option<String>>)>)
    ensures
        ({
            let g = parse_reply(s@);
            match r {
                Some(p) => g matches Some(gp) && field_view(p.0) == gp.0 && field_view(p.1)
                    == gp.1,
                None => g is None,
            }
        }),
{
    let n: usize = s.unicode_len();
    let i = skip_ws_exec(s, 0, n);
    if i < n && s.get_char(i) == '{' {
        let w = skip_ws_exec(s, i + 1, n);
        match top_members_exec(s, w, true, None, None, n, n) {
            Some((res, err, j)) => {
                if skip_ws_exec(s, j, n) == n {
                    Some((res, err))
                } else {
                    None
                }
            },
            None => None,
        }
    } else {
        None
    }
}

} // verus!
