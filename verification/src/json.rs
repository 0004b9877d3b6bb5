use vstd::prelude::*;
use vstd::string::StrSliceExecFns;
use vstd::string::StringExecFns;

use crate::error::WeatherError;
use crate::forecast::{Forecast, Hourly, HourlyModel, ForecastModel};
use crate::text::{char_from_code, is_digit, push_char, text_chars};

verus! {

// ---------------------------------------------------------------------------
// The accepted document grammar, as spec functions.
//
// A forecast document is a JSON object.  Its members are walked in order:
// the schema fields are taken where they occur, every other member is
// skipped.  Each spec function takes the whole text and an index, and
// yields the index just past what it accepts, or `None` where the text is
// not acceptable from that index on.
//
// String values and keys are unescaped as JSON prescribes: the eight
// one-character escapes, `\uXXXX` for scalar code points, and surrogate
// pairs written as two `\u` escapes; a lone surrogate, a malformed hex
// quadruple or any other `\` sequence makes the document unacceptable.
// ---------------------------------------------------------------------------
/// JSON whitespace.
pub open spec fn is_ws(c: char) -> bool {
    c == ' ' || c == '\t' || c == '\n' || c == '\r'
}

/// The first index at or after `i` that does not hold whitespace.
pub open spec fn ws_end(s: Seq<char>, i: int) -> int
    decreases s.len() - i,
{
    if 0 <= i < s.len() && is_ws(s[i]) {
        ws_end(s, i + 1)
    } else {
        i
    }
}

/// Whether a character is a hexadecimal digit.
pub open spec fn is_hex(c: char) -> bool {
    ('0' <= c && c <= '9') || ('a' <= c && c <= 'f') || ('A' <= c && c <= 'F')
}

/// The numeric value of a hexadecimal digit character.
pub open spec fn hex_val(c: char) -> int {
    if '0' <= c && c <= '9' {
        (c as u32) - ('0' as u32)
    } else if 'a' <= c && c <= 'f' {
        (c as u32) - ('a' as u32) + 10
    } else {
        (c as u32) - ('A' as u32) + 10
    }
}

/// Whether four hexadecimal digits stand at `i`.
pub open spec fn hex4_ok(s: Seq<char>, i: int) -> bool {
    i + 4 <= s.len() && is_hex(s[i]) && is_hex(s[i + 1]) && is_hex(s[i + 2]) && is_hex(s[i + 3])
}

/// The value of the four hexadecimal digits at `i`.
pub open spec fn hex4_val(s: Seq<char>, i: int) -> int {
    4096 * hex_val(s[i]) + 256 * hex_val(s[i + 1]) + 16 * hex_val(s[i + 2]) + hex_val(s[i + 3])
}

/// Whether a code point is a high (leading) surrogate.
pub open spec fn is_high_surrogate(cp: int) -> bool {
    0xD800 <= cp <= 0xDBFF
}

/// Whether a code point is a low (trailing) surrogate.
pub open spec fn is_low_surrogate(cp: int) -> bool {
    0xDC00 <= cp <= 0xDFFF
}

/// The code point that a surrogate pair spells.
pub open spec fn surrogate_pair_val(hi: int, lo: int) -> int {
    0x10000 + (hi - 0xD800) * 0x400 + (lo - 0xDC00)
}

/// The value of a string body from `i` (just past the opening quote): the
/// unescaped characters up to the closing quote, and the index just past
/// that quote.  The eight one-character escapes and `\uXXXX` are decoded,
/// a surrogate pair of two `\u` escapes becomes its one character, and a
/// lone surrogate, a bad hex quadruple, any other `\` sequence or a raw
/// control character makes the string unacceptable.
pub open spec fn string_value(s: Seq<char>, i: int, acc: Seq<char>) -> Option<(Seq<char>, int)>
    decreases s.len() - i,
{
    if !(0 <= i < s.len()) {
        None
    } else if s[i] == '"' {
        Some((acc, i + 1))
    } else if s[i] == '\\' {
        if i + 1 < s.len() {
            let e = s[i + 1];
            if e == '"' {
                string_value(s, i + 2, acc.push('"'))
            } else if e == '\\' {
                string_value(s, i + 2, acc.push('\\'))
            } else if e == '/' {
                string_value(s, i + 2, acc.push('/'))
            } else if e == 'b' {
                string_value(s, i + 2, acc.push('\u{0008}'))
            } else if e == 'f' {
                string_value(s, i + 2, acc.push('\u{000C}'))
            } else if e == 'n' {
                string_value(s, i + 2, acc.push('\n'))
            } else if e == 'r' {
                string_value(s, i + 2, acc.push('\r'))
            } else if e == 't' {
                string_value(s, i + 2, acc.push('\t'))
            } else if e == 'u' {
                if hex4_ok(s, i + 2) {
                    let cp = hex4_val(s, i + 2);
                    if !is_high_surrogate(cp) && !is_low_surrogate(cp) {
                        string_value(s, i + 6, acc.push(crate::text::char_of(cp)))
                    } else if is_high_surrogate(cp) {
                        if i + 8 <= s.len() && s[i + 6] == '\\' && s[i + 7] == 'u' && hex4_ok(
                            s,
                            i + 8,
                        ) {
                            let lo = hex4_val(s, i + 8);
                            if is_low_surrogate(lo) {
                                string_value(
                                    s,
                                    i + 12,
                                    acc.push(crate::text::char_of(surrogate_pair_val(cp, lo))),
                                )
                            } else {
                                None
                            }
                        } else {
                            None
                        }
                    } else {
                        None
                    }
                } else {
                    None
                }
            } else {
                None
            }
        } else {
            None
        }
    } else if (s[i] as u32) < 32 {
        None
    } else {
        string_value(s, i + 1, acc.push(s[i]))
    }
}

/// The first index at or after `i` that does not hold a decimal digit.
pub open spec fn digits_end(s: Seq<char>, i: int) -> int
    decreases s.len() - i,
{
    if 0 <= i < s.len() && is_digit(s[i]) {
        digits_end(s, i + 1)
    } else {
        i
    }
}

/// The end of a number's integer part: an optional minus sign, then either
/// a single zero or a nonzero digit followed by more digits.
pub open spec fn int_part_end(s: Seq<char>, i: int) -> Option<int> {
    let j = if 0 <= i < s.len() && s[i] == '-' {
        i + 1
    } else {
        i
    };
    if 0 <= j < s.len() && is_digit(s[j]) {
        if s[j] == '0' {
            Some(j + 1)
        } else {
            Some(digits_end(s, j))
        }
    } else {
        None
    }
}

/// The end of a number's optional fraction part.
pub open spec fn frac_end(s: Seq<char>, i: int) -> Option<int> {
    if 0 <= i < s.len() && s[i] == '.' {
        if i + 1 < s.len() && is_digit(s[i + 1]) {
            Some(digits_end(s, i + 1))
        } else {
            None
        }
    } else {
        Some(i)
    }
}

/// The end of a number's optional exponent part.
pub open spec fn exp_end(s: Seq<char>, i: int) -> Option<int> {
    if 0 <= i < s.len() && (s[i] == 'e' || s[i] == 'E') {
        let j = if i + 1 < s.len() && (s[i + 1] == '+' || s[i + 1] == '-') {
            i + 2
        } else {
            i + 1
        };
        if 0 <= j < s.len() && is_digit(s[j]) {
            Some(digits_end(s, j))
        } else {
            None
        }
    } else {
        Some(i)
    }
}

/// The end of a JSON number that starts at `i`.
pub open spec fn number_end(s: Seq<char>, i: int) -> Option<int> {
    match int_part_end(s, i) {
        None => None,
        Some(j) => match frac_end(s, j) {
            None => None,
            Some(k) => exp_end(s, k),
        },
    }
}

/// A digit run never runs backwards nor past the text.
pub proof fn lemma_digits_end_bounds(s: Seq<char>, i: int)
    requires
        0 <= i <= s.len(),
    ensures
        i <= digits_end(s, i) <= s.len(),
    decreases s.len() - i,
{
    if i < s.len() && is_digit(s[i]) {
        lemma_digits_end_bounds(s, i + 1);
    }
}

/// A number token is non-empty and ends within the text.
pub proof fn lemma_number_end_bounds(s: Seq<char>, i: int)
    requires
        0 <= i <= s.len(),
    ensures
        number_end(s, i) matches Some(e) ==> i < e <= s.len(),
{
    let j0 = if 0 <= i < s.len() && s[i] == '-' {
        i + 1
    } else {
        i
    };
    lemma_digits_end_bounds(s, j0);
    if 0 <= j0 < s.len() && is_digit(s[j0]) {
        lemma_digits_end_bounds(s, j0 + 1);
        assert(digits_end(s, j0) == digits_end(s, j0 + 1));
    }
    match int_part_end(s, i) {
        None => {},
        Some(j) => {
            assert(i < j <= s.len());
            match frac_end(s, j) {
                None => {},
                Some(k) => {
                    if j < s.len() && s[j] == '.' {
                        lemma_digits_end_bounds(s, j + 1);
                    }
                    assert(j <= k <= s.len());
                    match exp_end(s, k) {
                        None => {},
                        Some(e) => {
                            if k < s.len() && (s[k] == 'e' || s[k] == 'E') {
                                let j2 = if k + 1 < s.len() && (s[k + 1] == '+' || s[k + 1]
                                    == '-') {
                                    k + 2
                                } else {
                                    k + 1
                                };
                                if 0 <= j2 < s.len() && is_digit(s[j2]) {
                                    lemma_digits_end_bounds(s, j2);
                                }
                            }
                            assert(k <= e <= s.len());
                        },
                    }
                },
            }
        },
    }
}

/// The end of any single JSON value that starts at `i`: a string, an
/// object, an array, a literal or a number.
pub open spec fn skip_value(s: Seq<char>, i: int) -> Option<int>
    decreases s.len() - i, 0int,
{
    if !(0 <= i < s.len()) {
        None
    } else if s[i] == '"' {
        match string_value(s, i + 1, Seq::empty()) {
            Some(p) => Some(p.1),
            None => None,
        }
    } else if s[i] == '{' {
        let j = ws_end(s, i + 1);
        if i < j && j <= s.len() {
            skip_members(s, j, true)
        } else {
            None
        }
    } else if s[i] == '[' {
        let j = ws_end(s, i + 1);
        if i < j && j <= s.len() {
            skip_elements(s, j, true)
        } else {
            None
        }
    } else if s[i] == 't' {
        if i + 4 <= s.len() && s[i + 1] == 'r' && s[i + 2] == 'u' && s[i + 3] == 'e' {
            Some(i + 4)
        } else {
            None
        }
    } else if s[i] == 'f' {
        if i + 5 <= s.len() && s[i + 1] == 'a' && s[i + 2] == 'l' && s[i + 3] == 's' && s[i + 4]
            == 'e' {
            Some(i + 5)
        } else {
            None
        }
    } else if s[i] == 'n' {
        if i + 4 <= s.len() && s[i + 1] == 'u' && s[i + 2] == 'l' && s[i + 3] == 'l' {
            Some(i + 4)
        } else {
            None
        }
    } else {
        number_end(s, i)
    }
}

/// The end of an object's remaining members, from the start of a key (or
/// from the closing brace, for an object with no members yet).
pub open spec fn skip_members(s: Seq<char>, i: int, first: bool) -> Option<int>
    decreases s.len() - i, 1int,
{
    if !(0 <= i < s.len()) {
        None
    } else if s[i] == '}' && first {
        Some(i + 1)
    } else if s[i] == '"' {
        match string_value(s, i + 1, Seq::empty()) {
            None => None,
            Some(p) => {
                let j = ws_end(s, p.1);
                if j < s.len() && s[j] == ':' {
                    let k = ws_end(s, j + 1);
                    if i < k && k <= s.len() {
                        match skip_value(s, k) {
                            None => None,
                            Some(e) => {
                                let m = ws_end(s, e);
                                if m < s.len() && s[m] == ',' {
                                    let n2 = ws_end(s, m + 1);
                                    if i < n2 && n2 <= s.len() {
                                        skip_members(s, n2, false)
                                    } else {
                                        None
                                    }
                                } else if m < s.len() && s[m] == '}' {
                                    Some(m + 1)
                                } else {
                                    None
                                }
                            },
                        }
                    } else {
                        None
                    }
                } else {
                    None
                }
            },
        }
    } else {
        None
    }
}

/// The end of an array's remaining elements, from the start of an element
/// (or from the closing bracket, for an array with no elements yet).
pub open spec fn skip_elements(s: Seq<char>, i: int, first: bool) -> Option<int>
    decreases s.len() - i, 1int,
{
    if !(0 <= i < s.len()) {
        None
    } else if s[i] == ']' && first {
        Some(i + 1)
    } else {
        match skip_value(s, i) {
            None => None,
            Some(e) => {
                let m = ws_end(s, e);
                if m < s.len() && s[m] == ',' {
                    let n2 = ws_end(s, m + 1);
                    if i < n2 && n2 <= s.len() {
                        skip_elements(s, n2, false)
                    } else {
                        None
                    }
                } else if m < s.len() && s[m] == ']' {
                    Some(m + 1)
                } else {
                    None
                }
            },
        }
    }
}

// ---------------------------------------------------------------------------
// The executable scanner, each function proved equal to its spec function.
// ---------------------------------------------------------------------------
/// Whether a character is JSON whitespace.
fn is_ws_char(c: char) -> (r: bool)
    ensures
        r == is_ws(c),
{
    c == ' ' || c == '\t' || c == '\n' || c == '\r'
}

/// The first index at or after `i` that does not hold whitespace.
fn ws_end_at(chars: &Vec<char>, i: usize) -> (r: usize)
    requires
        i <= chars@.len(),
    ensures
        r == ws_end(chars@, i as int),
        i <= r <= chars@.len(),
{
    let mut j: usize = i;
    while j < chars.len() && is_ws_char(chars[j])
        invariant
            i <= j <= chars@.len(),
            ws_end(chars@, i as int) == ws_end(chars@, j as int),
        decreases chars@.len() - j,
    {
        j = j + 1;
    }
    j
}

/// The numeric value of a hexadecimal digit character, where it is one.
fn hex_digit(c: char) -> (r: Option<u32>)
    ensures
        r is Some <==> is_hex(c),
        r matches Some(v) ==> v == hex_val(c) && v <= 15,
{
    if c >= '0' && c <= '9' {
        Some((c as u32) - ('0' as u32))
    } else if c >= 'a' && c <= 'f' {
        Some((c as u32) - ('a' as u32) + 10)
    } else if c >= 'A' && c <= 'F' {
        Some((c as u32) - ('A' as u32) + 10)
    } else {
        None
    }
}

/// The value of the four hexadecimal digits at `i`, where they stand.
fn hex4_at(chars: &Vec<char>, i: usize) -> (r: Option<u32>)
    requires
        i <= chars@.len(),
    ensures
        r is Some <==> hex4_ok(chars@, i as int),
        r matches Some(v) ==> v == hex4_val(chars@, i as int) && v <= 0xFFFF,
{
    let n: usize = chars.len();
    if n - i < 4 {
        return None;
    }
    let h0 = match hex_digit(chars[i]) {
        Some(v) => v,
        None => {
            return None;
        },
    };
    let h1 = match hex_digit(chars[i + 1]) {
        Some(v) => v,
        None => {
            return None;
        },
    };
    let h2 = match hex_digit(chars[i + 2]) {
        Some(v) => v,
        None => {
            return None;
        },
    };
    let h3 = match hex_digit(chars[i + 3]) {
        Some(v) => v,
        None => {
            return None;
        },
    };
    Some(4096 * h0 + 256 * h1 + 16 * h2 + h3)
}

/// Scans a string body from `i` (just past the opening quote), returning
/// its unescaped value and the index just past the closing quote.
fn scan_string(chars: &Vec<char>, i: usize) -> (r: Option<(String, usize)>)
    requires
        i <= chars@.len(),
    ensures
        match string_value(chars@, i as int, Seq::empty()) {
            Some(p) => r matches Some(q) && q.0@ == p.0 && q.1 == p.1 && i < q.1 <= chars@.len(),
            None => r is None,
        },
{
    let n: usize = chars.len();
    let mut j: usize = i;
    let mut out = String::new();
    loop
        invariant
            i <= j <= n,
            n == chars@.len(),
            string_value(chars@, i as int, Seq::empty()) == string_value(chars@, j as int, out@),
        decreases n - j,
    {
        if j >= n {
            return None;
        }
        let c = chars[j];
        if c == '"' {
            return Some((out, j + 1));
        }
        if c == '\\' {
            if j + 1 >= n {
                return None;
            }
            let e = chars[j + 1];
            if e == 'u' {
                let cp = match hex4_at(chars, j + 2) {
                    Some(v) => v,
                    None => {
                        return None;
                    },
                };
                if !(0xD800 <= cp && cp <= 0xDFFF) {
                    let ch = match char_from_code(cp) {
                        Some(ch) => ch,
                        None => {
                            proof {
                                assert(false);
                            }
                            return None;
                        },
                    };
                    let ghost out0 = out@;
                    push_char(&mut out, ch);
                    proof {
                        assert(out@ =~= out0.push(crate::text::char_of(cp as int)));
                    }
                    j = j + 6;
                } else if cp <= 0xDBFF {
                    if n - j < 12 {
                        return None;
                    }
                    if !(chars[j + 6] == '\\' && chars[j + 7] == 'u') {
                        return None;
                    }
                    let lo = match hex4_at(chars, j + 8) {
                        Some(v) => v,
                        None => {
                            return None;
                        },
                    };
                    if !(0xDC00 <= lo && lo <= 0xDFFF) {
                        return None;
                    }
                    let cp2: u32 = 0x10000 + (cp - 0xD800) * 0x400 + (lo - 0xDC00);
                    let ch = match char_from_code(cp2) {
                        Some(ch) => ch,
                        None => {
                            proof {
                                assert(false);
                            }
                            return None;
                        },
                    };
                    let ghost out0 = out@;
                    push_char(&mut out, ch);
                    proof {
                        assert(out@ =~= out0.push(
                            crate::text::char_of(surrogate_pair_val(cp as int, lo as int)),
                        ));
                    }
                    j = j + 12;
                } else {
                    return None;
                }
            } else {
                let dec: Option<char> = if e == '"' {
                    Some('"')
                } else if e == '\\' {
                    Some('\\')
                } else if e == '/' {
                    Some('/')
                } else if e == 'b' {
                    Some('\u{0008}')
                } else if e == 'f' {
                    Some('\u{000C}')
                } else if e == 'n' {
                    Some('\n')
                } else if e == 'r' {
                    Some('\r')
                } else if e == 't' {
                    Some('\t')
                } else {
                    None
                };
                match dec {
                    Some(d) => {
                        let ghost out0 = out@;
                        push_char(&mut out, d);
                        proof {
                            assert(out@ =~= out0.push(d));
                        }
                        j = j + 2;
                    },
                    None => {
                        return None;
                    },
                }
            }
        } else if (c as u32) < 32 {
            return None;
        } else {
            let ghost out0 = out@;
            push_char(&mut out, c);
            proof {
                assert(out@ =~= out0.push(c));
            }
            j = j + 1;
        }
    }
}

/// The first index at or after `i` that does not hold a decimal digit.
fn digits_end_at(chars: &Vec<char>, i: usize) -> (r: usize)
    requires
        i <= chars@.len(),
    ensures
        r == digits_end(chars@, i as int),
        i <= r <= chars@.len(),
{
    let mut j: usize = i;
    while j < chars.len() && chars[j] >= '0' && chars[j] <= '9'
        invariant
            i <= j <= chars@.len(),
            digits_end(chars@, i as int) == digits_end(chars@, j as int),
        decreases chars@.len() - j,
    {
        j = j + 1;
    }
    j
}

/// The end of a JSON number that starts at `i`.
fn number_end_at(chars: &Vec<char>, i: usize) -> (r: Option<usize>)
    requires
        i <= chars@.len(),
    ensures
        match number_end(chars@, i as int) {
            Some(e) => r matches Some(u) && u == e && i < u <= chars@.len(),
            None => r is None,
        },
{
    proof {
        lemma_number_end_bounds(chars@, i as int);
    }
    let n: usize = chars.len();
    let j: usize = if i < n && chars[i] == '-' {
        i + 1
    } else {
        i
    };
    if !(j < n && chars[j] >= '0' && chars[j] <= '9') {
        return None;
    }
    let k: usize = if chars[j] == '0' {
        j + 1
    } else {
        digits_end_at(chars, j)
    };
    let k2: usize = if k < n && chars[k] == '.' {
        if k + 1 < n && chars[k + 1] >= '0' && chars[k + 1] <= '9' {
            digits_end_at(chars, k + 1)
        } else {
            return None;
        }
    } else {
        k
    };
    if k2 < n && (chars[k2] == 'e' || chars[k2] == 'E') {
        let j2: usize = if k2 + 1 < n && (chars[k2 + 1] == '+' || chars[k2 + 1] == '-') {
            k2 + 2
        } else {
            k2 + 1
        };
        if j2 < n && chars[j2] >= '0' && chars[j2] <= '9' {
            Some(digits_end_at(chars, j2))
        } else {
            None
        }
    } else {
        Some(k2)
    }
}

/// The end of any single JSON value that starts at `i`.
fn skip_value_at(chars: &Vec<char>, i: usize) -> (r: Option<usize>)
    requires
        i <= chars@.len(),
    ensures
        match skip_value(chars@, i as int) {
            Some(e) => r matches Some(u) && u == e && u <= chars@.len(),
            None => r is None,
        },
    decreases chars@.len() - i, 0int,
{
    let n: usize = chars.len();
    if i >= n {
        return None;
    }
    let c = chars[i];
    if c == '"' {
        match scan_string(chars, i + 1) {
            Some(p) => Some(p.1),
            None => None,
        }
    } else if c == '{' {
        let j: usize = ws_end_at(chars, i + 1);
        if i < j {
            skip_members_at(chars, j, true)
        } else {
            None
        }
    } else if c == '[' {
        let j: usize = ws_end_at(chars, i + 1);
        if i < j {
            skip_elements_at(chars, j, true)
        } else {
            None
        }
    } else if c == 't' {
        if n - i >= 4 && chars[i + 1] == 'r' && chars[i + 2] == 'u' && chars[i + 3] == 'e' {
            Some(i + 4)
        } else {
            None
        }
    } else if c == 'f' {
        if n - i >= 5 && chars[i + 1] == 'a' && chars[i + 2] == 'l' && chars[i + 3] == 's'
            && chars[i + 4] == 'e' {
            Some(i + 5)
        } else {
            None
        }
    } else if c == 'n' {
        if n - i >= 4 && chars[i + 1] == 'u' && chars[i + 2] == 'l' && chars[i + 3] == 'l' {
            Some(i + 4)
        } else {
            None
        }
    } else {
        number_end_at(chars, i)
    }
}

/// The end of an object's remaining members.
fn skip_members_at(chars: &Vec<char>, i: usize, first: bool) -> (r: Option<usize>)
    requires
        i <= chars@.len(),
    ensures
        match skip_members(chars@, i as int, first) {
            Some(e) => r matches Some(u) && u == e && u <= chars@.len(),
            None => r is None,
        },
    decreases chars@.len() - i, 1int,
{
    let n: usize = chars.len();
    if i >= n {
        return None;
    }
    if chars[i] == '}' && first {
        return Some(i + 1);
    }
    if chars[i] != '"' {
        return None;
    }
    let p = match scan_string(chars, i + 1) {
        Some(p) => p,
        None => {
            return None;
        },
    };
    let j: usize = ws_end_at(chars, p.1);
    if !(j < n && chars[j] == ':') {
        return None;
    }
    let k: usize = ws_end_at(chars, j + 1);
    if !(i < k) {
        return None;
    }
    let e = match skip_value_at(chars, k) {
        Some(e) => e,
        None => {
            return None;
        },
    };
    let m: usize = ws_end_at(chars, e);
    if m < n && chars[m] == ',' {
        let n2: usize = ws_end_at(chars, m + 1);
        if i < n2 {
            skip_members_at(chars, n2, false)
        } else {
            None
        }
    } else if m < n && chars[m] == '}' {
        Some(m + 1)
    } else {
        None
    }
}

// ---------------------------------------------------------------------------
// The schema layer: which members a forecast document must carry, and what
// each contributes to the decoded forecast.
// ---------------------------------------------------------------------------
/// What the members of the `hourly` object seen so far have contributed.
pub struct HourlyAcc {
    pub time: Option<Seq<Seq<char>>>,
    pub temperature_2m: Option<Seq<Seq<char>>>,
    pub windspeed_80m: Option<Seq<Seq<char>>>,
}

/// What the members of the top-level object seen so far have contributed.
pub struct DocAcc {
    pub latitude: Option<Seq<char>>,
    pub longitude: Option<Seq<char>>,
    pub timezone: Option<Seq<char>>,
    pub elevation: Option<Seq<char>>,
    pub hourly: Option<HourlyModel>,
}

/// The elements of an array of strings, as their unescaped values, from
/// the start of an
/// element (or from the closing bracket, for an array with no elements
/// yet), together with the index just past the array.
pub open spec fn string_items(s: Seq<char>, i: int, acc: Seq<Seq<char>>) -> Option<
    (Seq<Seq<char>>, int),
>
    decreases s.len() - i,
{
    if !(0 <= i < s.len()) {
        None
    } else if s[i] == ']' && acc.len() == 0 {
        Some((acc, i + 1))
    } else if s[i] == '"' {
        match string_value(s, i + 1, Seq::empty()) {
            None => None,
            Some(p) => {
                let item = p.0;
                let m = ws_end(s, p.1);
                if m < s.len() && s[m] == ',' {
                    let k = ws_end(s, m + 1);
                    if i < k && k <= s.len() {
                        string_items(s, k, acc.push(item))
                    } else {
                        None
                    }
                } else if m < s.len() && s[m] == ']' {
                    Some((acc.push(item), m + 1))
                } else {
                    None
                }
            },
        }
    } else {
        None
    }
}

/// The elements of an array of numbers, as their texts, from the start of
/// an element (or from the closing bracket, for an array with no elements
/// yet), together with the index just past the array.
pub open spec fn number_items(s: Seq<char>, i: int, acc: Seq<Seq<char>>) -> Option<
    (Seq<Seq<char>>, int),
>
    decreases s.len() - i,
{
    if !(0 <= i < s.len()) {
        None
    } else if s[i] == ']' && acc.len() == 0 {
        Some((acc, i + 1))
    } else {
        match number_end(s, i) {
            None => None,
            Some(e) => {
                let item = s.subrange(i, e);
                let m = ws_end(s, e);
                if m < s.len() && s[m] == ',' {
                    let k = ws_end(s, m + 1);
                    if i < k && k <= s.len() {
                        number_items(s, k, acc.push(item))
                    } else {
                        None
                    }
                } else if m < s.len() && s[m] == ']' {
                    Some((acc.push(item), m + 1))
                } else {
                    None
                }
            },
        }
    }
}

/// A whole array of strings, from its opening bracket.
pub open spec fn string_array(s: Seq<char>, k: int) -> Option<(Seq<Seq<char>>, int)> {
    if 0 <= k < s.len() && s[k] == '[' {
        let a0 = ws_end(s, k + 1);
        if k < a0 && a0 <= s.len() {
            string_items(s, a0, Seq::empty())
        } else {
            None
        }
    } else {
        None
    }
}

/// A whole array of numbers, from its opening bracket.
pub open spec fn number_array(s: Seq<char>, k: int) -> Option<(Seq<Seq<char>>, int)> {
    if 0 <= k < s.len() && s[k] == '[' {
        let a0 = ws_end(s, k + 1);
        if k < a0 && a0 <= s.len() {
            number_items(s, a0, Seq::empty())
        } else {
            None
        }
    } else {
        None
    }
}

/// What one member of the `hourly` object contributes, given its unescaped
/// key and the start of its value.  A schema key must not repeat and its
/// value must have the schema's shape; any other member is skipped whole.
pub open spec fn hourly_value(s: Seq<char>, k: int, key: Seq<char>, acc: HourlyAcc) -> Option<
    (HourlyAcc, int),
> {
    if key == "time"@ {
        if acc.time is Some {
            None
        } else {
            match string_array(s, k) {
                Some(q) => Some(
                    (
                        HourlyAcc {
                            time: Some(q.0),
                            temperature_2m: acc.temperature_2m,
                            windspeed_80m: acc.windspeed_80m,
                        },
                        q.1,
                    ),
                ),
                None => None,
            }
        }
    } else if key == "temperature_2m"@ {
        if acc.temperature_2m is Some {
            None
        } else {
            match number_array(s, k) {
                Some(q) => Some(
                    (
                        HourlyAcc {
                            time: acc.time,
                            temperature_2m: Some(q.0),
                            windspeed_80m: acc.windspeed_80m,
                        },
                        q.1,
                    ),
                ),
                None => None,
            }
        }
    } else if key == "windspeed_80m"@ {
        if acc.windspeed_80m is Some {
            None
        } else {
            match number_array(s, k) {
                Some(q) => Some(
                    (
                        HourlyAcc {
                            time: acc.time,
                            temperature_2m: acc.temperature_2m,
                            windspeed_80m: Some(q.0),
                        },
                        q.1,
                    ),
                ),
                None => None,
            }
        }
    } else {
        match skip_value(s, k) {
            Some(e) => Some((acc, e)),
            None => None,
        }
    }
}

/// The remaining members of the `hourly` object, from the start of a key
/// (or from the closing brace, for an object with no members yet).
pub open spec fn hourly_members(s: Seq<char>, i: int, acc: HourlyAcc, first: bool) -> Option<
    (HourlyAcc, int),
>
    decreases s.len() - i,
{
    if !(0 <= i < s.len()) {
        None
    } else if s[i] == '}' && first {
        Some((acc, i + 1))
    } else if s[i] == '"' {
        match string_value(s, i + 1, Seq::empty()) {
            None => None,
            Some(p) => {
                let key = p.0;
                let j = ws_end(s, p.1);
                if j < s.len() && s[j] == ':' {
                    let k = ws_end(s, j + 1);
                    if i < k && k <= s.len() {
                        match hourly_value(s, k, key, acc) {
                            None => None,
                            Some(st) => {
                                let m = ws_end(s, st.1);
                                if m < s.len() && s[m] == ',' {
                                    let n2 = ws_end(s, m + 1);
                                    if i < n2 && n2 <= s.len() {
                                        hourly_members(s, n2, st.0, false)
                                    } else {
                                        None
                                    }
                                } else if m < s.len() && s[m] == '}' {
                                    Some((st.0, m + 1))
                                } else {
                                    None
                                }
                            },
                        }
                    } else {
                        None
                    }
                } else {
                    None
                }
            },
        }
    } else {
        None
    }
}

/// What one member of the top-level object contributes, given its unescaped
/// key.  The coordinate and elevation fields must be numbers, the timezone
/// a string, and `hourly` an object carrying all three series; a schema
/// key must not repeat; any other member is skipped whole.
pub open spec fn doc_value(s: Seq<char>, k: int, key: Seq<char>, acc: DocAcc) -> Option<
    (DocAcc, int),
> {
    if key == "latitude"@ {
        if acc.latitude is Some {
            None
        } else {
            match number_end(s, k) {
                Some(e) => Some(
                    (
                        DocAcc {
                            latitude: Some(s.subrange(k, e)),
                            longitude: acc.longitude,
                            timezone: acc.timezone,
                            elevation: acc.elevation,
                            hourly: acc.hourly,
                        },
                        e,
                    ),
                ),
                None => None,
            }
        }
    } else if key == "longitude"@ {
        if acc.longitude is Some {
            None
        } else {
            match number_end(s, k) {
                Some(e) => Some(
                    (
                        DocAcc {
                            latitude: acc.latitude,
                            longitude: Some(s.subrange(k, e)),
                            timezone: acc.timezone,
                            elevation: acc.elevation,
                            hourly: acc.hourly,
                        },
                        e,
                    ),
                ),
                None => None,
            }
        }
    } else if key == "elevation"@ {
        if acc.elevation is Some {
            None
        } else {
            match number_end(s, k) {
                Some(e) => Some(
                    (
                        DocAcc {
                            latitude: acc.latitude,
                            longitude: acc.longitude,
                            timezone: acc.timezone,
                            elevation: Some(s.subrange(k, e)),
                            hourly: acc.hourly,
                        },
                        e,
                    ),
                ),
                None => None,
            }
        }
    } else if key == "timezone"@ {
        if acc.timezone is Some || !(0 <= k < s.len() && s[k] == '"') {
            None
        } else {
            match string_value(s, k + 1, Seq::empty()) {
                Some(p) => Some(
                    (
                        DocAcc {
                            latitude: acc.latitude,
                            longitude: acc.longitude,
                            timezone: Some(p.0),
                            elevation: acc.elevation,
                            hourly: acc.hourly,
                        },
                        p.1,
                    ),
                ),
                None => None,
            }
        }
    } else if key == "hourly"@ {
        if acc.hourly is Some || !(0 <= k < s.len() && s[k] == '{') {
            None
        } else {
            let h0 = ws_end(s, k + 1);
            if k < h0 && h0 <= s.len() {
                match hourly_members(
                    s,
                    h0,
                    HourlyAcc { time: None, temperature_2m: None, windspeed_80m: None },
                    true,
                ) {
                    Some(q) => match (q.0.time, q.0.temperature_2m, q.0.windspeed_80m) {
                        (Some(t), Some(te), Some(w)) => Some(
                            (
                                DocAcc {
                                    latitude: acc.latitude,
                                    longitude: acc.longitude,
                                    timezone: acc.timezone,
                                    elevation: acc.elevation,
                                    hourly: Some(
                                        HourlyModel {
                                            time: t,
                                            temperature_2m: te,
                                            windspeed_80m: w,
                                        },
                                    ),
                                },
                                q.1,
                            ),
                        ),
                        _ => None,
                    },
                    None => None,
                }
            } else {
                None
            }
        }
    } else {
        match skip_value(s, k) {
            Some(e) => Some((acc, e)),
            None => None,
        }
    }
}

/// The remaining members of the top-level object, from the start of a key
/// (or from the closing brace, for an object with no members yet).
pub open spec fn doc_members(s: Seq<char>, i: int, acc: DocAcc, first: bool) -> Option<
    (DocAcc, int),
>
    decreases s.len() - i,
{
    if !(0 <= i < s.len()) {
        None
    } else if s[i] == '}' && first {
        Some((acc, i + 1))
    } else if s[i] == '"' {
        match string_value(s, i + 1, Seq::empty()) {
            None => None,
            Some(p) => {
                let key = p.0;
                let j = ws_end(s, p.1);
                if j < s.len() && s[j] == ':' {
                    let k = ws_end(s, j + 1);
                    if i < k && k <= s.len() {
                        match doc_value(s, k, key, acc) {
                            None => None,
                            Some(st) => {
                                let m = ws_end(s, st.1);
                                if m < s.len() && s[m] == ',' {
                                    let n2 = ws_end(s, m + 1);
                                    if i < n2 && n2 <= s.len() {
                                        doc_members(s, n2, st.0, false)
                                    } else {
                                        None
                                    }
                                } else if m < s.len() && s[m] == '}' {
                                    Some((st.0, m + 1))
                                } else {
                                    None
                                }
                            },
                        }
                    } else {
                        None
                    }
                } else {
                    None
                }
            },
        }
    } else {
        None
    }
}

/// Whether the walk of an object's remaining members meets a member whose
/// unescaped key is `key`, counting only the members up to the first one
/// that the walk cannot accept.
pub open spec fn doc_walk_sees_key(
    s: Seq<char>,
    i: int,
    acc: DocAcc,
    first: bool,
    key: Seq<char>,
) -> bool
    decreases s.len() - i,
{
    if !(0 <= i < s.len()) {
        false
    } else if s[i] == '}' && first {
        false
    } else if s[i] == '"' {
        match string_value(s, i + 1, Seq::empty()) {
            None => false,
            Some(p) => {
                if p.0 == key {
                    true
                } else {
                    let j = ws_end(s, p.1);
                    if j < s.len() && s[j] == ':' {
                        let k = ws_end(s, j + 1);
                        if i < k && k <= s.len() {
                            match doc_value(s, k, p.0, acc) {
                                None => false,
                                Some(st) => {
                                    let m = ws_end(s, st.1);
                                    if m < s.len() && s[m] == ',' {
                                        let n2 = ws_end(s, m + 1);
                                        if i < n2 && n2 <= s.len() {
                                            doc_walk_sees_key(s, n2, st.0, false, key)
                                        } else {
                                            false
                                        }
                                    } else {
                                        false
                                    }
                                },
                            }
                        } else {
                            false
                        }
                    } else {
                        false
                    }
                }
            },
        }
    } else {
        false
    }
}

/// A member walk can fill the `hourly` slot only by meeting a member whose
/// unescaped key is `hourly`.
pub proof fn lemma_members_hourly(s: Seq<char>, i: int, acc: DocAcc, first: bool)
    ensures
        (doc_members(s, i, acc, first) matches Some(q) && q.0.hourly is Some && acc.hourly
            is None) ==> doc_walk_sees_key(s, i, acc, first, "hourly"@),
    decreases s.len() - i,
{
    if 0 <= i < s.len() && s[i] == '"' {
        match string_value(s, i + 1, Seq::empty()) {
            None => {},
            Some(p) => {
                if p.0 != "hourly"@ {
                    let j = ws_end(s, p.1);
                    if j < s.len() && s[j] == ':' {
                        let k = ws_end(s, j + 1);
                        if i < k && k <= s.len() {
                            match doc_value(s, k, p.0, acc) {
                                None => {},
                                Some(st) => {
                                    assert(st.0.hourly == acc.hourly);
                                    let m = ws_end(s, st.1);
                                    if m < s.len() && s[m] == ',' {
                                        let n2 = ws_end(s, m + 1);
                                        if i < n2 && n2 <= s.len() {
                                            lemma_members_hourly(s, n2, st.0, false);
                                        }
                                    }
                                },
                            }
                        }
                    }
                }
            },
        }
    }
}

/// What a forecast document denotes: `Some` exactly when the text is one
/// JSON object of the forecast schema (with anything further ignored
/// member by member) and nothing but whitespace around it, and then the
/// decoded forecast.
pub open spec fn decode_forecast_text(s: Seq<char>) -> Option<ForecastModel> {
    let i = ws_end(s, 0);
    if 0 <= i < s.len() && s[i] == '{' {
        let j = ws_end(s, i + 1);
        if i < j && j <= s.len() {
            match doc_members(
                s,
                j,
                DocAcc { latitude: None, longitude: None, timezone: None, elevation: None, hourly: None },
                true,
            ) {
                Some(q) => if ws_end(s, q.1) == s.len() {
                    match (q.0.latitude, q.0.longitude, q.0.timezone, q.0.elevation, q.0.hourly) {
                        (Some(la), Some(lo), Some(tz), Some(el), Some(h)) => Some(
                            ForecastModel {
                                latitude: la,
                                longitude: lo,
                                timezone: tz,
                                elevation: el,
                                hourly: h,
                            },
                        ),
                        _ => None,
                    }
                } else {
                    None
                },
                None => None,
            }
        } else {
            None
        }
    } else {
        None
    }
}

/// The end of an array's remaining elements.
fn skip_elements_at(chars: &Vec<char>, i: usize, first: bool) -> (r: Option<usize>)
    requires
        i <= chars@.len(),
    ensures
        match skip_elements(chars@, i as int, first) {
            Some(e) => r matches Some(u) && u == e && u <= chars@.len(),
            None => r is None,
        },
    decreases chars@.len() - i, 1int,
{
    let n: usize = chars.len();
    if i >= n {
        return None;
    }
    if chars[i] == ']' && first {
        return Some(i + 1);
    }
    let e = match skip_value_at(chars, i) {
        Some(e) => e,
        None => {
            return None;
        },
    };
    let m: usize = ws_end_at(chars, e);
    if m < n && chars[m] == ',' {
        let n2: usize = ws_end_at(chars, m + 1);
        if i < n2 {
            skip_elements_at(chars, n2, false)
        } else {
            None
        }
    } else if m < n && chars[m] == ']' {
        Some(m + 1)
    } else {
        None
    }
}

/// A forecast document decodes only if its top-level object carries a
/// member whose unescaped key is `hourly`: a document with no `hourly`
/// member is always rejected.
pub proof fn lemma_decode_needs_hourly(s: Seq<char>)
    ensures
        decode_forecast_text(s) is Some ==> doc_walk_sees_key(
            s,
            ws_end(s, ws_end(s, 0) + 1),
            DocAcc {
                latitude: None,
                longitude: None,
                timezone: None,
                elevation: None,
                hourly: None,
            },
            true,
            "hourly"@,
        ),
{
    if decode_forecast_text(s) is Some {
        let i = ws_end(s, 0);
        let j = ws_end(s, i + 1);
        lemma_members_hourly(
            s,
            j,
            DocAcc {
                latitude: None,
                longitude: None,
                timezone: None,
                elevation: None,
                hourly: None,
            },
            true,
        );
    }
}

// ---------------------------------------------------------------------------
// The executable decoder, proved equal to the grammar above.
// ---------------------------------------------------------------------------
/// What the members of the `hourly` object seen so far have contributed.
struct HourlyParts {
    time: Option<Vec<String>>,
    temperature_2m: Option<Vec<String>>,
    windspeed_80m: Option<Vec<String>>,
}

/// What the members of the top-level object seen so far have contributed.
struct DocParts {
    latitude: Option<String>,
    longitude: Option<String>,
    timezone: Option<String>,
    elevation: Option<String>,
    hourly: Option<Hourly>,
}

spec fn hourly_acc_of(p: HourlyParts) -> HourlyAcc {
    HourlyAcc {
        time: match p.time {
            Some(v) => Some(v.deep_view()),
            None => None,
        },
        temperature_2m: match p.temperature_2m {
            Some(v) => Some(v.deep_view()),
            None => None,
        },
        windspeed_80m: match p.windspeed_80m {
            Some(v) => Some(v.deep_view()),
            None => None,
        },
    }
}

spec fn doc_acc_of(p: DocParts) -> DocAcc {
    DocAcc {
        latitude: match p.latitude {
            Some(v) => Some(v@),
            None => None,
        },
        longitude: match p.longitude {
            Some(v) => Some(v@),
            None => None,
        },
        timezone: match p.timezone {
            Some(v) => Some(v@),
            None => None,
        },
        elevation: match p.elevation {
            Some(v) => Some(v@),
            None => None,
        },
        hourly: match p.hourly {
            Some(h) => Some(h@),
            None => None,
        },
    }
}

/// Whether a key text equals the given schema key.
fn key_is(key: &String, lit: &str) -> (r: bool)
    ensures
        r == (key@ == lit@),
{
    let l = String::from_str(lit);
    key.eq(&l)
}

/// The characters of `body` between the two indices, as an owned text.
fn take_text(body: &str, from: usize, to: usize) -> (r: String)
    requires
        from <= to <= body@.len(),
    ensures
        r@ == body@.subrange(from as int, to as int),
{
    body.substring_char(from, to).to_owned()
}

/// The elements of an array of strings, as their unescaped values.
fn string_items_at(chars: &Vec<char>, body: &str, i: usize, acc: Vec<String>) -> (r: Option<
    (Vec<String>, usize),
>)
    requires
        chars@ == body@,
        i <= chars@.len(),
    ensures
        match string_items(chars@, i as int, acc.deep_view()) {
            Some(p) => r matches Some(q) && q.0.deep_view() == p.0 && q.1 == p.1 && q.1
                <= chars@.len(),
            None => r is None,
        },
    decreases chars@.len() - i,
{
    let n: usize = chars.len();
    if i >= n {
        return None;
    }
    if chars[i] == ']' {
        if acc.len() == 0 {
            return Some((acc, i + 1));
        } else {
            return None;
        }
    }
    if chars[i] != '"' {
        return None;
    }
    let (item, send) = match scan_string(chars, i + 1) {
        Some(p) => p,
        None => {
            return None;
        },
    };
    let ghost itemv = item@;
    let m: usize = ws_end_at(chars, send);
    if m < n && chars[m] == ',' {
        let k: usize = ws_end_at(chars, m + 1);
        if i < k {
            let ghost acc0 = acc.deep_view();
            let mut acc2 = acc;
            acc2.push(item);
            proof {
                assert(acc2.deep_view() =~= acc0.push(itemv));
            }
            string_items_at(chars, body, k, acc2)
        } else {
            None
        }
    } else if m < n && chars[m] == ']' {
        let ghost acc0 = acc.deep_view();
        let mut acc2 = acc;
        acc2.push(item);
        proof {
            assert(acc2.deep_view() =~= acc0.push(itemv));
        }
        Some((acc2, m + 1))
    } else {
        None
    }
}

/// The elements of an array of numbers, as their texts.
fn number_items_at(chars: &Vec<char>, body: &str, i: usize, acc: Vec<String>) -> (r: Option<
    (Vec<String>, usize),
>)
    requires
        chars@ == body@,
        i <= chars@.len(),
    ensures
        match number_items(chars@, i as int, acc.deep_view()) {
            Some(p) => r matches Some(q) && q.0.deep_view() == p.0 && q.1 == p.1 && q.1
                <= chars@.len(),
            None => r is None,
        },
    decreases chars@.len() - i,
{
    let n: usize = chars.len();
    if i >= n {
        return None;
    }
    if chars[i] == ']' {
        if acc.len() == 0 {
            return Some((acc, i + 1));
        } else {
            return None;
        }
    }
    let e = match number_end_at(chars, i) {
        Some(e) => e,
        None => {
            return None;
        },
    };
    let item = take_text(body, i, e);
    let m: usize = ws_end_at(chars, e);
    if m < n && chars[m] == ',' {
        let k: usize = ws_end_at(chars, m + 1);
        if i < k {
            let ghost acc0 = acc.deep_view();
            let mut acc2 = acc;
            acc2.push(item);
            proof {
                assert(acc2.deep_view() =~= acc0.push(chars@.subrange(i as int, e as int)));
            }
            number_items_at(chars, body, k, acc2)
        } else {
            None
        }
    } else if m < n && chars[m] == ']' {
        let ghost acc0 = acc.deep_view();
        let mut acc2 = acc;
        acc2.push(item);
        proof {
            assert(acc2.deep_view() =~= acc0.push(chars@.subrange(i as int, e as int)));
        }
        Some((acc2, m + 1))
    } else {
        None
    }
}

/// A whole array of strings, from its opening bracket.
fn string_array_at(chars: &Vec<char>, body: &str, k: usize) -> (r: Option<(Vec<String>, usize)>)
    requires
        chars@ == body@,
        k <= chars@.len(),
    ensures
        match string_array(chars@, k as int) {
            Some(p) => r matches Some(q) && q.0.deep_view() == p.0 && q.1 == p.1 && q.1
                <= chars@.len(),
            None => r is None,
        },
{
    let n: usize = chars.len();
    if !(k < n && chars[k] == '[') {
        return None;
    }
    let a0: usize = ws_end_at(chars, k + 1);
    if k < a0 {
        let empty: Vec<String> = Vec::new();
        proof {
            assert(empty.deep_view() =~= Seq::<Seq<char>>::empty());
        }
        string_items_at(chars, body, a0, empty)
    } else {
        None
    }
}

/// A whole array of numbers, from its opening bracket.
fn number_array_at(chars: &Vec<char>, body: &str, k: usize) -> (r: Option<(Vec<String>, usize)>)
    requires
        chars@ == body@,
        k <= chars@.len(),
    ensures
        match number_array(chars@, k as int) {
            Some(p) => r matches Some(q) && q.0.deep_view() == p.0 && q.1 == p.1 && q.1
                <= chars@.len(),
            None => r is None,
        },
{
    let n: usize = chars.len();
    if !(k < n && chars[k] == '[') {
        return None;
    }
    let a0: usize = ws_end_at(chars, k + 1);
    if k < a0 {
        let empty: Vec<String> = Vec::new();
        proof {
            assert(empty.deep_view() =~= Seq::<Seq<char>>::empty());
        }
        number_items_at(chars, body, a0, empty)
    } else {
        None
    }
}

/// What one member of the `hourly` object contributes.
fn hourly_value_at(
    chars: &Vec<char>,
    body: &str,
    k: usize,
    key: &String,
    parts: HourlyParts,
) -> (r: Option<(HourlyParts, usize)>)
    requires
        chars@ == body@,
        k <= chars@.len(),
    ensures
        match hourly_value(chars@, k as int, key@, hourly_acc_of(parts)) {
            Some(q) => r matches Some(t) && hourly_acc_of(t.0) == q.0 && t.1 == q.1 && t.1
                <= chars@.len(),
            None => r is None,
        },
{
    if key_is(key, "time") {
        if parts.time.is_some() {
            return None;
        }
        match string_array_at(chars, body, k) {
            Some(q) => Some(
                (
                    HourlyParts {
                        time: Some(q.0),
                        temperature_2m: parts.temperature_2m,
                        windspeed_80m: parts.windspeed_80m,
                    },
                    q.1,
                ),
            ),
            None => None,
        }
    } else if key_is(key, "temperature_2m") {
        if parts.temperature_2m.is_some() {
            return None;
        }
        match number_array_at(chars, body, k) {
            Some(q) => Some(
                (
                    HourlyParts {
                        time: parts.time,
                        temperature_2m: Some(q.0),
                        windspeed_80m: parts.windspeed_80m,
                    },
                    q.1,
                ),
            ),
            None => None,
        }
    } else if key_is(key, "windspeed_80m") {
        if parts.windspeed_80m.is_some() {
            return None;
        }
        match number_array_at(chars, body, k) {
            Some(q) => Some(
                (
                    HourlyParts {
                        time: parts.time,
                        temperature_2m: parts.temperature_2m,
                        windspeed_80m: Some(q.0),
                    },
                    q.1,
                ),
            ),
            None => None,
        }
    } else {
        match skip_value_at(chars, k) {
            Some(e) => Some((parts, e)),
            None => None,
        }
    }
}

/// The remaining members of the `hourly` object.
fn hourly_members_at(chars: &Vec<char>, body: &str, i: usize, parts: HourlyParts, first: bool) -> (r:
    Option<(HourlyParts, usize)>)
    requires
        chars@ == body@,
        i <= chars@.len(),
    ensures
        match hourly_members(chars@, i as int, hourly_acc_of(parts), first) {
            Some(q) => r matches Some(t) && hourly_acc_of(t.0) == q.0 && t.1 == q.1 && t.1
                <= chars@.len(),
            None => r is None,
        },
    decreases chars@.len() - i,
{
    let n: usize = chars.len();
    if i >= n {
        return None;
    }
    if chars[i] == '}' && first {
        return Some((parts, i + 1));
    }
    if chars[i] != '"' {
        return None;
    }
    let (key, kend) = match scan_string(chars, i + 1) {
        Some(p) => p,
        None => {
            return None;
        },
    };
    let j: usize = ws_end_at(chars, kend);
    if !(j < n && chars[j] == ':') {
        return None;
    }
    let k: usize = ws_end_at(chars, j + 1);
    if !(i < k) {
        return None;
    }
    let st = match hourly_value_at(chars, body, k, &key, parts) {
        Some(st) => st,
        None => {
            return None;
        },
    };
    let m: usize = ws_end_at(chars, st.1);
    if m < n && chars[m] == ',' {
        let n2: usize = ws_end_at(chars, m + 1);
        if i < n2 {
            hourly_members_at(chars, body, n2, st.0, false)
        } else {
            None
        }
    } else if m < n && chars[m] == '}' {
        Some((st.0, m + 1))
    } else {
        None
    }
}

/// What one member of the top-level object contributes.
fn doc_value_at(
    chars: &Vec<char>,
    body: &str,
    k: usize,
    key: &String,
    parts: DocParts,
) -> (r: Option<(DocParts, usize)>)
    requires
        chars@ == body@,
        k <= chars@.len(),
    ensures
        match doc_value(chars@, k as int, key@, doc_acc_of(parts)) {
            Some(q) => r matches Some(t) && doc_acc_of(t.0) == q.0 && t.1 == q.1 && t.1
                <= chars@.len(),
            None => r is None,
        },
{
    let n: usize = chars.len();
    if key_is(key, "latitude") {
        if parts.latitude.is_some() {
            return None;
        }
        match number_end_at(chars, k) {
            Some(e) => {
                let tok = take_text(body, k, e);
                Some(
                    (
                        DocParts {
                            latitude: Some(tok),
                            longitude: parts.longitude,
                            timezone: parts.timezone,
                            elevation: parts.elevation,
                            hourly: parts.hourly,
                        },
                        e,
                    ),
                )
            },
            None => None,
        }
    } else if key_is(key, "longitude") {
        if parts.longitude.is_some() {
            return None;
        }
        match number_end_at(chars, k) {
            Some(e) => {
                let tok = take_text(body, k, e);
                Some(
                    (
                        DocParts {
                            latitude: parts.latitude,
                            longitude: Some(tok),
                            timezone: parts.timezone,
                            elevation: parts.elevation,
                            hourly: parts.hourly,
                        },
                        e,
                    ),
                )
            },
            None => None,
        }
    } else if key_is(key, "elevation") {
        if parts.elevation.is_some() {
            return None;
        }
        match number_end_at(chars, k) {
            Some(e) => {
                let tok = take_text(body, k, e);
                Some(
                    (
                        DocParts {
                            latitude: parts.latitude,
                            longitude: parts.longitude,
                            timezone: parts.timezone,
                            elevation: Some(tok),
                            hourly: parts.hourly,
                        },
                        e,
                    ),
                )
            },
            None => None,
        }
    } else if key_is(key, "timezone") {
        if parts.timezone.is_some() {
            return None;
        }
        if !(k < n && chars[k] == '"') {
            return None;
        }
        match scan_string(chars, k + 1) {
            Some(p) => Some(
                (
                    DocParts {
                        latitude: parts.latitude,
                        longitude: parts.longitude,
                        timezone: Some(p.0),
                        elevation: parts.elevation,
                        hourly: parts.hourly,
                    },
                    p.1,
                ),
            ),
            None => None,
        }
    } else if key_is(key, "hourly") {
        if parts.hourly.is_some() {
            return None;
        }
        if !(k < n && chars[k] == '{') {
            return None;
        }
        let h0: usize = ws_end_at(chars, k + 1);
        if !(k < h0) {
            return None;
        }
        let hp = HourlyParts { time: None, temperature_2m: None, windspeed_80m: None };
        let t = match hourly_members_at(chars, body, h0, hp, true) {
            Some(t) => t,
            None => {
                return None;
            },
        };
        let (hparts, hend) = t;
        let ht = match hparts.time {
            Some(v) => v,
            None => {
                return None;
            },
        };
        let hte = match hparts.temperature_2m {
            Some(v) => v,
            None => {
                return None;
            },
        };
        let hw = match hparts.windspeed_80m {
            Some(v) => v,
            None => {
                return None;
            },
        };
        Some(
            (
                DocParts {
                    latitude: parts.latitude,
                    longitude: parts.longitude,
                    timezone: parts.timezone,
                    elevation: parts.elevation,
                    hourly: Some(
                        Hourly { time: ht, temperature_2m: hte, windspeed_80m: hw },
                    ),
                },
                hend,
            ),
        )
    } else {
        match skip_value_at(chars, k) {
            Some(e) => Some((parts, e)),
            None => None,
        }
    }
}

/// The remaining members of the top-level object.
fn doc_members_at(chars: &Vec<char>, body: &str, i: usize, parts: DocParts, first: bool) -> (r:
    Option<(DocParts, usize)>)
    requires
        chars@ == body@,
        i <= chars@.len(),
    ensures
        match doc_members(chars@, i as int, doc_acc_of(parts), first) {
            Some(q) => r matches Some(t) && doc_acc_of(t.0) == q.0 && t.1 == q.1 && t.1
                <= chars@.len(),
            None => r is None,
        },
    decreases chars@.len() - i,
{
    let n: usize = chars.len();
    if i >= n {
        return None;
    }
    if chars[i] == '}' && first {
        return Some((parts, i + 1));
    }
    if chars[i] != '"' {
        return None;
    }
    let (key, kend) = match scan_string(chars, i + 1) {
        Some(p) => p,
        None => {
            return None;
        },
    };
    let j: usize = ws_end_at(chars, kend);
    if !(j < n && chars[j] == ':') {
        return None;
    }
    let k: usize = ws_end_at(chars, j + 1);
    if !(i < k) {
        return None;
    }
    let st = match doc_value_at(chars, body, k, &key, parts) {
        Some(st) => st,
        None => {
            return None;
        },
    };
    let m: usize = ws_end_at(chars, st.1);
    if m < n && chars[m] == ',' {
        let n2: usize = ws_end_at(chars, m + 1);
        if i < n2 {
            doc_members_at(chars, body, n2, st.0, false)
        } else {
            None
        }
    } else if m < n && chars[m] == '}' {
        Some((st.0, m + 1))
    } else {
        None
    }
}

/// Decodes a forecast document.  Succeeds exactly on the texts that the
/// grammar [`decode_forecast_text`] accepts: one JSON object carrying the
/// forecast schema, unknown members ignored.  Every other text fails with
/// `DecodeError`.
pub fn decode_forecast(body: &str) -> (r: Result<Forecast, WeatherError>)
    ensures
        match decode_forecast_text(body@) {
            Some(m) => r matches Ok(f) && f@ == m,
            None => r == Err::<Forecast, WeatherError>(WeatherError::DecodeError),
        },
{
    let chars = text_chars(body);
    let n: usize = chars.len();
    let i: usize = ws_end_at(&chars, 0);
    if !(i < n && chars[i] == '{') {
        return Err(WeatherError::DecodeError);
    }
    let j: usize = ws_end_at(&chars, i + 1);
    if !(i < j) {
        return Err(WeatherError::DecodeError);
    }
    let dp = DocParts {
        latitude: None,
        longitude: None,
        timezone: None,
        elevation: None,
        hourly: None,
    };
    let (parts, qend) = match doc_members_at(&chars, body, j, dp, true) {
        Some(q) => q,
        None => {
            return Err(WeatherError::DecodeError);
        },
    };
    let t: usize = ws_end_at(&chars, qend);
    if t != n {
        return Err(WeatherError::DecodeError);
    }
    let la = match parts.latitude {
        Some(v) => v,
        None => {
            return Err(WeatherError::DecodeError);
        },
    };
    let lo = match parts.longitude {
        Some(v) => v,
        None => {
            return Err(WeatherError::DecodeError);
        },
    };
    let tz = match parts.timezone {
        Some(v) => v,
        None => {
            return Err(WeatherError::DecodeError);
        },
    };
    let el = match parts.elevation {
        Some(v) => v,
        None => {
            return Err(WeatherError::DecodeError);
        },
    };
    let h = match parts.hourly {
        Some(v) => v,
        None => {
            return Err(WeatherError::DecodeError);
        },
    };
    Ok(Forecast { latitude: la, longitude: lo, timezone: tz, elevation: el, hourly: h })
}

} // verus!
