//! The record file format, stated over character sequences.
//!
//! The writer's side is one exact layout: a pretty-printed JSON object
//!
//! ```text
//! {
//!   "name": "<escaped name>",
//!   "value": <decimal value>
//! }
//! ```
//!
//! The reader's side accepts any JSON text that is an object with exactly the
//! two members `name` (a string) and `value` (an integer that fits in 32 bits),
//! in either order and with any JSON whitespace between tokens.
use vstd::prelude::*;
use crate::record::DecodeKind;

verus! {

// ---------------------------------------------------------------- writer

/// The decimal digit character for `d` in `0..10`.
pub open spec fn digit_char(d: int) -> char {
    ((48 + d) as u32) as char
}

/// The lower-case hexadecimal digit character for `d` in `0..16`.
pub open spec fn hex_digit_char(d: int) -> char {
    if d < 10 {
        ((48 + d) as u32) as char
    } else {
        ((87 + d) as u32) as char
    }
}

/// How one character of a name stands inside a JSON string literal: quote and
/// backslash behind a backslash, the control characters with a short escape
/// where JSON has one and as `\u00xx` otherwise, every other character as is.
pub open spec fn escape_char(c: char) -> Seq<char> {
    if c == '"' {
        seq!['\\', '"']
    } else if c == '\\' {
        seq!['\\', '\\']
    } else if c == '\x08' {
        seq!['\\', 'b']
    } else if c == '\x0c' {
        seq!['\\', 'f']
    } else if c == '\n' {
        seq!['\\', 'n']
    } else if c == '\r' {
        seq!['\\', 'r']
    } else if c == '\t' {
        seq!['\\', 't']
    } else if (c as u32) < 0x20 {
        seq!['\\', 'u', '0', '0', hex_digit_char(c as int / 16), hex_digit_char(c as int % 16)]
    } else {
        seq![c]
    }
}

pub open spec fn escape_str(s: Seq<char>) -> Seq<char>
    decreases s.len(),
{
    if s.len() == 0 {
        seq![]
    } else {
        escape_char(s[0]) + escape_str(s.drop_first())
    }
}

/// A JSON string literal holding `s`.
pub open spec fn json_quote(s: Seq<char>) -> Seq<char> {
    seq!['"'] + escape_str(s) + seq!['"']
}

/// The decimal digits of `n`, without leading zeros.
pub open spec fn decimal_digits(n: nat) -> Seq<char>
    decreases n,
{
    if n < 10 {
        seq![digit_char(n as int)]
    } else {
        decimal_digits(n / 10).push(digit_char((n % 10) as int))
    }
}

/// `v` written as a JSON integer.
pub open spec fn decimal(v: int) -> Seq<char> {
    if v < 0 {
        seq!['-'] + decimal_digits((-v) as nat)
    } else {
        decimal_digits(v as nat)
    }
}

pub open spec fn text_open() -> Seq<char> {
    seq!['{', '\n', ' ', ' ', '"', 'n', 'a', 'm', 'e', '"', ':', ' ']
}

pub open spec fn text_middle() -> Seq<char> {
    seq![',', '\n', ' ', ' ', '"', 'v', 'a', 'l', 'u', 'e', '"', ':', ' ']
}

pub open spec fn text_close() -> Seq<char> {
    seq!['\n', '}']
}

/// The text that saving the record `(name, value)` writes.
pub open spec fn record_text(name: Seq<char>, value: int) -> Seq<char> {
    text_open() + json_quote(name) + text_middle() + decimal(value) + text_close()
}

// ---------------------------------------------------------------- reader

pub open spec fn is_ws(c: char) -> bool {
    c == ' ' || c == '\t' || c == '\n' || c == '\r'
}

/// The first index at or after `i` that is not JSON whitespace.
pub open spec fn skip_ws(t: Seq<char>, i: int) -> int
    decreases t.len() - i,
{
    if 0 <= i < t.len() && is_ws(t[i]) {
        skip_ws(t, i + 1)
    } else {
        i
    }
}

/// Whether `t` holds the character `c` at `i`.
pub open spec fn char_at(t: Seq<char>, i: int, c: char) -> bool {
    0 <= i < t.len() && t[i] == c
}

/// The value of a hexadecimal digit, or -1 for another character.
pub open spec fn hex_value(c: char) -> int {
    if '0' <= c <= '9' {
        c as int - 48
    } else if 'a' <= c <= 'f' {
        c as int - 87
    } else if 'A' <= c <= 'F' {
        c as int - 55
    } else {
        -1
    }
}

/// The value of the four hexadecimal digits at `i`, or -1 where there are not four.
pub open spec fn hex4_at(t: Seq<char>, i: int) -> int {
    if 0 <= i && i + 4 <= t.len() && hex_value(t[i]) >= 0 && hex_value(t[i + 1]) >= 0
        && hex_value(t[i + 2]) >= 0 && hex_value(t[i + 3]) >= 0 {
        4096 * hex_value(t[i]) + 256 * hex_value(t[i + 1]) + 16 * hex_value(t[i + 2]) + hex_value(
            t[i + 3],
        )
    } else {
        -1
    }
}

pub open spec fn is_high_surrogate(h: int) -> bool {
    0xD800 <= h <= 0xDBFF
}

pub open spec fn is_low_surrogate(h: int) -> bool {
    0xDC00 <= h <= 0xDFFF
}

/// The length of the escape sequence that starts with the backslash at `i`,
/// or 0 where no valid one starts there. A `\u` escape of a high surrogate
/// must be followed by a `\u` escape of a low one.
pub open spec fn escape_len(t: Seq<char>, i: int) -> int {
    if !(char_at(t, i, '\\') && i + 1 < t.len()) {
        0
    } else {
        let e = t[i + 1];
        if e == '"' || e == '\\' || e == '/' || e == 'b' || e == 'f' || e == 'n' || e == 'r' || e
            == 't' {
            2
        } else if e == 'u' {
            let h = hex4_at(t, i + 2);
            if h < 0 || is_low_surrogate(h) {
                0
            } else if !is_high_surrogate(h) {
                6
            } else if char_at(t, i + 6, '\\') && char_at(t, i + 7, 'u') && is_low_surrogate(
                hex4_at(t, i + 8),
            ) {
                12
            } else {
                0
            }
        } else {
            0
        }
    }
}

/// The scalar value of a surrogate pair.
pub open spec fn pair_scalar(high: int, low: int) -> int {
    0x10000 + (high - 0xD800) * 1024 + (low - 0xDC00)
}

/// The character that the valid escape sequence at `i` stands for.
pub open spec fn escaped_char(t: Seq<char>, i: int) -> char {
    let e = t[i + 1];
    if e == 'b' {
        '\x08'
    } else if e == 'f' {
        '\x0c'
    } else if e == 'n' {
        '\n'
    } else if e == 'r' {
        '\r'
    } else if e == 't' {
        '\t'
    } else if e == 'u' {
        let h = hex4_at(t, i + 2);
        if is_high_surrogate(h) {
            (pair_scalar(h, hex4_at(t, i + 8)) as u32) as char
        } else {
            (h as u32) as char
        }
    } else {
        e
    }
}

/// Reads the rest of a string literal from `i` on, `acc` being what was read
/// before: the characters it holds and the index after its closing quote.
pub open spec fn scan_string(t: Seq<char>, i: int, acc: Seq<char>) -> Option<(Seq<char>, int)>
    decreases t.len() - i,
{
    if i < 0 || i >= t.len() {
        None
    } else if t[i] == '"' {
        Some((acc, i + 1))
    } else if t[i] == '\\' {
        let w = escape_len(t, i);
        if w > 0 {
            scan_string(t, i + w, acc.push(escaped_char(t, i)))
        } else {
            None
        }
    } else if (t[i] as u32) < 0x20 {
        None
    } else {
        scan_string(t, i + 1, acc.push(t[i]))
    }
}

/// The string literal that starts at `i`.
pub open spec fn parse_string(t: Seq<char>, i: int) -> Option<(Seq<char>, int)> {
    if char_at(t, i, '"') {
        scan_string(t, i + 1, seq![])
    } else {
        None
    }
}

pub open spec fn is_digit(c: char) -> bool {
    '0' <= c <= '9'
}

pub open spec fn digit_value(c: char) -> int {
    c as int - 48
}

/// The end of the run of decimal digits that starts at `i`.
pub open spec fn digits_end(t: Seq<char>, i: int) -> int
    decreases t.len() - i,
{
    if 0 <= i < t.len() && is_digit(t[i]) {
        digits_end(t, i + 1)
    } else {
        i
    }
}

/// The number that the digits `t[i..j]` write.
pub open spec fn digits_value(t: Seq<char>, i: int, j: int) -> int
    decreases j - i,
{
    if j <= i {
        0
    } else {
        digits_value(t, i, j - 1) * 10 + digit_value(t[j - 1])
    }
}

/// The JSON integer that starts at `i`, where it fits in 32 bits, and the
/// index after it. A leading zero is allowed only as the whole number.
pub open spec fn parse_int(t: Seq<char>, i: int) -> Option<(int, int)> {
    let neg = char_at(t, i, '-');
    let s = if neg {
        i + 1
    } else {
        i
    };
    let e = digits_end(t, s);
    if e == s || (t[s] == '0' && e > s + 1) {
        None
    } else {
        let m = digits_value(t, s, e);
        let v = if neg {
            -m
        } else {
            m
        };
        if i32::MIN <= v <= i32::MAX {
            Some((v, e))
        } else {
            None
        }
    }
}

/// The end of a JSON number that starts at `i`, or -1 where none starts there:
/// `-? (0 | [1-9][0-9]*) (. [0-9]+)? ([eE] [+-]? [0-9]+)?`.
pub open spec fn number_end(t: Seq<char>, i: int) -> int {
    let s = if char_at(t, i, '-') {
        i + 1
    } else {
        i
    };
    let e = digits_end(t, s);
    let f = if char_at(t, e, '.') {
        digits_end(t, e + 1)
    } else {
        e
    };
    let g = if char_at(t, f, 'e') || char_at(t, f, 'E') {
        if char_at(t, f + 1, '+') || char_at(t, f + 1, '-') {
            f + 2
        } else {
            f + 1
        }
    } else {
        f
    };
    let h = digits_end(t, g);
    if e == s || (t[s] == '0' && e > s + 1) || (char_at(t, e, '.') && f == e + 1) {
        -1
    } else if g > f && h == g {
        -1
    } else {
        h
    }
}

/// Whether the characters of `w` stand in `t` from `i` on.
pub open spec fn word_at(t: Seq<char>, i: int, w: Seq<char>) -> bool {
    0 <= i && i + w.len() <= t.len() && t.subrange(i, i + w.len()) == w
}

/// The end of the JSON string, number, `true`, `false` or `null` that starts
/// at `i`, or -1 where none starts there.
pub open spec fn scalar_end(t: Seq<char>, i: int) -> int {
    if char_at(t, i, '"') {
        match parse_string(t, i) {
            Some((_, k)) => k,
            None => -1,
        }
    } else if char_at(t, i, '-') || (0 <= i < t.len() && is_digit(t[i])) {
        number_end(t, i)
    } else if word_at(t, i, seq!['t', 'r', 'u', 'e']) || word_at(t, i, seq!['n', 'u', 'l', 'l']) {
        i + 4
    } else if word_at(t, i, seq!['f', 'a', 'l', 's', 'e']) {
        i + 5
    } else {
        -1
    }
}

/// What the reader of a JSON value expects next: a value; a value or the
/// end of an array just opened; a member's key; a key or the end of an
/// object just opened; or what follows a complete value.
pub const VALUE: u8 = 0;
pub const VALUE_OR_CLOSE: u8 = 1;
pub const KEY: u8 = 2;
pub const KEY_OR_CLOSE: u8 = 3;
pub const AFTER: u8 = 4;

/// Passes over a JSON value: from `i` on, in the arrays and objects `open`
/// (`true` for an object, innermost last), expecting `mode`. The result is the
/// index after the value, where it is one.
pub open spec fn skip_value(t: Seq<char>, i: int, open: Seq<bool>, mode: u8) -> Option<int>
    decreases t.len() - i,
{
    if mode == AFTER && open.len() == 0 {
        Some(i)
    } else if i < 0 || i >= t.len() {
        None
    } else if is_ws(t[i]) {
        skip_value(t, i + 1, open, mode)
    } else if mode == AFTER {
        let obj = open.last();
        if t[i] == ',' {
            skip_value(
                t,
                i + 1,
                open,
                if obj {
                    KEY
                } else {
                    VALUE
                },
            )
        } else if (t[i] == ']' && !obj) || (t[i] == '}' && obj) {
            skip_value(t, i + 1, open.drop_last(), AFTER)
        } else {
            None
        }
    } else if (mode == VALUE_OR_CLOSE && t[i] == ']') || (mode == KEY_OR_CLOSE && t[i] == '}') {
        skip_value(t, i + 1, open.drop_last(), AFTER)
    } else if mode == KEY || mode == KEY_OR_CLOSE {
        match parse_string(t, i) {
            Some((_, k)) => {
                let c = skip_ws(t, k);
                if char_at(t, c, ':') && c >= i {
                    skip_value(t, c + 1, open, VALUE)
                } else {
                    None
                }
            },
            None => None,
        }
    } else if t[i] == '[' {
        skip_value(t, i + 1, open.push(false), VALUE_OR_CLOSE)
    } else if t[i] == '{' {
        skip_value(t, i + 1, open.push(true), KEY_OR_CLOSE)
    } else {
        let k = scalar_end(t, i);
        if i < k <= t.len() {
            skip_value(t, k, open, AFTER)
        } else {
            None
        }
    }
}

/// A member of the record object, as read.
pub enum Member {
    Name(Seq<char>),
    Value(int),
    Other,
}

pub open spec fn name_key() -> Seq<char> {
    seq!['n', 'a', 'm', 'e']
}

pub open spec fn value_key() -> Seq<char> {
    seq!['v', 'a', 'l', 'u', 'e']
}

/// The member `"key": value` that starts at `i`, and the index after it.
pub open spec fn parse_member(t: Seq<char>, i: int) -> Option<(Member, int)> {
    match parse_string(t, i) {
        None => None,
        Some((key, j)) => {
            let c = skip_ws(t, j);
            let v = skip_ws(t, c + 1);
            if !char_at(t, c, ':') {
                None
            } else if key == name_key() {
                match parse_string(t, v) {
                    Some((s, k)) => Some((Member::Name(s), k)),
                    None => None,
                }
            } else if key == value_key() {
                match parse_int(t, v) {
                    Some((n, k)) => Some((Member::Value(n), k)),
                    None => None,
                }
            } else {
                match skip_value(t, v, seq![], VALUE) {
                    Some(k) => Some((Member::Other, k)),
                    None => None,
                }
            }
        },
    }
}

/// What the members read so far give, after `m`: `None` where `m` repeats
/// a member already read.
pub open spec fn add_member(name: Option<Seq<char>>, value: Option<int>, m: Member) -> Option<
    (Option<Seq<char>>, Option<int>),
> {
    match m {
        Member::Name(s) => if name is Some {
            None
        } else {
            Some((Some(s), value))
        },
        Member::Value(v) => if value is Some {
            None
        } else {
            Some((name, Some(v)))
        },
        Member::Other => Some((name, value)),
    }
}

/// Reads the members of the record object from `i` on (before the
/// whitespace that may come first) up to its closing brace and the end of the
/// text, `name` and `value` being what the members before gave. A failure
/// gives what was wrong and where.
pub open spec fn read_members(t: Seq<char>, i: int, name: Option<Seq<char>>, value: Option<int>) -> Result<
    (Seq<char>, int),
    (DecodeKind, int),
>
    decreases t.len() - i,
{
    let j = skip_ws(t, i);
    match parse_member(t, j) {
        None => Err((DecodeKind::BadMember, j)),
        Some((m, k)) => match add_member(name, value, m) {
            None => Err(
                (
                    if m is Name {
                        DecodeKind::RepeatedName
                    } else {
                        DecodeKind::RepeatedValue
                    },
                    j,
                ),
            ),
            Some((n2, v2)) => {
                let c = skip_ws(t, k);
                if char_at(t, c, ',') && c >= i {
                    read_members(t, c + 1, n2, v2)
                } else if char_at(t, c, '}') {
                    let e = skip_ws(t, c + 1);
                    if e != t.len() {
                        Err((DecodeKind::TrailingText, e))
                    } else {
                        match (n2, v2) {
                            (Some(n), Some(v)) => Ok((n, v)),
                            (None, _) => Err((DecodeKind::MissingName, c)),
                            _ => Err((DecodeKind::MissingValue, c)),
                        }
                    }
                } else {
                    Err((DecodeKind::ExpectedCommaOrEnd, c))
                }
            },
        },
    }
}

/// What reading the text `t` as a record gives: the record, where it holds
/// one (a JSON object with one `name` member and one `value` member, and any
/// others, whose values are any JSON values and are passed over), and
/// otherwise what was wrong and at which character.
pub open spec fn read_record(t: Seq<char>) -> Result<(Seq<char>, int), (DecodeKind, int)> {
    let a = skip_ws(t, 0);
    if char_at(t, a, '{') {
        read_members(t, a + 1, None, None)
    } else {
        Err((DecodeKind::NotAnObject, a))
    }
}

/// The record that the text `t` holds, if it holds one.
pub open spec fn parse_record_text(t: Seq<char>) -> Option<(Seq<char>, int)> {
    match read_record(t) {
        Ok(p) => Some(p),
        Err(_) => None,
    }
}

} // verus!
