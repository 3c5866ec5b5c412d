//! Reading a record back from text.
use vstd::prelude::*;
use crate::chars::{char_from_scalar, chars_of};
use crate::format::{
    char_at, digit_value, digits_end, digits_value, escape_len, escaped_char, hex4_at,
    hex_value, is_ws, name_key, parse_int, parse_member, parse_string, scan_string, skip_ws,
    value_key, Member, number_end, read_members, read_record, scalar_end, skip_value,
    word_at, AFTER, KEY, KEY_OR_CLOSE, VALUE, VALUE_OR_CLOSE,
};
use crate::record::{DecodeError, DecodeKind, Record, StoreError};

verus! {

fn is_ws_char(c: char) -> (r: bool)
    ensures
        r == is_ws(c),
{
    c == ' ' || c == '\t' || c == '\n' || c == '\r'
}

fn char_is(t: &Vec<char>, n: usize, i: usize, c: char) -> (r: bool)
    requires
        n == t@.len(),
    ensures
        r == char_at(t@, i as int, c),
{
    i < n && t[i] == c
}

fn skip_ws_at(t: &Vec<char>, n: usize, i: usize) -> (r: usize)
    requires
        n == t@.len(),
        i <= n,
    ensures
        r == skip_ws(t@, i as int),
        i <= r <= n,
{
    let mut j = i;
    while j < n && is_ws_char(t[j])
        invariant
            i <= j <= n,
            n == t@.len(),
            skip_ws(t@, j as int) == skip_ws(t@, i as int),
        decreases n - j,
    {
        j = j + 1;
    }
    j
}

fn hex_val(c: char) -> (r: i32)
    ensures
        r == hex_value(c),
{
    if '0' <= c && c <= '9' {
        (c as u32 - 48) as i32
    } else if 'a' <= c && c <= 'f' {
        (c as u32 - 87) as i32
    } else if 'A' <= c && c <= 'F' {
        (c as u32 - 55) as i32
    } else {
        -1
    }
}

fn hex4(t: &Vec<char>, n: usize, i: usize) -> (r: i32)
    requires
        n == t@.len(),
    ensures
        r == hex4_at(t@, i as int),
{
    if i > n || n - i < 4 {
        return -1;
    }
    let a = hex_val(t[i]);
    let b = hex_val(t[i + 1]);
    let c = hex_val(t[i + 2]);
    let d = hex_val(t[i + 3]);
    if a < 0 || b < 0 || c < 0 || d < 0 {
        -1
    } else {
        4096 * a + 256 * b + 16 * c + d
    }
}

/// Reads the escape sequence whose backslash stands at `i`.
fn read_escape(t: &Vec<char>, n: usize, i: usize) -> (r: Option<(char, usize)>)
    requires
        n == t@.len(),
        char_at(t@, i as int, '\\'),
    ensures
        match r {
            None => escape_len(t@, i as int) == 0,
            Some((c, j)) => {
                &&& escape_len(t@, i as int) > 0
                &&& j == i + escape_len(t@, i as int)
                &&& c == escaped_char(t@, i as int)
                &&& j <= n
            },
        },
{
    if i + 1 >= n {
        return None;
    }
    let e = t[i + 1];
    if e == '"' || e == '\\' || e == '/' {
        Some((e, i + 2))
    } else if e == 'b' {
        Some(('\x08', i + 2))
    } else if e == 'f' {
        Some(('\x0c', i + 2))
    } else if e == 'n' {
        Some(('\n', i + 2))
    } else if e == 'r' {
        Some(('\r', i + 2))
    } else if e == 't' {
        Some(('\t', i + 2))
    } else if e == 'u' {
        let h = hex4(t, n, i + 2);
        if h < 0 || (0xDC00 <= h && h <= 0xDFFF) {
            None
        } else if !(0xD800 <= h && h <= 0xDBFF) {
            match char_from_scalar(h as u32) {
                Some(c) => Some((c, i + 6)),
                None => None,
            }
        } else if char_is(t, n, i + 6, '\\') && char_is(t, n, i + 7, 'u') {
            let l = hex4(t, n, i + 8);
            if 0xDC00 <= l && l <= 0xDFFF {
                let code: u32 = (0x10000 + (h - 0xD800) * 1024 + (l - 0xDC00)) as u32;
                match char_from_scalar(code) {
                    Some(c) => Some((c, i + 12)),
                    None => None,
                }
            } else {
                None
            }
        } else {
            None
        }
    } else {
        None
    }
}

/// Reads the rest of a string literal from `i` on.
fn scan_string_at(t: &Vec<char>, n: usize, i: usize) -> (r: Option<(String, usize)>)
    requires
        n == t@.len(),
        i <= n,
    ensures
        match r {
            None => scan_string(t@, i as int, seq![]) is None,
            Some((s, j)) => scan_string(t@, i as int, seq![]) == Some((s@, j as int)) && j <= n,
        },
{
    let mut out = String::new();
    let mut k = i;
    loop
        invariant
            i <= k <= n,
            n == t@.len(),
            scan_string(t@, i as int, seq![]) == scan_string(t@, k as int, out@),
        decreases n - k,
    {
        if k >= n {
            return None;
        }
        let c = t[k];
        if c == '"' {
            return Some((out, k + 1));
        } else if c == '\\' {
            match read_escape(t, n, k) {
                None => {
                    return None;
                },
                Some((e, j)) => {
                    out.push(e);
                    k = j;
                },
            }
        } else if (c as u32) < 0x20 {
            return None;
        } else {
            out.push(c);
            k = k + 1;
        }
    }
}

fn parse_string_at(t: &Vec<char>, n: usize, i: usize) -> (r: Option<(String, usize)>)
    requires
        n == t@.len(),
        i <= n,
    ensures
        match r {
            None => parse_string(t@, i as int) is None,
            Some((s, j)) => parse_string(t@, i as int) == Some((s@, j as int)) && j <= n,
        },
{
    if char_is(t, n, i, '"') {
        scan_string_at(t, n, i + 1)
    } else {
        None
    }
}

fn parse_int_at(t: &Vec<char>, n: usize, i: usize) -> (r: Option<(i32, usize)>)
    requires
        n == t@.len(),
        i <= n,
    ensures
        match r {
            None => parse_int(t@, i as int) is None,
            Some((v, j)) => parse_int(t@, i as int) == Some((v as int, j as int)) && j <= n,
        },
{
    let neg = char_is(t, n, i, '-');
    let s = if neg {
        i + 1
    } else {
        i
    };
    let mut e = s;
    let mut acc: u64 = 0;
    let mut too_big = false;
    while e < n && '0' <= t[e] && t[e] <= '9'
        invariant
            s <= e <= n,
            n == t@.len(),
            digits_end(t@, e as int) == digits_end(t@, s as int),
            !too_big ==> acc == digits_value(t@, s as int, e as int) && acc <= 2147483648,
            too_big ==> digits_value(t@, s as int, e as int) > 2147483648,
        decreases n - e,
    {
        let d = t[e] as u64 - 48;
        assert(d == digit_value(t@[e as int]));
        if !too_big {
            let next = acc * 10 + d;
            if next > 2147483648 {
                too_big = true;
            } else {
                acc = next;
            }
        }
        e = e + 1;
    }
    if e == s {
        return None;
    }
    if t[s] == '0' && e > s + 1 {
        return None;
    }
    if too_big {
        return None;
    }
    if neg {
        if acc == 2147483648 {
            Some((i32::MIN, e))
        } else {
            Some((-(acc as i32), e))
        }
    } else if acc > 2147483647 {
        None
    } else {
        Some((acc as i32, e))
    }
}

fn digits_end_at(t: &Vec<char>, n: usize, i: usize) -> (r: usize)
    requires
        n == t@.len(),
        i <= n,
    ensures
        r == digits_end(t@, i as int),
        i <= r <= n,
{
    let mut e = i;
    while e < n && '0' <= t[e] && t[e] <= '9'
        invariant
            i <= e <= n,
            n == t@.len(),
            digits_end(t@, e as int) == digits_end(t@, i as int),
        decreases n - e,
    {
        e = e + 1;
    }
    e
}

fn number_end_at(t: &Vec<char>, n: usize, i: usize) -> (r: Option<usize>)
    requires
        n == t@.len(),
        i <= n,
    ensures
        match r {
            None => number_end(t@, i as int) < 0,
            Some(k) => number_end(t@, i as int) == k && k <= n,
        },
{
    let s = if char_is(t, n, i, '-') {
        i + 1
    } else {
        i
    };
    let e = digits_end_at(t, n, s);
    let dot = char_is(t, n, e, '.');
    let f = if dot {
        digits_end_at(t, n, e + 1)
    } else {
        e
    };
    let g = if char_is(t, n, f, 'e') || char_is(t, n, f, 'E') {
        if char_is(t, n, f + 1, '+') || char_is(t, n, f + 1, '-') {
            f + 2
        } else {
            f + 1
        }
    } else {
        f
    };
    let h = digits_end_at(t, n, g);
    if e == s || (t[s] == '0' && e > s + 1) || (dot && f == e + 1) {
        None
    } else if g > f && h == g {
        None
    } else {
        Some(h)
    }
}

fn word_is(t: &Vec<char>, n: usize, i: usize, w: &str) -> (r: bool)
    requires
        n == t@.len(),
    ensures
        r == word_at(t@, i as int, w@),
{
    let m = w.unicode_len();
    if i > n || n - i < m {
        return false;
    }
    let mut k: usize = 0;
    while k < m
        invariant
            k <= m,
            m == w@.len(),
            n == t@.len(),
            i + m <= n,
            t@.subrange(i as int, i + k) == w@.subrange(0, k as int),
        decreases m - k,
    {
        if t[i + k] != w.get_char(k) {
            assert(t@.subrange(i as int, i + m)[k as int] == t@[i + k]);
            return false;
        }
        assert(t@.subrange(i as int, i + k + 1) =~= t@.subrange(i as int, i + k).push(t@[i + k]));
        assert(w@.subrange(0, k + 1) =~= w@.subrange(0, k as int).push(w@[k as int]));
        k = k + 1;
    }
    assert(w@ =~= w@.subrange(0, m as int));
    true
}

fn scalar_end_at(t: &Vec<char>, n: usize, i: usize) -> (r: Option<usize>)
    requires
        n == t@.len(),
        i <= n,
    ensures
        match r {
            None => scalar_end(t@, i as int) < 0,
            Some(k) => scalar_end(t@, i as int) == k && k <= n,
        },
{
    proof {
        reveal_strlit("true");
        reveal_strlit("null");
        reveal_strlit("false");
        assert("true"@ =~= seq!['t', 'r', 'u', 'e']);
        assert("null"@ =~= seq!['n', 'u', 'l', 'l']);
        assert("false"@ =~= seq!['f', 'a', 'l', 's', 'e']);
    }
    if char_is(t, n, i, '"') {
        match parse_string_at(t, n, i) {
            Some((_, k)) => Some(k),
            None => None,
        }
    } else if char_is(t, n, i, '-') || (i < n && '0' <= t[i] && t[i] <= '9') {
        number_end_at(t, n, i)
    } else if word_is(t, n, i, "true") || word_is(t, n, i, "null") {
        Some(i + 4)
    } else if word_is(t, n, i, "false") {
        Some(i + 5)
    } else {
        None
    }
}

/// Passes over the JSON value that starts at `i` (after any whitespace).
fn skip_value_at(t: &Vec<char>, n: usize, i: usize) -> (r: Option<usize>)
    requires
        n == t@.len(),
        i <= n,
    ensures
        match r {
            None => skip_value(t@, i as int, seq![], VALUE) is None,
            Some(k) => skip_value(t@, i as int, seq![], VALUE) == Some(k as int) && k <= n,
        },
{
    let mut open: Vec<bool> = Vec::new();
    let mut mode: u8 = VALUE;
    let mut k = i;
    loop
        invariant
            k <= n,
            n == t@.len(),
            mode <= AFTER,
            mode != VALUE && mode != AFTER ==> open@.len() > 0,
            skip_value(t@, i as int, seq![], VALUE) == skip_value(t@, k as int, open@, mode),
        decreases n - k,
    {
        if mode == AFTER && open.len() == 0 {
            return Some(k);
        }
        if k >= n {
            return None;
        }
        let c = t[k];
        if is_ws_char(c) {
            k = k + 1;
        } else if mode == AFTER {
            let obj = open[open.len() - 1];
            if c == ',' {
                mode = if obj {
                    KEY
                } else {
                    VALUE
                };
                k = k + 1;
            } else if (c == ']' && !obj) || (c == '}' && obj) {
                open.pop();
                k = k + 1;
            } else {
                return None;
            }
        } else if (mode == VALUE_OR_CLOSE && c == ']') || (mode == KEY_OR_CLOSE && c == '}') {
            open.pop();
            mode = AFTER;
            k = k + 1;
        } else if mode == KEY || mode == KEY_OR_CLOSE {
            match parse_string_at(t, n, k) {
                Some((_, j)) => {
                    let c2 = skip_ws_at(t, n, j);
                    if char_is(t, n, c2, ':') && c2 >= k {
                        mode = VALUE;
                        k = c2 + 1;
                    } else {
                        return None;
                    }
                },
                None => {
                    return None;
                },
            }
        } else if c == '[' {
            open.push(false);
            mode = VALUE_OR_CLOSE;
            k = k + 1;
        } else if c == '{' {
            open.push(true);
            mode = KEY_OR_CLOSE;
            k = k + 1;
        } else {
            match scalar_end_at(t, n, k) {
                Some(j) => {
                    if k < j {
                        mode = AFTER;
                        k = j;
                    } else {
                        return None;
                    }
                },
                None => {
                    return None;
                },
            }
        }
    }
}

/// Whether two texts are the same characters.
fn same_text(a: &str, b: &str) -> (r: bool)
    ensures
        r == (a@ == b@),
{
    let n = a.unicode_len();
    if n != b.unicode_len() {
        return false;
    }
    let mut k: usize = 0;
    while k < n
        invariant
            k <= n,
            n == a@.len(),
            n == b@.len(),
            a@.subrange(0, k as int) == b@.subrange(0, k as int),
        decreases n - k,
    {
        if a.get_char(k) != b.get_char(k) {
            return false;
        }
        assert(a@.subrange(0, k + 1) =~= a@.subrange(0, k as int).push(a@[k as int]));
        assert(b@.subrange(0, k + 1) =~= b@.subrange(0, k as int).push(b@[k as int]));
        k = k + 1;
    }
    assert(a@ =~= a@.subrange(0, n as int));
    assert(b@ =~= b@.subrange(0, n as int));
    true
}

/// A member of the record object, as read.
enum Field {
    Name(String),
    Value(i32),
    Other,
}

impl Field {
    spec fn model(&self) -> Member {
        match self {
            Field::Name(s) => Member::Name(s@),
            Field::Value(v) => Member::Value(*v as int),
            Field::Other => Member::Other,
        }
    }
}

fn parse_member_at(t: &Vec<char>, n: usize, i: usize) -> (r: Option<(Field, usize)>)
    requires
        n == t@.len(),
        i <= n,
    ensures
        match r {
            None => parse_member(t@, i as int) is None,
            Some((f, j)) => parse_member(t@, i as int) == Some((f.model(), j as int)) && j <= n,
        },
{
    let (key, j) = match parse_string_at(t, n, i) {
        None => {
            return None;
        },
        Some(p) => p,
    };
    let c = skip_ws_at(t, n, j);
    if !char_is(t, n, c, ':') {
        return None;
    }
    let v = skip_ws_at(t, n, c + 1);
    proof {
        reveal_strlit("name");
        reveal_strlit("value");
        assert("name"@ =~= name_key());
        assert("value"@ =~= value_key());
    }
    if same_text(key.as_str(), "name") {
        match parse_string_at(t, n, v) {
            Some((s, k)) => Some((Field::Name(s), k)),
            None => None,
        }
    } else if same_text(key.as_str(), "value") {
        match parse_int_at(t, n, v) {
            Some((x, k)) => Some((Field::Value(x), k)),
            None => None,
        }
    } else {
        match skip_value_at(t, n, v) {
            Some(k) => Some((Field::Other, k)),
            None => None,
        }
    }
}

spec fn opt_view(s: Option<String>) -> Option<Seq<char>> {
    match s {
        Some(x) => Some(x@),
        None => None,
    }
}

spec fn opt_int(v: Option<i32>) -> Option<int> {
    match v {
        Some(x) => Some(x as int),
        None => None,
    }
}

fn fail(kind: DecodeKind, at: usize) -> (r: Result<Record, StoreError>)
    ensures
        r matches Err(StoreError::Decode(e)) && e.kind == kind && e.at == at,
{
    Err(StoreError::Decode(DecodeError { kind, at }))
}

/// Reads the record that `text` holds: a JSON object with one member `name`
/// (a string) and one member `value` (an integer that fits in 32 bits), in
/// any order, among any other members. Any other text gives
/// `StoreError::Decode`, with what was wrong and the index of the character
/// where it was found.
pub fn decode_record(text: &str) -> (r: Result<Record, StoreError>)
    ensures
        match read_record(text@) {
            Ok((name, value)) => r matches Ok(rec) && rec.name@ == name && rec.value == value,
            Err((kind, at)) => r matches Err(StoreError::Decode(e)) && e.kind == kind && e.at
                == at,
        },
{
    let cs = chars_of(text);
    let t = &cs;
    let n = cs.len();
    let a = skip_ws_at(t, n, 0);
    if !char_is(t, n, a, '{') {
        return fail(DecodeKind::NotAnObject, a);
    }
    let mut name: Option<String> = None;
    let mut value: Option<i32> = None;
    let mut i = a + 1;
    loop
        invariant
            i <= n,
            n == t@.len(),
            t@ == text@,
            read_record(text@) == read_members(t@, i as int, opt_view(name), opt_int(value)),
        decreases n - i,
    {
        let j = skip_ws_at(t, n, i);
        let (m, k) = match parse_member_at(t, n, j) {
            None => {
                return fail(DecodeKind::BadMember, j);
            },
            Some(p) => p,
        };
        match m {
            Field::Name(s) => {
                if name.is_some() {
                    return fail(DecodeKind::RepeatedName, j);
                }
                name = Some(s);
            },
            Field::Value(v) => {
                if value.is_some() {
                    return fail(DecodeKind::RepeatedValue, j);
                }
                value = Some(v);
            },
            Field::Other => {},
        }
        let c = skip_ws_at(t, n, k);
        if char_is(t, n, c, ',') && c >= i {
            i = c + 1;
        } else if char_is(t, n, c, '}') {
            let e = skip_ws_at(t, n, c + 1);
            if e != n {
                return fail(DecodeKind::TrailingText, e);
            }
            return match (name, value) {
                (Some(name), Some(value)) => Ok(Record { name, value }),
                (None, _) => fail(DecodeKind::MissingName, c),
                _ => fail(DecodeKind::MissingValue, c),
            };
        } else {
            return fail(DecodeKind::ExpectedCommaOrEnd, c);
        }
    }
}

} // verus!
