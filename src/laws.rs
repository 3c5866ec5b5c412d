//! What holds of saving and loading taken together.
use vstd::prelude::*;
use crate::format::{
    char_at, decimal, decimal_digits, digit_char, digits_end, digits_value, escape_char,
    escape_len, escape_str, escaped_char, hex4_at, hex_digit_char, hex_value, is_digit,
    json_quote, name_key, parse_int, parse_member, parse_record_text, parse_string, record_text,
    read_members, scan_string, skip_ws, text_close, text_middle, text_open, value_key, Member,
};
use crate::record::DecodeKind;
use crate::store::{after_save, load_of, Files};

verus! {

proof fn lemma_hex_digit(d: int)
    requires
        0 <= d < 16,
    ensures
        hex_value(hex_digit_char(d)) == d,
{
}

/// One escaped character is read back as that character.
proof fn lemma_scan_one(t: Seq<char>, i: int, acc: Seq<char>, c: char)
    requires
        0 <= i,
        i + escape_char(c).len() < t.len(),
        t.subrange(i, i + escape_char(c).len()) == escape_char(c),
    ensures
        scan_string(t, i, acc) == scan_string(t, i + escape_char(c).len(), acc.push(c)),
{
    let e = escape_char(c);
    assert(t[i] == e[0]);
    if e.len() == 2 {
        assert(t[i + 1] == e[1]);
        assert(escape_len(t, i) == 2);
    } else if e.len() == 6 {
        assert(t[i + 1] == e[1]);
        assert(t[i + 2] == e[2]);
        assert(t[i + 3] == e[3]);
        assert(t[i + 4] == e[4]);
        assert(t[i + 5] == e[5]);
        let x = c as int;
        lemma_hex_digit(x / 16);
        lemma_hex_digit(x % 16);
        assert(hex4_at(t, i + 2) == x);
        assert(escape_len(t, i) == 6);
        vstd::utf8::char_u32_cast(c, c as u32);
        assert(escaped_char(t, i) == c);
    }
}

/// The escaped form of a name, closed by a quote, is read back as that name.
proof fn lemma_scan_escaped(t: Seq<char>, i: int, acc: Seq<char>, s: Seq<char>)
    requires
        0 <= i,
        i + escape_str(s).len() < t.len(),
        t.subrange(i, i + escape_str(s).len()) == escape_str(s),
        t[i + escape_str(s).len()] == '"',
    ensures
        scan_string(t, i, acc) == Some((acc + s, i + escape_str(s).len() + 1)),
    decreases s.len(),
{
    if s.len() == 0 {
        assert(acc + s =~= acc);
    } else {
        let c = s[0];
        let rest = s.drop_first();
        let e = escape_char(c);
        let er = escape_str(rest);
        let w = e.len() as int;
        let all = escape_str(s);
        assert(all == e + er);
        assert(all.subrange(0, w) =~= e);
        assert(all.subrange(w, all.len() as int) =~= er);
        assert(t.subrange(i, i + w) =~= t.subrange(i, i + all.len()).subrange(0, w));
        lemma_scan_one(t, i, acc, c);
        assert(t.subrange(i + w, i + w + er.len()) =~= t.subrange(i, i + all.len()).subrange(
            w,
            all.len() as int,
        ));
        lemma_scan_escaped(t, i + w, acc.push(c), rest);
        assert(acc.push(c) + rest =~= acc + s);
    }
}

/// Characters that stand for themselves in a string literal, closed by a
/// quote, are read back as they are.
proof fn lemma_scan_plain(t: Seq<char>, i: int, acc: Seq<char>, k: int)
    requires
        0 <= i,
        0 <= k,
        i + k < t.len(),
        forall|j: int|
            i <= j < i + k ==> #[trigger] t[j] != '"' && t[j] != '\\' && (t[j] as u32) >= 0x20,
        t[i + k] == '"',
    ensures
        scan_string(t, i, acc) == Some((acc + t.subrange(i, i + k), i + k + 1)),
    decreases k,
{
    if k == 0 {
        assert(acc + t.subrange(i, i) =~= acc);
    } else {
        assert(t[i] != '"' && t[i] != '\\' && (t[i] as u32) >= 0x20);
        lemma_scan_plain(t, i + 1, acc.push(t[i]), k - 1);
        assert(acc.push(t[i]) + t.subrange(i + 1, i + k) =~= acc + t.subrange(i, i + k));
    }
}

/// Every character of a run of decimal digits is a digit, and the run has the
/// value written.
proof fn lemma_digit_run(t: Seq<char>, s: int, m: nat)
    requires
        0 <= s,
        s + decimal_digits(m).len() <= t.len(),
        t.subrange(s, s + decimal_digits(m).len()) == decimal_digits(m),
    ensures
        forall|k: int| s <= k < s + decimal_digits(m).len() ==> #[trigger] is_digit(t[k]),
        digits_value(t, s, s + decimal_digits(m).len()) == m,
        decimal_digits(m).len() >= 1,
        t[s] == '0' ==> m == 0,
        m == 0 ==> decimal_digits(m).len() == 1,
    decreases m,
{
    let j = s + decimal_digits(m).len();
    if m < 10 {
        assert(t[s] == t.subrange(s, j)[0]);
        assert(digits_value(t, s, s) == 0);
    } else {
        let p = decimal_digits(m / 10);
        let all = decimal_digits(m);
        assert(all == p.push(digit_char(m as int % 10)));
        assert(all.subrange(0, p.len() as int) =~= p);
        assert(t.subrange(s, s + p.len()) =~= t.subrange(s, j).subrange(0, p.len() as int));
        lemma_digit_run(t, s, m / 10);
        assert(t[j - 1] == t.subrange(s, j)[p.len() as int]);
        assert(t[s] == t.subrange(s, j)[0]);
        assert(t[s] == p[0]);
        assert forall|k: int| s <= k < j implies #[trigger] is_digit(t[k]) by {
            if k < j - 1 {
                assert(is_digit(t[k]));
            }
        }
    }
}

proof fn lemma_digits_end(t: Seq<char>, s: int, e: int)
    requires
        0 <= s <= e <= t.len(),
        forall|k: int| s <= k < e ==> #[trigger] is_digit(t[k]),
        e == t.len() || !is_digit(t[e]),
    ensures
        digits_end(t, s) == e,
    decreases e - s,
{
    if s < e {
        lemma_digits_end(t, s + 1, e);
    }
}

/// A written integer, followed by a character that is not a digit, is read
/// back as that integer.
proof fn lemma_parse_decimal(t: Seq<char>, i: int, v: int)
    requires
        0 <= i,
        i32::MIN <= v <= i32::MAX,
        i + decimal(v).len() < t.len(),
        t.subrange(i, i + decimal(v).len()) == decimal(v),
        !is_digit(t[i + decimal(v).len()]),
    ensures
        parse_int(t, i) == Some((v, i + decimal(v).len())),
{
    let end = i + decimal(v).len();
    if v < 0 {
        let m = (-v) as nat;
        assert(t[i] == t.subrange(i, end)[0]);
        assert(decimal(v).subrange(1, decimal(v).len() as int) =~= decimal_digits(m));
        assert(t.subrange(i + 1, end) =~= t.subrange(i, end).subrange(1, decimal(v).len() as int));
        lemma_digit_run(t, i + 1, m);
        lemma_digits_end(t, i + 1, end);
    } else {
        let m = v as nat;
        lemma_digit_run(t, i, m);
        assert(is_digit(t[i]));
        assert(!char_at(t, i, '-'));
        lemma_digits_end(t, i, end);
    }
}

/// Where the saved text's parts stand.
proof fn lemma_layout(name: Seq<char>, value: int)
    ensures
        ({
            let t = record_text(name, value);
            let q = json_quote(name);
            let d = decimal(value);
            let p: int = 12 + q.len() as int;
            let r: int = p + 13 + d.len() as int;
            &&& t.len() == r + 2
            &&& forall|k: int| 0 <= k < 12 ==> #[trigger] t[k] == text_open()[k]
            &&& t.subrange(12, p) == q
            &&& forall|k: int| 0 <= k < 13 ==> #[trigger] t[p + k] == text_middle()[k]
            &&& t.subrange(p + 13, r) == d
            &&& t[r] == '\n'
            &&& t[r + 1] == '}'
        }),
{
    let q = json_quote(name);
    let d = decimal(value);
    let p: int = 12 + q.len() as int;
    let r: int = p + 13 + d.len() as int;
    let a = text_open() + q;
    let b = a + text_middle();
    let c = b + d;
    let t = c + text_close();
    assert(t == record_text(name, value));
    assert forall|k: int| 0 <= k < 12 implies #[trigger] t[k] == text_open()[k] by {
        assert(t[k] == c[k] && c[k] == b[k] && b[k] == a[k]);
    }
    assert(t.subrange(12, p) =~= q);
    assert forall|k: int| 0 <= k < 13 implies #[trigger] t[p + k] == text_middle()[k] by {
        assert(t[p + k] == c[p + k] && c[p + k] == b[p + k]);
    }
    assert(t.subrange(p + 13, r) =~= d);
}

/// The text that saving writes is read back as the record saved.
#[verifier::rlimit(50)]
pub proof fn lemma_round_trip(name: Seq<char>, value: int)
    requires
        i32::MIN <= value <= i32::MAX,
    ensures
        parse_record_text(record_text(name, value)) == Some((name, value)),
{
    let t = record_text(name, value);
    let q = json_quote(name);
    let es = escape_str(name);
    let n: int = es.len() as int;
    let d = decimal(value);
    let p: int = 12 + q.len() as int;
    let r: int = p + 13 + d.len() as int;
    lemma_layout(name, value);
    assert(t[0] == '{' && t[1] == '\n' && t[2] == ' ' && t[3] == ' ' && t[4] == '"');
    assert(t[5] == 'n' && t[6] == 'a' && t[7] == 'm' && t[8] == 'e' && t[9] == '"');
    assert(t[10] == ':' && t[11] == ' ');
    assert(t[p] == ',' && t[p + 1] == '\n' && t[p + 2] == ' ' && t[p + 3] == ' ');
    assert(t[p + 4] == '"' && t[p + 5] == 'v' && t[p + 6] == 'a' && t[p + 7] == 'l');
    assert(t[p + 8] == 'u' && t[p + 9] == 'e' && t[p + 10] == '"');
    assert(t[p + 11] == ':' && t[p + 12] == ' ');
    // the opening brace and the `name` key
    assert(skip_ws(t, 0) == 0);
    assert(skip_ws(t, 4) == 4);
    assert(skip_ws(t, 3) == 4);
    assert(skip_ws(t, 2) == 4);
    assert(skip_ws(t, 1) == 4);
    lemma_scan_plain(t, 5, seq![], 4);
    assert(seq![] + t.subrange(5, 9) =~= name_key());
    assert(skip_ws(t, 10) == 10);
    assert(skip_ws(t, 12) == 12);
    assert(skip_ws(t, 11) == 12);
    // the name
    assert(t[12] == '"') by {
        assert(t.subrange(12, p)[0] == t[12]);
    }
    assert(q.subrange(1, 1 + n) =~= es);
    assert(t.subrange(13, 13 + n) =~= t.subrange(12, p).subrange(1, 1 + n));
    assert(t[13 + n] == '"') by {
        assert(t.subrange(12, p)[1 + n] == t[13 + n]);
    }
    lemma_scan_escaped(t, 13, seq![], name);
    assert(seq![] + name =~= name);
    assert(parse_string(t, 12) == Some((name, p)));
    assert(parse_member(t, 4) == Some((Member::Name(name), p)));
    // the comma and the `value` key
    assert(skip_ws(t, p) == p);
    assert(skip_ws(t, p + 4) == p + 4);
    assert(skip_ws(t, p + 3) == p + 4);
    assert(skip_ws(t, p + 2) == p + 4);
    assert(skip_ws(t, p + 1) == p + 4);
    lemma_scan_plain(t, p + 5, seq![], 5);
    assert(seq![] + t.subrange(p + 5, p + 10) =~= value_key());
    assert(skip_ws(t, p + 11) == p + 11);
    // the value
    assert(t[p + 13] == d[0]) by {
        assert(t.subrange(p + 13, r)[0] == t[p + 13]);
    }
    assert(d[0] == '-' || is_digit(d[0])) by {
        if value >= 0 {
            lemma_digit_run(t, p + 13, value as nat);
        }
    }
    assert(skip_ws(t, p + 13) == p + 13);
    assert(skip_ws(t, p + 12) == p + 13);
    lemma_parse_decimal(t, p + 13, value);
    assert(parse_member(t, p + 4) == Some((Member::Value(value), r)));
    // the closing brace
    assert(skip_ws(t, r + 2) == r + 2);
    assert(skip_ws(t, r + 1) == r + 1);
    assert(skip_ws(t, r) == r + 1);
    let done: Result<(Seq<char>, int), (DecodeKind, int)> = Ok((name, value));
    assert(read_members(t, p + 1, Some(name), None) == done);
    assert(read_members(t, 1, None, None) == done);
}

/// Saving a record writes text that depends on the record alone: two saves
/// of equal records write the same text.
pub proof fn lemma_save_deterministic(name_a: Seq<char>, value_a: int, name_b: Seq<char>, value_b: int)
    requires
        name_a == name_b,
        value_a == value_b,
    ensures
        record_text(name_a, value_a) == record_text(name_b, value_b),
{
}

/// Saving one record and then another at the same path leaves the second,
/// and only it, to be loaded from there.
pub proof fn lemma_overwrite(
    files: Files,
    path: Seq<char>,
    name_a: Seq<char>,
    value_a: int,
    name_b: Seq<char>,
    value_b: int,
)
    requires
        i32::MIN <= value_a <= i32::MAX,
        i32::MIN <= value_b <= i32::MAX,
    ensures
        after_save(after_save(files, path, name_a, value_a), path, name_b, value_b)[path]
            == record_text(name_b, value_b),
        load_of(after_save(after_save(files, path, name_a, value_a), path, name_b, value_b), path)
            == Some((name_b, value_b)),
{
    lemma_round_trip(name_b, value_b);
}

/// A record saved at a path is loaded back from it unchanged.
pub proof fn lemma_save_then_load(files: Files, path: Seq<char>, name: Seq<char>, value: int)
    requires
        i32::MIN <= value <= i32::MAX,
    ensures
        load_of(after_save(files, path, name, value), path) == Some((name, value)),
{
    lemma_round_trip(name, value);
}

} // verus!
