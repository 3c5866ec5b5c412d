use vstd::prelude::*;
use crate::format::{
    decimal, decimal_digits, digit_char, json_quote, record_text, text_close, text_middle, text_open,
};
use crate::record::Record;

verus! {

/// serde_json's error type, the error side of `serde_json::to_string`.
#[verifier::external_type_specification]
#[verifier::external_body]
pub struct ExJsonError(serde_json::Error);

/// Relies on `serde_json::to_string` applied to a `str`: it writes a JSON
/// string literal, escaping by serde_json's escape table (quote, backslash and
/// the characters below U+0020, with `\b \t \n \f \r` where they apply and
/// `\u00xx` in lower-case hex otherwise) and copying every other character.
/// The output goes into a `Vec<u8>`, whose writes cannot fail.
#[verifier::external_body]
fn json_string_literal(s: &str) -> (r: Result<String, serde_json::Error>)
    ensures
        r.is_ok(),
        r matches Ok(q) ==> q@ == json_quote(s@),
{
    serde_json::to_string(s)
}

/// Appends the decimal digits of `n`.
pub(crate) fn push_digits(out: &mut String, n: u64)
    ensures
        final(out)@ == old(out)@ + decimal_digits(n as nat),
    decreases n,
{
    if n >= 10 {
        push_digits(out, n / 10);
    }
    let d = (n % 10) as u8;
    out.push((48u8 + d) as char);
    proof {
        assert(decimal_digits(n as nat) =~= if n < 10 {
            seq![digit_char(n as int)]
        } else {
            decimal_digits((n / 10) as nat).push(digit_char((n % 10) as int))
        });
    }
}

/// Appends `v` written as a JSON integer.
fn push_decimal(out: &mut String, v: i32)
    ensures
        final(out)@ == old(out)@ + decimal(v as int),
{
    if v < 0 {
        out.push('-');
        let m: u32 = if v == i32::MIN {
            2147483648u32
        } else {
            (-v) as u32
        };
        push_digits(out, m as u64);
        assert(out@ =~= old(out)@ + decimal(v as int));
    } else {
        push_digits(out, v as u64);
    }
}

/// Writes a record as the text of its file: pretty-printed JSON with the
/// members `name` and `value`.
pub fn encode_record(r: &Record) -> (t: String)
    ensures
        t@ == record_text(r.name@, r.value as int),
{
    let q = match json_string_literal(r.name.as_str()) {
        Ok(q) => q,
        Err(_) => String::new(),
    };
    let mut t = String::from_str("{\n  \"name\": ");
    t.append(q.as_str());
    t.append(",\n  \"value\": ");
    push_decimal(&mut t, r.value);
    t.append("\n}");
    proof {
        reveal_strlit("{\n  \"name\": ");
        reveal_strlit(",\n  \"value\": ");
        reveal_strlit("\n}");
        assert("{\n  \"name\": "@ =~= text_open());
        assert(",\n  \"value\": "@ =~= text_middle());
        assert("\n}"@ =~= text_close());
    }
    t
}

} // verus!
