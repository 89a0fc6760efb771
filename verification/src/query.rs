//! Turning a textual term value into a typed engine term, driven by the
//! field's declared type.  Integer and boolean values are parsed here, with
//! the parse specified exactly; floats, dates and base64 bytes go through
//! the engine boundary.

use vstd::prelude::*;

use crate::engine;
use crate::error::{value_parsing_err, Error};

verus! {

/// The declared type of a schema field, as the engine encodes it in a
/// one-byte code.
#[derive(Clone, Copy, Debug, PartialEq, Eq, Structural)]
pub enum FieldKind {
    Text,
    U64,
    I64,
    F64,
    Bool,
    Date,
    Facet,
    Bytes,
    Json,
    IpAddr,
}

/// The field kind named by the engine's one-byte type code.
pub open spec fn spec_kind_of_code(code: u8) -> Option<FieldKind> {
    match code {
        115u8 => Some(FieldKind::Text),
        117u8 => Some(FieldKind::U64),
        105u8 => Some(FieldKind::I64),
        102u8 => Some(FieldKind::F64),
        111u8 => Some(FieldKind::Bool),
        100u8 => Some(FieldKind::Date),
        104u8 => Some(FieldKind::Facet),
        98u8 => Some(FieldKind::Bytes),
        106u8 => Some(FieldKind::Json),
        112u8 => Some(FieldKind::IpAddr),
        _ => None,
    }
}

/// Decodes the engine's one-byte type code (the ASCII letters `s`, `u`, `i`,
/// `f`, `o`, `d`, `h`, `b`, `j`, `p`).
pub fn kind_of_code(code: u8) -> (r: Option<FieldKind>)
    ensures
        r == spec_kind_of_code(code),
{
    match code {
        115u8 => Some(FieldKind::Text),
        117u8 => Some(FieldKind::U64),
        105u8 => Some(FieldKind::I64),
        102u8 => Some(FieldKind::F64),
        111u8 => Some(FieldKind::Bool),
        100u8 => Some(FieldKind::Date),
        104u8 => Some(FieldKind::Facet),
        98u8 => Some(FieldKind::Bytes),
        106u8 => Some(FieldKind::Json),
        112u8 => Some(FieldKind::IpAddr),
        _ => None,
    }
}

/// An ASCII decimal digit, by code point.
pub open spec fn is_digit(c: char) -> bool {
    48 <= c as int <= 57
}

pub open spec fn digit_val(c: char) -> int {
    c as int - 48
}

pub open spec fn all_digits(s: Seq<char>) -> bool {
    forall|i: int| 0 <= i < s.len() ==> is_digit(#[trigger] s[i])
}

/// The number denoted by a digit string, most significant first.
pub open spec fn digits_val(s: Seq<char>) -> int
    decreases s.len(),
{
    if s.len() == 0 {
        0
    } else {
        digits_val(s.drop_last()) * 10 + digit_val(s.last())
    }
}

proof fn lemma_digits_val_nonneg(s: Seq<char>)
    requires
        all_digits(s),
    ensures
        digits_val(s) >= 0,
    decreases s.len(),
{
    if s.len() > 0 {
        lemma_digits_val_nonneg(s.drop_last());
        let a = digits_val(s.drop_last());
        let d = digit_val(s.last());
        assert(a * 10 + d >= 0) by (nonlinear_arith)
            requires
                a >= 0,
                d >= 0,
        ;
    }
}

/// A digit string is at least as large as any of its prefixes.
proof fn lemma_digits_val_prefix_le(s: Seq<char>, i: int)
    requires
        all_digits(s),
        0 <= i <= s.len(),
    ensures
        digits_val(s.take(i)) <= digits_val(s),
    decreases s.len() - i,
{
    if i == s.len() {
        assert(s.take(i) =~= s);
    } else {
        assert(s.take(i + 1).drop_last() =~= s.take(i));
        assert(all_digits(s.take(i + 1)));
        let a = digits_val(s.take(i));
        let d = digit_val(s.take(i + 1).last());
        assert(a >= 0) by {
            assert(all_digits(s.take(i)));
            lemma_digits_val_nonneg(s.take(i));
        }
        assert(a <= a * 10 + d) by (nonlinear_arith)
            requires
                a >= 0,
                d >= 0,
        ;
        lemma_digits_val_prefix_le(s, i + 1);
    }
}

/// The digits of `v` after position `start`, as a bounded number.
fn parse_digits(v: &str, start: usize) -> (r: Option<u64>)
    requires
        start <= v@.len(),
    ensures
        ({
            let ds = v@.skip(start as int);
            match r {
                Some(x) => ds.len() > 0 && all_digits(ds) && x == digits_val(ds),
                None => !(ds.len() > 0 && all_digits(ds) && digits_val(ds) <= u64::MAX),
            }
        }),
{
    let len = v.unicode_len();
    let ghost ds = v@.skip(start as int);
    if start >= len {
        proof {
            assert(ds.len() == 0);
        }
        return None;
    }
    let mut acc: u64 = 0;
    let mut i: usize = start;
    while i < len
        invariant
            start <= i <= len,
            len == v@.len(),
            ds == v@.skip(start as int),
            all_digits(ds.take(i - start)),
            acc == digits_val(ds.take(i - start)),
        decreases len - i,
    {
        let ghost pre = ds.take(i - start);
        let ghost cur = ds.take(i - start + 1);
        proof {
            assert(cur.drop_last() =~= pre);
            assert(cur.last() == ds[i - start]);
            assert(ds[i - start] == v@[i as int]);
        }
        let c = v.get_char(i);
        let cu = c as u32;
        if cu < 48 || cu > 57 {
            proof {
                assert(!is_digit(ds[i - start]));
                assert(!all_digits(ds));
            }
            return None;
        }
        let d: u64 = (cu - 48) as u64;
        let shifted = match acc.checked_mul(10) {
            Some(s10) => s10,
            None => {
                proof {
                    digits_overflow(ds, i - start, acc as int * 10);
                }
                return None;
            },
        };
        let next = match shifted.checked_add(d) {
            Some(n) => n,
            None => {
                proof {
                    digits_overflow(ds, i - start, acc as int * 10 + d as int);
                }
                return None;
            },
        };
        acc = next;
        i = i + 1;
    }
    proof {
        assert(ds.take(len - start) =~= ds);
    }
    Some(acc)
}

/// If already the prefix through position `i` exceeds `u64::MAX`, no digit
/// string extending it fits either.
proof fn digits_overflow(ds: Seq<char>, i: int, val: int)
    requires
        0 <= i < ds.len(),
        all_digits(ds.take(i)),
        is_digit(ds[i]),
        val > u64::MAX,
        val <= digits_val(ds.take(i)) * 10 + digit_val(ds[i]),
    ensures
        !(all_digits(ds) && digits_val(ds) <= u64::MAX),
{
    if all_digits(ds) {
        assert(ds.take(i + 1).drop_last() =~= ds.take(i));
        assert(ds.take(i + 1).last() == ds[i]);
        assert(digits_val(ds.take(i + 1)) == digits_val(ds.take(i)) * 10 + digit_val(ds[i]));
        lemma_digits_val_prefix_le(ds, i + 1);
    }
}

/// The `u64` denoted by the text: an optional `+`, then only digits, in
/// range.
pub open spec fn u64_text(s: Seq<char>) -> Option<u64> {
    let ds = if s.len() > 0 && s[0] == '+' {
        s.skip(1)
    } else {
        s
    };
    if ds.len() > 0 && all_digits(ds) && digits_val(ds) <= u64::MAX {
        Some(digits_val(ds) as u64)
    } else {
        None
    }
}

pub fn parse_u64(v: &str) -> (r: Option<u64>)
    ensures
        r == u64_text(v@),
{
    let len = v.unicode_len();
    let start: usize = if len > 0 && v.get_char(0) == '+' {
        1
    } else {
        0
    };
    proof {
        if start == 1 {
            assert(v@.skip(1) == (if v@.len() > 0 && v@[0] == '+' {
                v@.skip(1)
            } else {
                v@
            }));
        } else {
            assert(v@.skip(0) =~= v@);
        }
    }
    parse_digits(v, start)
}

/// The `i64` denoted by the text: an optional sign, then only digits, in
/// range.
pub open spec fn i64_text(s: Seq<char>) -> Option<i64> {
    if s.len() > 0 && s[0] == '-' {
        let ds = s.skip(1);
        if ds.len() > 0 && all_digits(ds) && digits_val(ds) <= 0x8000000000000000 {
            Some((-digits_val(ds)) as i64)
        } else {
            None
        }
    } else {
        let ds = if s.len() > 0 && s[0] == '+' {
            s.skip(1)
        } else {
            s
        };
        if ds.len() > 0 && all_digits(ds) && digits_val(ds) <= i64::MAX {
            Some(digits_val(ds) as i64)
        } else {
            None
        }
    }
}

pub fn parse_i64(v: &str) -> (r: Option<i64>)
    ensures
        r == i64_text(v@),
{
    let len = v.unicode_len();
    if len > 0 && v.get_char(0) == '-' {
        match parse_digits(v, 1) {
            Some(mag) => {
                if mag <= 9_223_372_036_854_775_807u64 {
                    Some(-(mag as i64))
                } else if mag == 9_223_372_036_854_775_808u64 {
                    Some(i64::MIN)
                } else {
                    None
                }
            },
            None => None,
        }
    } else {
        let start: usize = if len > 0 && v.get_char(0) == '+' {
            1
        } else {
            0
        };
        proof {
            if start == 0 {
                assert(v@.skip(0) =~= v@);
            }
        }
        match parse_digits(v, start) {
            Some(x) => {
                if x <= 9_223_372_036_854_775_807u64 {
                    Some(x as i64)
                } else {
                    None
                }
            },
            None => None,
        }
    }
}

/// The boolean denoted by the text: exactly `true` or `false`.
pub open spec fn bool_text(s: Seq<char>) -> Option<bool> {
    if s == "true"@ {
        Some(true)
    } else if s == "false"@ {
        Some(false)
    } else {
        None
    }
}

pub fn parse_bool(v: &str) -> (r: Option<bool>)
    ensures
        r == bool_text(v@),
{
    let sv = String::from_str(v);
    if sv == String::from_str("true") {
        Some(true)
    } else if sv == String::from_str("false") {
        Some(false)
    } else {
        None
    }
}

/// The textual term value is convertible to the field's declared type.
pub open spec fn term_value_ok(kind: FieldKind, s: Seq<char>) -> bool {
    match kind {
        FieldKind::Text => true,
        FieldKind::U64 => u64_text(s) is Some,
        FieldKind::I64 => i64_text(s) is Some,
        FieldKind::F64 => engine::f64_parses(s),
        FieldKind::Bool => bool_text(s) is Some,
        FieldKind::Date => engine::rfc3339_secs_of(s) matches Some(t) && -9_223_372_036 <= t
            <= 9_223_372_036,
        FieldKind::Bytes => engine::base64_decode_of(s) is Some,
        FieldKind::Facet => false,
        FieldKind::Json => false,
        FieldKind::IpAddr => false,
    }
}

/// Converts a textual value into a typed engine term for a field of the
/// given kind.  Succeeds exactly when the text is convertible; facet, JSON
/// and IP fields are not supported as deletion keys.
pub fn make_term(field: tantivy::schema::Field, kind: FieldKind, value: &String) -> (r: Result<
    tantivy::schema::Term,
    Error,
>)
    ensures
        r is Ok <==> term_value_ok(kind, value@),
        r matches Err(e) ==> e is ValueParse,
{
    match kind {
        FieldKind::Text => Ok(engine::term_text(field, value)),
        FieldKind::U64 => match parse_u64(value.as_str()) {
            Some(x) => Ok(engine::term_u64(field, x)),
            None => Err(value_parsing_err(String::from_str("not an unsigned integer"))),
        },
        FieldKind::I64 => match parse_i64(value.as_str()) {
            Some(x) => Ok(engine::term_i64(field, x)),
            None => Err(value_parsing_err(String::from_str("not a signed integer"))),
        },
        FieldKind::F64 => match engine::term_f64_parse(field, value) {
            Some(t) => Ok(t),
            None => Err(value_parsing_err(String::from_str("not a number"))),
        },
        FieldKind::Bool => match parse_bool(value.as_str()) {
            Some(x) => Ok(engine::term_bool(field, x)),
            None => Err(value_parsing_err(String::from_str("not a boolean"))),
        },
        FieldKind::Date => match engine::parse_rfc3339_secs(value) {
            Some(t) => {
                if -9_223_372_036i64 <= t && t <= 9_223_372_036i64 {
                    Ok(engine::term_date(field, t))
                } else {
                    Err(value_parsing_err(String::from_str("date out of range")))
                }
            },
            None => Err(value_parsing_err(String::from_str("not an RFC 3339 date"))),
        },
        FieldKind::Bytes => match engine::base64_decode(value) {
            Some(bytes) => Ok(engine::term_bytes(field, &bytes)),
            None => Err(value_parsing_err(String::from_str("not base64"))),
        },
        FieldKind::Facet => Err(
            value_parsing_err(String::from_str("facet fields are not supported here")),
        ),
        FieldKind::Json => Err(
            value_parsing_err(String::from_str("json fields are not supported here")),
        ),
        FieldKind::IpAddr => Err(
            value_parsing_err(String::from_str("ip fields are not supported here")),
        ),
    }
}

} // verus!
