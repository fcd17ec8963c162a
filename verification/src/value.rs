//! The structured values that the encoder walks, and the literal model that
//! turns a scalar value into exactly one RDF literal.
//!
//! Byte sequences are rendered as lowercase hexadecimal text with the
//! `xsd:hexBinary` datatype; this choice is fixed here since no round-trip
//! decoder is in scope.

use vstd::prelude::*;
use vstd::string::StrSliceExecFns;

use crate::triple::{
    xsd_boolean_iri, xsd_boolean_iri_string, xsd_hex_binary_iri, xsd_hex_binary_iri_string,
    xsd_integer_iri, xsd_integer_iri_string, xsd_string_iri, xsd_string_iri_string, LiteralV,
    Literal,
};

verus! {

/// A structured value: the polymorphic input tree of the encoder.
#[derive(Debug)]
pub enum Value {
    /// A boolean scalar.
    Bool(bool),
    /// A signed integer scalar.
    Int(i64),
    /// An unsigned integer scalar.
    UInt(u64),
    /// A character scalar.
    Char(char),
    /// A string scalar.
    Str(String),
    /// A byte-sequence scalar.
    Bytes(Vec<u8>),
    /// An absent value; fields holding it are omitted, not emitted as empty
    /// literals.
    Unit,
    /// An ordered list of structured values.
    Sequence(Vec<Value>),
    /// Multilingual text: language code to text, a fixed two-level case.
    LangText(Vec<(String, String)>),
    /// A named record type with an ordered list of fields.
    Record(String, Vec<(String, Value)>),
    /// A named case of a sum type, carrying zero, one, or many values.
    Variant(String, Vec<Value>),
}

/// Whether a value is a scalar in the sense of the literal model.
pub open spec fn is_scalar(v: Value) -> bool {
    match v {
        Value::Bool(_) => true,
        Value::Int(_) => true,
        Value::UInt(_) => true,
        Value::Char(_) => true,
        Value::Str(_) => true,
        Value::Bytes(_) => true,
        Value::Unit => true,
        _ => false,
    }
}

/// Whether a value produces literals when it stands in a mapped field: a
/// scalar or a multilingual text.
pub open spec fn is_literalish(v: Value) -> bool {
    is_scalar(v) || v matches Value::LangText(_)
}

/// The character for one digit below sixteen, lowercase.
pub open spec fn digit_char(d: nat) -> char
    recommends
        d < 16,
{
    if d == 0 {
        '0'
    } else if d == 1 {
        '1'
    } else if d == 2 {
        '2'
    } else if d == 3 {
        '3'
    } else if d == 4 {
        '4'
    } else if d == 5 {
        '5'
    } else if d == 6 {
        '6'
    } else if d == 7 {
        '7'
    } else if d == 8 {
        '8'
    } else if d == 9 {
        '9'
    } else if d == 10 {
        'a'
    } else if d == 11 {
        'b'
    } else if d == 12 {
        'c'
    } else if d == 13 {
        'd'
    } else if d == 14 {
        'e'
    } else {
        'f'
    }
}

/// The decimal text of a natural number, without leading zeros.
pub open spec fn spec_dec(n: nat) -> Seq<char>
    decreases n,
{
    if n < 10 {
        seq![digit_char(n)]
    } else {
        spec_dec(n / 10) + seq![digit_char(n % 10)]
    }
}

/// The decimal text of an integer: a minus sign for negative values, then the
/// decimal text of the magnitude.
pub open spec fn spec_int_dec(i: int) -> Seq<char> {
    if i < 0 {
        seq!['-'] + spec_dec((-i) as nat)
    } else {
        spec_dec(i as nat)
    }
}

/// The lowercase hexadecimal text of the bytes from index `i` on, two digits
/// per byte.
pub open spec fn spec_hex_from(bs: Seq<u8>, i: int) -> Seq<char>
    decreases bs.len() - i,
{
    if i < 0 || i >= bs.len() {
        Seq::empty()
    } else {
        seq![digit_char((bs[i] / 16) as nat), digit_char((bs[i] % 16) as nat)] + spec_hex_from(
            bs,
            i + 1,
        )
    }
}

/// The lowercase hexadecimal text of a byte sequence, two digits per byte.
pub open spec fn spec_hex(bs: Seq<u8>) -> Seq<char> {
    spec_hex_from(bs, 0)
}

/// The text of a boolean literal.
pub open spec fn spec_bool_text(b: bool) -> Seq<char> {
    if b {
        "true"@
    } else {
        "false"@
    }
}

/// The one literal a scalar value produces, or `None` for the absent value.
/// Non-scalar values also yield `None`; callers separate the two cases with
/// [`is_scalar`].
pub open spec fn spec_scalar_literal(v: Value) -> Option<LiteralV> {
    match v {
        Value::Bool(b) => Some(
            LiteralV::Typed { value: spec_bool_text(b), datatype: xsd_boolean_iri() },
        ),
        Value::Int(i) => Some(
            LiteralV::Typed { value: spec_int_dec(i as int), datatype: xsd_integer_iri() },
        ),
        Value::UInt(u) => Some(
            LiteralV::Typed { value: spec_dec(u as nat), datatype: xsd_integer_iri() },
        ),
        Value::Char(c) => Some(LiteralV::Typed { value: seq![c], datatype: xsd_string_iri() }),
        Value::Str(s) => Some(LiteralV::Typed { value: s@, datatype: xsd_string_iri() }),
        Value::Bytes(bs) => Some(
            LiteralV::Typed { value: spec_hex(bs@), datatype: xsd_hex_binary_iri() },
        ),
        _ => None,
    }
}

/// Whether a language code is in the accepted domain: exactly two lowercase
/// ASCII letters.
pub open spec fn valid_lang_code(code: Seq<char>) -> bool {
    code.len() == 2 && 97 <= code[0] as int <= 122 && 97 <= code[1] as int <= 122
}

fn digit_str(d: u64) -> (r: &'static str)
    requires
        d < 16,
    ensures
        r@ == seq![digit_char(d as nat)],
{
    if d == 0 {
        proof {
            reveal_strlit("0");
        }
        assert("0"@ =~= seq![digit_char(0)]);
        "0"
    } else if d == 1 {
        proof {
            reveal_strlit("1");
        }
        assert("1"@ =~= seq![digit_char(1)]);
        "1"
    } else if d == 2 {
        proof {
            reveal_strlit("2");
        }
        assert("2"@ =~= seq![digit_char(2)]);
        "2"
    } else if d == 3 {
        proof {
            reveal_strlit("3");
        }
        assert("3"@ =~= seq![digit_char(3)]);
        "3"
    } else if d == 4 {
        proof {
            reveal_strlit("4");
        }
        assert("4"@ =~= seq![digit_char(4)]);
        "4"
    } else if d == 5 {
        proof {
            reveal_strlit("5");
        }
        assert("5"@ =~= seq![digit_char(5)]);
        "5"
    } else if d == 6 {
        proof {
            reveal_strlit("6");
        }
        assert("6"@ =~= seq![digit_char(6)]);
        "6"
    } else if d == 7 {
        proof {
            reveal_strlit("7");
        }
        assert("7"@ =~= seq![digit_char(7)]);
        "7"
    } else if d == 8 {
        proof {
            reveal_strlit("8");
        }
        assert("8"@ =~= seq![digit_char(8)]);
        "8"
    } else if d == 9 {
        proof {
            reveal_strlit("9");
        }
        assert("9"@ =~= seq![digit_char(9)]);
        "9"
    } else if d == 10 {
        proof {
            reveal_strlit("a");
        }
        assert("a"@ =~= seq![digit_char(10)]);
        "a"
    } else if d == 11 {
        proof {
            reveal_strlit("b");
        }
        assert("b"@ =~= seq![digit_char(11)]);
        "b"
    } else if d == 12 {
        proof {
            reveal_strlit("c");
        }
        assert("c"@ =~= seq![digit_char(12)]);
        "c"
    } else if d == 13 {
        proof {
            reveal_strlit("d");
        }
        assert("d"@ =~= seq![digit_char(13)]);
        "d"
    } else if d == 14 {
        proof {
            reveal_strlit("e");
        }
        assert("e"@ =~= seq![digit_char(14)]);
        "e"
    } else {
        proof {
            reveal_strlit("f");
        }
        assert("f"@ =~= seq![digit_char(15)]);
        "f"
    }
}

/// Render an unsigned integer as decimal text.
pub fn u64_to_dec(n: u64) -> (r: String)
    ensures
        r@ == spec_dec(n as nat),
    decreases n,
{
    if n < 10 {
        let r = digit_str(n).to_owned();
        assert(r@ =~= spec_dec(n as nat));
        r
    } else {
        assert(n / 10 < n && n / 10 >= 1) by (nonlinear_arith)
            requires
                n >= 10,
        ;
        let mut s = u64_to_dec(n / 10);
        s.append(digit_str(n % 10));
        assert(s@ =~= spec_dec(n as nat));
        s
    }
}

/// Render a signed integer as decimal text.
pub fn i64_to_dec(i: i64) -> (r: String)
    ensures
        r@ == spec_int_dec(i as int),
{
    if i >= 0 {
        u64_to_dec(i as u64)
    } else {
        let mag: u64 = ((-(i + 1)) as u64) + 1;
        assert(mag as int == -(i as int));
        let mut s = "-".to_owned();
        s.append(u64_to_dec(mag).as_str());
        proof {
            reveal_strlit("-");
        }
        assert(s@ =~= spec_int_dec(i as int));
        s
    }
}

fn hex_from(bs: &Vec<u8>, i: usize) -> (r: String)
    requires
        i <= bs@.len(),
    ensures
        r@ == spec_hex_from(bs@, i as int),
    decreases bs@.len() - i,
{
    if i >= bs.len() {
        let r = String::new();
        assert(r@ =~= spec_hex_from(bs@, i as int));
        r
    } else {
        let b = bs[i];
        let mut s = digit_str((b / 16) as u64).to_owned();
        s.append(digit_str((b % 16) as u64));
        s.append(hex_from(bs, i + 1).as_str());
        assert(s@ =~= spec_hex_from(bs@, i as int));
        s
    }
}

/// Render a byte sequence as lowercase hexadecimal text, two digits per byte.
pub fn bytes_to_hex(bs: &Vec<u8>) -> (r: String)
    ensures
        r@ == spec_hex(bs@),
{
    hex_from(bs, 0)
}

fn bool_text(b: bool) -> (r: String)
    ensures
        r@ == spec_bool_text(b),
{
    if b {
        "true".to_owned()
    } else {
        "false".to_owned()
    }
}

/// Relies on `String::push`: appends exactly the given character to the end
/// of the string.
#[verifier::external_body]
fn push_char(s: &mut String, c: char)
    ensures
        final(s)@ == old(s)@ + seq![c],
{
    s.push(c)
}

/// Produce the one literal of a scalar value, or `None` for the absent value
/// and for non-scalar values.
pub fn scalar_literal(v: &Value) -> (r: Option<Literal>)
    ensures
        match r {
            Some(l) => spec_scalar_literal(*v) == Some(l@),
            None => spec_scalar_literal(*v) is None,
        },
{
    match v {
        Value::Bool(b) => Some(
            Literal::Typed { value: bool_text(*b), datatype: xsd_boolean_iri_string() },
        ),
        Value::Int(i) => Some(
            Literal::Typed { value: i64_to_dec(*i), datatype: xsd_integer_iri_string() },
        ),
        Value::UInt(u) => Some(
            Literal::Typed { value: u64_to_dec(*u), datatype: xsd_integer_iri_string() },
        ),
        Value::Char(c) => {
            let mut value = String::new();
            push_char(&mut value, *c);
            assert(value@ =~= seq![*c]);
            Some(Literal::Typed { value, datatype: xsd_string_iri_string() })
        },
        Value::Str(s) => Some(
            Literal::Typed { value: s.clone(), datatype: xsd_string_iri_string() },
        ),
        Value::Bytes(bs) => Some(
            Literal::Typed { value: bytes_to_hex(bs), datatype: xsd_hex_binary_iri_string() },
        ),
        _ => None,
    }
}

/// Check that a language code is exactly two lowercase ASCII letters.
pub fn check_lang_code(code: &String) -> (r: bool)
    ensures
        r == valid_lang_code(code@),
{
    let s = code.as_str();
    if s.unicode_len() != 2 {
        return false;
    }
    let c0 = s.get_char(0);
    let c1 = s.get_char(1);
    (c0 as u32) >= 97 && (c0 as u32) <= 122 && (c1 as u32) >= 97 && (c1 as u32) <= 122
}

/// The value of the first field from index `i` on whose name is `name`, if
/// any.
pub open spec fn spec_find_field_from(
    fields: Seq<(String, Value)>,
    name: Seq<char>,
    i: int,
) -> Option<Value>
    decreases fields.len() - i,
{
    if i < 0 || i >= fields.len() {
        None
    } else if fields[i].0@ == name {
        Some(fields[i].1)
    } else {
        spec_find_field_from(fields, name, i + 1)
    }
}

/// The value of the first field whose name is `name`, if any.
pub open spec fn spec_find_field(fields: Seq<(String, Value)>, name: Seq<char>) -> Option<Value> {
    spec_find_field_from(fields, name, 0)
}

fn find_field_from<'a>(fields: &'a Vec<(String, Value)>, name: &String, i: usize) -> (r: Option<
    &'a Value,
>)
    requires
        i <= fields@.len(),
    ensures
        match r {
            Some(v) => spec_find_field_from(fields@, name@, i as int) == Some(*v),
            None => spec_find_field_from(fields@, name@, i as int) is None,
        },
    decreases fields@.len() - i,
{
    if i >= fields.len() {
        None
    } else if fields[i].0 == *name {
        Some(&fields[i].1)
    } else {
        find_field_from(fields, name, i + 1)
    }
}

/// Locate the first field of a record with the given name.
pub fn find_field<'a>(fields: &'a Vec<(String, Value)>, name: &String) -> (r: Option<&'a Value>)
    ensures
        match r {
            Some(v) => spec_find_field(fields@, name@) == Some(*v),
            None => spec_find_field(fields@, name@) is None,
        },
{
    find_field_from(fields, name, 0)
}

} // verus!
