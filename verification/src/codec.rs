//! JSON text: reading it into a value and printing a value, by serde_json.

use crate::json::{Json, Tree};
use crate::text::{own, text_from_utf8};
use vstd::utf8::{
    decode_utf8, encode_utf8, encode_utf8_decode_utf8, encode_utf8_valid_utf8, valid_utf8,
};
use vstd::prelude::*;

verus! {

/// A finite double-precision number, kept as the shortest decimal text that
/// stands for it. The reader alone makes one.
pub struct Float {
    digits: String,
}

impl View for Float {
    type V = Seq<char>;

    closed spec fn view(&self) -> Seq<char> {
        self.digits@
    }
}

impl Float {
    /// The text of the number.
    pub fn text(&self) -> (r: &str)
        ensures
            r@ == self@,
    {
        self.digits.as_str()
    }

    /// The same number.
    pub fn copy(&self) -> (r: Float)
        ensures
            r@ == self@,
    {
        Float { digits: own(self.digits.as_str()) }
    }
}

/// serde_json's own value, which stands only between a conversion and the
/// call that makes or prints it.
#[verifier::external_type_specification]
#[verifier::external_body]
pub struct ExValue(serde_json::Value);

/// serde_json's own error.
#[verifier::external_type_specification]
#[verifier::external_body]
pub struct ExError(serde_json::Error);

/// What serde_json's own value holds.
pub uninterp spec fn value_tree(v: serde_json::Value) -> Tree;

/// The value that serde_json reads from a text, if it accepts it.
pub uninterp spec fn parsed(text: Seq<char>) -> Option<Tree>;

/// The text that serde_json prints for a value: compact, the keys of an
/// object in order.
pub uninterp spec fn printed(t: Tree) -> Seq<char>;

/// Whether a value has no fractional numbers, only integers from `i64::MIN`
/// to `u64::MAX`, and nests at most `depth` deep.
pub open spec fn exact(t: Tree, depth: nat) -> bool
    decreases t,
{
    match t {
        Tree::Int(n) => i64::MIN <= n <= u64::MAX,
        Tree::Float(_) => false,
        Tree::Array(s) => depth > 0 && forall|i: int|
            0 <= i < s.len() ==> exact(#[trigger] s[i], (depth - 1) as nat),
        Tree::Object(m) => depth > 0 && forall|k: Seq<char>|
            m.contains_key(k) ==> exact(#[trigger] m[k], (depth - 1) as nat),
        _ => true,
    }
}

/// How deep arrays and objects may nest in a text that serde_json reads.
pub const DEPTH: usize = 127;

/// `serde_json::from_str`: reads a whole text as one JSON value. What it
/// accepts and gives is a function of the text alone.
#[verifier::external_body]
fn read_value(text: &str) -> (r: Result<serde_json::Value, serde_json::Error>)
    ensures
        match r {
            Ok(v) => parsed(text@) == Some(value_tree(v)),
            Err(_) => parsed(text@) is None,
        },
{
    serde_json::from_str::<serde_json::Value>(text)
}

/// Takes serde_json's value apart, variant by variant.
#[verifier::external_body]
fn from_value(v: serde_json::Value) -> (r: Json)
    ensures
        r@ == value_tree(v),
{
    match v {
        serde_json::Value::Null => Json::Null,
        serde_json::Value::Bool(b) => Json::Bool(b),
        serde_json::Value::Number(n) => match (n.as_u64(), n.as_i64()) {
            (Some(u), _) => Json::Uint(u),
            (None, Some(i)) => Json::Int(i),
            (None, None) => Json::Float(Float { digits: n.to_string() }),
        },
        serde_json::Value::String(s) => Json::Str(s),
        serde_json::Value::Array(a) => Json::Array(a.into_iter().map(from_value).collect()),
        serde_json::Value::Object(o) => Json::Object(
            o.into_iter().map(|(k, w)| (k, from_value(w))).collect(),
        ),
    }
}

/// Makes serde_json's value, variant by variant.
#[verifier::external_body]
fn to_value(j: &Json) -> (r: serde_json::Value)
    ensures
        value_tree(r) == j@,
{
    match j {
        Json::Null => serde_json::Value::Null,
        Json::Bool(b) => serde_json::Value::Bool(*b),
        Json::Uint(n) => serde_json::Value::from(*n),
        Json::Int(n) => serde_json::Value::from(*n),
        Json::Float(f) => serde_json::Number::from_f64(f.digits.parse().unwrap()).into(),
        Json::Str(s) => serde_json::Value::String(s.clone()),
        Json::Array(a) => serde_json::Value::Array(a.iter().map(to_value).collect()),
        Json::Object(o) => serde_json::Value::Object(
            o.iter().map(|e| (e.0.clone(), to_value(&e.1))).collect(),
        ),
    }
}

/// `Value`'s `to_string`: the compact text of a value, a function of the value
/// alone. Where the value is `exact` to the depth that the reader follows,
/// reading the text gives the value back. Of fractional numbers nothing is
/// said there: the reader may be off in the last bit.
#[verifier::external_body]
fn write_value(v: &serde_json::Value) -> (r: String)
    ensures
        r@ == printed(value_tree(*v)),
        exact(value_tree(*v), DEPTH as nat) ==> parsed(r@) == Some(value_tree(*v)),
{
    v.to_string()
}

/// The text that serde_json prints for a value, with line breaks and
/// indentation.
pub uninterp spec fn pretty(t: Tree) -> Seq<char>;

/// `Value`'s `Display` in its alternate form: the text of a value with line
/// breaks and indentation, a function of the value alone.
#[verifier::external_body]
fn write_pretty(v: &serde_json::Value) -> (r: String)
    ensures
        r@ == pretty(value_tree(*v)),
{
    format!("{v:#}")
}

/// The text of a JSON value with line breaks and indentation.
pub fn pretty_text(j: &Json) -> (r: String)
    ensures
        r@ == pretty(j@),
{
    write_pretty(&to_value(j))
}

/// The JSON value that a text stands for, if it is JSON.
pub fn parse_json(text: &str) -> (r: Option<Json>)
    ensures
        match r {
            Some(j) => parsed(text@) == Some(j@),
            None => parsed(text@) is None,
        },
{
    match read_value(text) {
        Ok(v) => Some(from_value(v)),
        Err(_) => None,
    }
}

/// The compact text of a JSON value.
pub fn json_text(j: &Json) -> (r: String)
    ensures
        r@ == printed(j@),
        exact(j@, DEPTH as nat) ==> parsed(r@) == Some(j@),
{
    write_value(&to_value(j))
}

/// The JSON value that bytes stand for, if they are JSON in UTF-8.
pub open spec fn parsed_bytes(bytes: Seq<u8>) -> Option<Tree> {
    if valid_utf8(bytes) {
        parsed(decode_utf8(bytes))
    } else {
        None
    }
}

/// The JSON value that bytes stand for, if they are JSON in UTF-8.
pub fn parse_bytes(bytes: Vec<u8>) -> (r: Option<Json>)
    ensures
        match r {
            Some(j) => parsed_bytes(bytes@) == Some(j@),
            None => parsed_bytes(bytes@) is None,
        },
{
    match text_from_utf8(bytes) {
        Some(s) => parse_json(s.as_str()),
        None => None,
    }
}

/// The bytes of a JSON value's compact text.
pub fn json_bytes(j: &Json) -> (r: Vec<u8>)
    ensures
        r@ == encode_utf8(printed(j@)),
        exact(j@, DEPTH as nat) ==> parsed_bytes(r@) == Some(j@),
{
    let text: String = json_text(j);
    proof {
        encode_utf8_valid_utf8(text@);
        encode_utf8_decode_utf8(text@);
    }
    bytes_of(text.as_str())
}

/// The bytes of a text.
pub fn bytes_of(s: &str) -> (r: Vec<u8>)
    ensures
        r@ == encode_utf8(s@),
{
    let bytes: &[u8] = s.as_bytes();
    let mut out: Vec<u8> = Vec::new();
    let mut i: usize = 0;
    while i < bytes.len()
        invariant
            i <= bytes@.len(),
            out@ == bytes@.take(i as int),
        decreases bytes@.len() - i,
    {
        out.push(bytes[i]);
        proof {
            assert(out@ =~= bytes@.take(i + 1));
        }
        i = i + 1;
    }
    proof {
        assert(bytes@.take(i as int) =~= bytes@);
    }
    out
}

} // verus!
