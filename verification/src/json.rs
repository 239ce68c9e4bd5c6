//! The boundary to the JSON parser. The pipeline's decoding logic never reads
//! a parser value directly: the trusted wrappers below parse a line, hand the
//! top-level object's entries out, and classify each entry value into the
//! library's own `FlatValue`, on which everything else is verified.

use vstd::prelude::*;

verus! {

/// Declares `serde_json::Value`, the parser's document type, so the
/// wrappers below can pass it through; it stays opaque to the proofs.
#[verifier::external_type_specification]
#[verifier::external_body]
pub struct ExJsonValue(serde_json::Value);

/// The library's classification of one JSON value: the shapes the pipeline
/// distinguishes, as plain values. A number carries the IEEE-754 bit pattern
/// of its floating-point reading in `bits`, its reading as an unsigned
/// integer in `as_uint` (absent when it is negative or fractional), and its
/// reading as a signed integer in `as_int` (absent when it is fractional or
/// above the signed range). `Composite` stands for an array or a nested
/// object, which the record model rejects.
pub enum FlatValue {
    Str(String),
    Bool(bool),
    Num { bits: u64, as_uint: Option<u64>, as_int: Option<i64> },
    Null,
    Composite,
}

/// Mathematical model of a `FlatValue`.
#[verifier::ext_equal]
pub ghost enum FlatModel {
    Str(Seq<char>),
    Bool(bool),
    Num { bits: u64, as_uint: Option<u64>, as_int: Option<i64> },
    Null,
    Composite,
}

impl View for FlatValue {
    type V = FlatModel;

    open spec fn view(&self) -> FlatModel {
        match self {
            FlatValue::Str(s) => FlatModel::Str(s@),
            FlatValue::Bool(b) => FlatModel::Bool(*b),
            FlatValue::Num { bits, as_uint, as_int } => FlatModel::Num {
                bits: *bits,
                as_uint: *as_uint,
                as_int: *as_int,
            },
            FlatValue::Null => FlatModel::Null,
            FlatValue::Composite => FlatModel::Composite,
        }
    }
}

impl DeepView for FlatValue {
    type V = FlatModel;

    open spec fn deep_view(&self) -> FlatModel {
        self.view()
    }
}

/// What the JSON parser returns for a line, as classified entries: the
/// parse is a function of the text alone, so its result carries this name.
/// The outer `None` is text that is not valid JSON; the inner `None` is a
/// document whose top level is not an object; otherwise the object's
/// entries, in the order the parser's map iterates them.
pub uninterp spec fn json_entries_of(s: Seq<char>) -> Option<
    Option<Seq<(Seq<char>, FlatModel)>>,
>;

/// Relies on `serde_json::from_str` and the variants of
/// `serde_json::Value`: parses one line as a JSON document and hands the
/// top-level object's entries out, each value classified by
/// `flatten_value`. The result is exactly `json_entries_of` of the line.
#[verifier::external_body]
pub(crate) fn parse_entries(line: &str) -> (r: Option<Option<Vec<(String, FlatValue)>>>)
    ensures
        r.deep_view() == json_entries_of(line@),
{
    match serde_json::from_str::<serde_json::Value>(line) {
        Err(_) => None,
        Ok(serde_json::Value::Object(m)) => Some(
            Some(m.into_iter().map(|(k, v)| (k, flatten_value(v))).collect()),
        ),
        Ok(_) => Some(None),
    }
}

/// Relies on the variants of `serde_json::Value` and on
/// `serde_json::Number::{as_f64, as_u64, as_i64}`: classifies one parsed
/// value into the library's `FlatValue`, moving each field across
/// unchanged. This is the per-value half of the parse boundary, called by
/// `parse_entries` above.
#[verifier::external_body]
fn flatten_value(v: serde_json::Value) -> FlatValue {
    match v {
        serde_json::Value::String(s) => FlatValue::Str(s),
        serde_json::Value::Bool(b) => FlatValue::Bool(b),
        serde_json::Value::Number(n) => FlatValue::Num {
            bits: n.as_f64().map(|x| x.to_bits()).unwrap_or(0),
            as_uint: n.as_u64(),
            as_int: n.as_i64(),
        },
        serde_json::Value::Null => FlatValue::Null,
        serde_json::Value::Array(_) => FlatValue::Composite,
        serde_json::Value::Object(_) => FlatValue::Composite,
    }
}

/// Relies on `std::time::SystemTime::now`: the wall clock as seconds since
/// the epoch, returned as the IEEE-754 bit pattern of that reading. Nothing
/// exact can be promised of a clock.
#[verifier::external_body]
pub(crate) fn now_bits() -> u64 {
    std::time::SystemTime::now()
        .duration_since(std::time::UNIX_EPOCH)
        .map(|d| d.as_secs_f64().to_bits())
        .unwrap_or(0)
}

} // verus!
