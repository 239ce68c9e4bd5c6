//! The canonical in-memory log event: one `Record` per input line, built by a
//! decoder, consumed by an encoder, never mutated in between.
//!
//! Timestamps keep fractional precision: a record stores the IEEE-754 bit
//! pattern of the seconds-since-epoch value as a `u64`, so that the verified
//! code never touches floating-point arithmetic itself.

use vstd::prelude::*;

verus! {

/// Largest admissible severity value (the standard syslog range is 0..=7).
pub const SEVERITY_MAX: u8 = 7;

/// One value of the structured-data section: a closed set of scalar shapes.
/// Anything else in the input (an array, a nested object) is a decode error,
/// never a silent coercion. `Float` carries the IEEE-754 bit pattern.
#[derive(Clone, Debug, PartialEq)]
pub enum SDValue {
    Str(String),
    Bool(bool),
    Float(u64),
    I64(i64),
    U64(u64),
    Null,
}

/// The open set of non-standard key/value fields attached to a record,
/// in insertion order. Keys are normalized to begin with `_`.
#[derive(Debug)]
pub struct StructuredData {
    pub sd_id: Option<String>,
    pub pairs: Vec<(String, SDValue)>,
}

/// One parsed log event. `ts` is the IEEE-754 bit pattern of the
/// seconds-since-epoch timestamp.
#[derive(Debug)]
pub struct Record {
    pub ts: u64,
    pub hostname: String,
    pub facility: Option<u8>,
    pub severity: Option<u8>,
    pub appname: Option<String>,
    pub procid: Option<String>,
    pub msgid: Option<String>,
    pub sd: Option<StructuredData>,
    pub msg: Option<String>,
    pub full_msg: Option<String>,
}

/// Mathematical model of an `SDValue`.
#[verifier::ext_equal]
pub ghost enum SDValueModel {
    Str(Seq<char>),
    Bool(bool),
    Float(u64),
    I64(i64),
    U64(u64),
    Null,
}

/// Mathematical model of a `StructuredData`.
#[verifier::ext_equal]
pub ghost struct StructuredDataModel {
    pub sd_id: Option<Seq<char>>,
    pub pairs: Seq<(Seq<char>, SDValueModel)>,
}

/// Mathematical model of a `Record`.
#[verifier::ext_equal]
pub ghost struct RecordModel {
    pub ts: u64,
    pub hostname: Seq<char>,
    pub facility: Option<u8>,
    pub severity: Option<u8>,
    pub appname: Option<Seq<char>>,
    pub procid: Option<Seq<char>>,
    pub msgid: Option<Seq<char>>,
    pub sd: Option<StructuredDataModel>,
    pub msg: Option<Seq<char>>,
    pub full_msg: Option<Seq<char>>,
}

impl View for SDValue {
    type V = SDValueModel;

    open spec fn view(&self) -> SDValueModel {
        match self {
            SDValue::Str(s) => SDValueModel::Str(s@),
            SDValue::Bool(b) => SDValueModel::Bool(*b),
            SDValue::Float(bits) => SDValueModel::Float(*bits),
            SDValue::I64(i) => SDValueModel::I64(*i),
            SDValue::U64(u) => SDValueModel::U64(*u),
            SDValue::Null => SDValueModel::Null,
        }
    }
}

impl View for StructuredData {
    type V = StructuredDataModel;

    open spec fn view(&self) -> StructuredDataModel {
        StructuredDataModel {
            sd_id: self.sd_id.deep_view(),
            pairs: self.pairs@.map_values(|p: (String, SDValue)| (p.0@, p.1@)),
        }
    }
}

impl View for Record {
    type V = RecordModel;

    open spec fn view(&self) -> RecordModel {
        RecordModel {
            ts: self.ts,
            hostname: self.hostname@,
            facility: self.facility,
            severity: self.severity,
            appname: self.appname.deep_view(),
            procid: self.procid.deep_view(),
            msgid: self.msgid.deep_view(),
            sd: match &self.sd {
                Some(sd) => Some(sd@),
                None => None,
            },
            msg: self.msg.deep_view(),
            full_msg: self.full_msg.deep_view(),
        }
    }
}

impl StructuredDataModel {
    /// Every key of the structured data begins with `_`.
    pub open spec fn keys_normalized(self) -> bool {
        forall|i: int|
            0 <= i < self.pairs.len() ==> (#[trigger] self.pairs[i]).0.len() > 0
                && self.pairs[i].0[0] == '_'
    }
}

impl RecordModel {
    /// The invariant every decoded record satisfies: severity in range, and
    /// structured data, when present, non-empty with normalized keys.
    pub open spec fn wf(self) -> bool {
        &&& match self.severity {
            Some(s) => s <= SEVERITY_MAX,
            None => true,
        }
        &&& match self.sd {
            Some(sd) => sd.pairs.len() > 0 && sd.keys_normalized(),
            None => true,
        }
    }
}

impl StructuredData {
    /// An empty structured-data section with the given id.
    pub fn new(sd_id: Option<String>) -> (r: StructuredData)
        ensures
            r@.sd_id == sd_id.deep_view(),
            r@.pairs == Seq::<(Seq<char>, SDValueModel)>::empty(),
    {
        let r = StructuredData { sd_id, pairs: Vec::new() };
        proof {
            assert(r@.pairs =~= Seq::<(Seq<char>, SDValueModel)>::empty());
        }
        r
    }
}

impl Record {
    /// The invariant every decoded record satisfies, stated on the model.
    pub open spec fn wf(self) -> bool {
        self@.wf()
    }
}

} // verus!
