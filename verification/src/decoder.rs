//! Decoding of one JSON log line into a `Record`.
//!
//! The parser itself sits behind the trusted wrappers of `crate::json`; the
//! logic here is verified against an exact mathematical model: a line's
//! top-level entries, already classified into `FlatValue`, are folded into a
//! record by `spec_decode_entries`, and `decode_entries` is proved to return
//! exactly that fold's result. The laws of the decoder (severity taken or
//! rejected, hostname defaulting, key normalization, structured data present
//! if and only if extra keys occur, composite values rejected) are proved as
//! public lemmas over the same model.

use vstd::prelude::*;

use crate::json::{parse_entries, now_bits, json_entries_of, FlatValue, FlatModel};
use crate::record::{Record, RecordModel, StructuredData, StructuredDataModel, SDValue,
    SDValueModel, SEVERITY_MAX};

verus! {

/// Why a line failed to decode. `message` gives the human-readable text.
#[derive(Clone, Copy, Debug, PartialEq, Eq, Structural)]
pub enum DecodeError {
    /// The line is not parseable JSON, even after escaping raw newlines.
    NotJson,
    /// The line is JSON, but its top level is not an object.
    NotAnObject,
    /// A `host` entry is present but not a string.
    HostNotString,
    /// A `message` entry is present but not a string.
    MessageNotString,
    /// A `level` entry is present but not an unsigned integer.
    InvalidSeverity,
    /// A `level` entry is an unsigned integer above `SEVERITY_MAX`.
    SeverityTooHigh,
    /// A structured-data value is an array or a nested object.
    InvalidSdValue,
}

impl DecodeError {
    /// The error text, as a logger would print it.
    pub fn message(&self) -> (r: &'static str)
        ensures
            self is NotJson ==> r@ == "Unable to parse as a JSON object"@,
            self is NotAnObject ==> r@ == "Empty JSON input"@,
            self is HostNotString ==> r@ == "host name must be a string"@,
            self is MessageNotString ==> r@ == "message must be a string"@,
            self is InvalidSeverity ==> r@ == "Invalid severity level"@,
            self is SeverityTooHigh ==> r@ == "Invalid severity level (too high)"@,
            self is InvalidSdValue ==> r@ == "Invalid value type in structured data"@,
    {
        match self {
            DecodeError::NotJson => "Unable to parse as a JSON object",
            DecodeError::NotAnObject => "Empty JSON input",
            DecodeError::HostNotString => "host name must be a string",
            DecodeError::MessageNotString => "message must be a string",
            DecodeError::InvalidSeverity => "Invalid severity level",
            DecodeError::SeverityTooHigh => "Invalid severity level (too high)",
            DecodeError::InvalidSdValue => "Invalid value type in structured data",
        }
    }
}

/// A structured-data key is normalized to begin with `_`: keys already
/// beginning with `_` pass through unchanged, others get one `_` prepended.
pub open spec fn spec_normalize_key(k: Seq<char>) -> Seq<char> {
    if k.len() > 0 && k[0] == '_' {
        k
    } else {
        seq!['_'] + k
    }
}

/// The four top-level keys the decoder recognizes; every other key goes to
/// structured data.
pub open spec fn spec_is_recognized(k: Seq<char>) -> bool {
    ||| k == "timestamp"@
    ||| k == "host"@
    ||| k == "message"@
    ||| k == "level"@
}

/// A key that lands in structured data.
pub open spec fn spec_is_extra(k: Seq<char>) -> bool {
    !spec_is_recognized(k)
}

/// The structured-data value a classified JSON value maps to; `None` for a
/// composite shape (array or object), which is a decode error.
pub open spec fn spec_sd_val(v: FlatModel) -> Option<SDValueModel> {
    match v {
        FlatModel::Str(s) => Some(SDValueModel::Str(s)),
        FlatModel::Bool(b) => Some(SDValueModel::Bool(b)),
        FlatModel::Num { bits, as_uint, as_int } => match as_uint {
            Some(u) => Some(SDValueModel::U64(u)),
            None => match as_int {
                Some(i) => Some(SDValueModel::I64(i)),
                None => Some(SDValueModel::Float(bits)),
            },
        },
        FlatModel::Null => Some(SDValueModel::Null),
        FlatModel::Composite => None,
    }
}

/// The partial state of a decode in progress: fields seen so far.
#[verifier::ext_equal]
pub ghost struct DecodeAcc {
    pub ts: Option<u64>,
    pub hostname: Option<Seq<char>>,
    pub msg: Option<Seq<char>>,
    pub severity: Option<u8>,
    pub sd: Seq<(Seq<char>, SDValueModel)>,
}

/// The state before any entry has been read.
pub open spec fn spec_init_acc() -> DecodeAcc {
    DecodeAcc {
        ts: None,
        hostname: None,
        msg: None,
        severity: None,
        sd: Seq::empty(),
    }
}

/// How one entry changes the decode state, or fails it. `now` is the
/// timestamp used when a `timestamp` entry is present but not a number.
pub open spec fn spec_step(acc: DecodeAcc, k: Seq<char>, v: FlatModel, now: u64) -> Result<
    DecodeAcc,
    DecodeError,
> {
    if k == "timestamp"@ {
        match v {
            FlatModel::Num { bits, .. } => Ok(DecodeAcc { ts: Some(bits), ..acc }),
            _ => Ok(DecodeAcc { ts: Some(now), ..acc }),
        }
    } else if k == "host"@ {
        match v {
            FlatModel::Str(s) => Ok(DecodeAcc { hostname: Some(s), ..acc }),
            _ => Err(DecodeError::HostNotString),
        }
    } else if k == "message"@ {
        match v {
            FlatModel::Str(s) => Ok(DecodeAcc { msg: Some(s), ..acc }),
            _ => Err(DecodeError::MessageNotString),
        }
    } else if k == "level"@ {
        match v {
            FlatModel::Num { as_uint: Some(u), .. } => if u > SEVERITY_MAX as u64 {
                Err(DecodeError::SeverityTooHigh)
            } else {
                Ok(DecodeAcc { severity: Some(u as u8), ..acc })
            },
            _ => Err(DecodeError::InvalidSeverity),
        }
    } else {
        match spec_sd_val(v) {
            Some(sv) => Ok(DecodeAcc { sd: acc.sd.push((spec_normalize_key(k), sv)), ..acc }),
            None => Err(DecodeError::InvalidSdValue),
        }
    }
}

/// Folds the entries, left to right, over `spec_step`.
pub open spec fn spec_fold(
    entries: Seq<(Seq<char>, FlatModel)>,
    acc: DecodeAcc,
    now: u64,
) -> Result<DecodeAcc, DecodeError>
    decreases entries.len(),
{
    if entries.len() == 0 {
        Ok(acc)
    } else {
        match spec_step(acc, entries[0].0, entries[0].1, now) {
            Ok(acc2) => spec_fold(entries.drop_first(), acc2, now),
            Err(e) => Err(e),
        }
    }
}

/// The record a completed decode state denotes: missing timestamp defaults
/// to `now`, missing hostname to `"unknown"`, and structured data is present
/// exactly when at least one pair was collected.
pub open spec fn spec_finish(acc: DecodeAcc, now: u64) -> RecordModel {
    RecordModel {
        ts: match acc.ts {
            Some(t) => t,
            None => now,
        },
        hostname: match acc.hostname {
            Some(h) => h,
            None => "unknown"@,
        },
        facility: None,
        severity: acc.severity,
        appname: None,
        procid: None,
        msgid: None,
        sd: if acc.sd.len() == 0 {
            None
        } else {
            Some(StructuredDataModel { sd_id: None, pairs: acc.sd })
        },
        msg: acc.msg,
        full_msg: None,
    }
}

/// What decoding a classified entry list returns, exactly.
pub open spec fn spec_decode_entries(
    entries: Seq<(Seq<char>, FlatModel)>,
    now: u64,
) -> Result<RecordModel, DecodeError> {
    match spec_fold(entries, spec_init_acc(), now) {
        Ok(acc) => Ok(spec_finish(acc, now)),
        Err(e) => Err(e),
    }
}

/// Normalizes one structured-data key.
pub fn normalize_key(k: &String) -> (r: String)
    ensures
        r@ == spec_normalize_key(k@),
{
    let ks = k.as_str();
    if ks.unicode_len() > 0 && ks.get_char(0) == '_' {
        k.clone()
    } else {
        let mut r = String::from_str("_");
        r.append(ks);
        proof {
            reveal_strlit("_");
            assert(r@ =~= seq!['_'] + k@);
        }
        r
    }
}

/// Decodes an already-parsed, already-classified entry list into a record:
/// returns exactly what `spec_decode_entries` says, and every record it
/// returns is well-formed.
pub fn decode_entries(entries: &Vec<(String, FlatValue)>, now: u64) -> (r: Result<
    Record,
    DecodeError,
>)
    ensures
        match r {
            Ok(rec) => spec_decode_entries(entries.deep_view(), now) == Ok::<
                RecordModel,
                DecodeError,
            >(rec@) && rec.wf(),
            Err(e) => spec_decode_entries(entries.deep_view(), now) == Err::<
                RecordModel,
                DecodeError,
            >(e),
        },
{
    let ghost evs = entries.deep_view();
    let key_timestamp = String::from_str("timestamp");
    let key_host = String::from_str("host");
    let key_message = String::from_str("message");
    let key_level = String::from_str("level");

    let mut ts: Option<u64> = None;
    let mut hostname: Option<String> = None;
    let mut msg: Option<String> = None;
    let mut severity: Option<u8> = None;
    let mut sd_pairs: Vec<(String, SDValue)> = Vec::new();

    proof {
        assert(evs.skip(0) =~= evs);
        assert(sd_pairs@.map_values(|p: (String, SDValue)| (p.0@, p.1@)) =~= Seq::<
            (Seq<char>, SDValueModel),
        >::empty());
        assert((DecodeAcc {
            ts: ts,
            hostname: hostname.deep_view(),
            msg: msg.deep_view(),
            severity: severity,
            sd: sd_pairs@.map_values(|p: (String, SDValue)| (p.0@, p.1@)),
        }) =~= spec_init_acc());
    }
    let mut i: usize = 0;
    while i < entries.len()
        invariant
            0 <= i <= entries.len(),
            evs == entries.deep_view(),
            evs.len() == entries.len(),
            key_timestamp@ == "timestamp"@,
            key_host@ == "host"@,
            key_message@ == "message"@,
            key_level@ == "level"@,
            match severity {
                Some(s) => s <= SEVERITY_MAX,
                None => true,
            },
            forall|j: int|
                0 <= j < sd_pairs.len() ==> (#[trigger] sd_pairs@[j]).0@.len() > 0
                    && sd_pairs@[j].0@[0] == '_',
            spec_fold(evs, spec_init_acc(), now) == spec_fold(
                evs.skip(i as int),
                (DecodeAcc {
                    ts: ts,
                    hostname: hostname.deep_view(),
                    msg: msg.deep_view(),
                    severity: severity,
                    sd: sd_pairs@.map_values(|p: (String, SDValue)| (p.0@, p.1@)),
                }),
                now,
            ),
        decreases entries.len() - i,
    {
        let ghost acc_before = DecodeAcc {
            ts: ts,
            hostname: hostname.deep_view(),
            msg: msg.deep_view(),
            severity: severity,
            sd: sd_pairs@.map_values(|p: (String, SDValue)| (p.0@, p.1@)),
        };
        proof {
            assert(evs.skip(i as int).len() > 0);
            assert(evs.skip(i as int)[0] == evs[i as int]);
            assert(evs.skip(i as int).drop_first() =~= evs.skip(i as int + 1));
        }
        let pair = &entries[i];
        let k = &pair.0;
        let v = &pair.1;
        proof {
            assert(evs[i as int] == (k@, v@));
        }
        if *k == key_timestamp {
            match v {
                FlatValue::Num { bits, .. } => {
                    ts = Some(*bits);
                },
                _ => {
                    ts = Some(now);
                },
            }
        } else if *k == key_host {
            match v {
                FlatValue::Str(s) => {
                    hostname = Some(s.clone());
                },
                _ => {
                    proof {
                        assert(spec_fold(evs, spec_init_acc(), now) == Err::<
                            DecodeAcc,
                            DecodeError,
                        >(DecodeError::HostNotString));
                    }
                    return Err(DecodeError::HostNotString);
                },
            }
        } else if *k == key_message {
            match v {
                FlatValue::Str(s) => {
                    msg = Some(s.clone());
                },
                _ => {
                    proof {
                        assert(spec_fold(evs, spec_init_acc(), now) == Err::<
                            DecodeAcc,
                            DecodeError,
                        >(DecodeError::MessageNotString));
                    }
                    return Err(DecodeError::MessageNotString);
                },
            }
        } else if *k == key_level {
            match v {
                FlatValue::Num { as_uint: Some(u), .. } => {
                    if *u > (SEVERITY_MAX as u64) {
                        proof {
                            assert(spec_fold(evs, spec_init_acc(), now) == Err::<
                                DecodeAcc,
                                DecodeError,
                            >(DecodeError::SeverityTooHigh));
                        }
                        return Err(DecodeError::SeverityTooHigh);
                    }
                    severity = Some(*u as u8);
                },
                _ => {
                    proof {
                        assert(spec_fold(evs, spec_init_acc(), now) == Err::<
                            DecodeAcc,
                            DecodeError,
                        >(DecodeError::InvalidSeverity));
                    }
                    return Err(DecodeError::InvalidSeverity);
                },
            }
        } else {
            let sv: SDValue = match v {
                FlatValue::Str(s) => SDValue::Str(s.clone()),
                FlatValue::Bool(b) => SDValue::Bool(*b),
                FlatValue::Num { bits, as_uint, as_int } => match (as_uint, as_int) {
                    (Some(u), _) => SDValue::U64(*u),
                    (None, Some(iv)) => SDValue::I64(*iv),
                    (None, None) => SDValue::Float(*bits),
                },
                FlatValue::Null => SDValue::Null,
                FlatValue::Composite => {
                    proof {
                        assert(spec_fold(evs, spec_init_acc(), now) == Err::<
                            DecodeAcc,
                            DecodeError,
                        >(DecodeError::InvalidSdValue));
                    }
                    return Err(DecodeError::InvalidSdValue);
                },
            };
            proof {
                assert(Some(sv@) == spec_sd_val(v@));
            }
            let name = normalize_key(k);
            sd_pairs.push((name, sv));
            proof {
                assert(sd_pairs@.map_values(|p: (String, SDValue)| (p.0@, p.1@)) =~= acc_before.sd
                    .push((spec_normalize_key(k@), sv@)));
                if !(k@.len() > 0 && k@[0] == '_') {
                    assert((seq!['_'] + k@)[0] == '_');
                }
            }
        }
        i = i + 1;
        proof {
            let acc_after = DecodeAcc {
                ts: ts,
                hostname: hostname.deep_view(),
                msg: msg.deep_view(),
                severity: severity,
                sd: sd_pairs@.map_values(|p: (String, SDValue)| (p.0@, p.1@)),
            };
            assert(spec_step(acc_before, evs[i - 1].0, evs[i - 1].1, now) == Ok::<
                DecodeAcc,
                DecodeError,
            >(acc_after));
        }
    }
    proof {
        assert(evs.skip(i as int) =~= Seq::<(Seq<char>, FlatModel)>::empty());
    }
    let ghost acc_final = DecodeAcc {
        ts: ts,
        hostname: hostname.deep_view(),
        msg: msg.deep_view(),
        severity: severity,
        sd: sd_pairs@.map_values(|p: (String, SDValue)| (p.0@, p.1@)),
    };
    let rec = Record {
        ts: match ts {
            Some(t) => t,
            None => now,
        },
        hostname: match hostname {
            Some(h) => h,
            None => String::from_str("unknown"),
        },
        facility: None,
        severity: severity,
        appname: None,
        procid: None,
        msgid: None,
        sd: if sd_pairs.len() == 0 {
            None
        } else {
            Some(StructuredData { sd_id: None, pairs: sd_pairs })
        },
        msg: msg,
        full_msg: None,
    };
    proof {
        assert(rec@ =~~= spec_finish(acc_final, now));
        assert(rec@.wf());
    }
    Ok(rec)
}

/// A line with every raw newline escaped: `'\n'` becomes the two characters
/// `'\\'` `'n'`; everything else is unchanged. Some producers emit multi-line
/// JSON payloads whose raw newlines break strict JSON syntax; the decoder
/// re-attempts parsing on this repaired form before failing.
pub open spec fn spec_escape(s: Seq<char>) -> Seq<char>
    decreases s.len(),
{
    if s.len() == 0 {
        Seq::empty()
    } else if s[0] == '\n' {
        seq!['\\', 'n'] + spec_escape(s.drop_first())
    } else {
        seq![s[0]] + spec_escape(s.drop_first())
    }
}

proof fn lemma_escape_snoc(s: Seq<char>, c: char)
    ensures
        spec_escape(s.push(c)) == spec_escape(s) + (if c == '\n' {
            seq!['\\', 'n']
        } else {
            seq![c]
        }),
    decreases s.len(),
{
    let tail = if c == '\n' {
        seq!['\\', 'n']
    } else {
        seq![c]
    };
    if s.len() == 0 {
        assert(s.push(c)[0] == c);
        assert(s.push(c).drop_first() =~= Seq::<char>::empty());
        assert(spec_escape(Seq::<char>::empty()) == Seq::<char>::empty());
        assert(spec_escape(s.push(c).drop_first()) == Seq::<char>::empty());
        assert(spec_escape(s.push(c)) =~= tail);
        assert(spec_escape(s) == Seq::<char>::empty());
        assert(spec_escape(s) + tail =~= tail);
    } else {
        assert(s.push(c)[0] == s[0]);
        assert(s.push(c).drop_first() =~= s.drop_first().push(c));
        lemma_escape_snoc(s.drop_first(), c);
        assert(spec_escape(s.drop_first().push(c)) == spec_escape(s.drop_first()) + tail);
        if s[0] == '\n' {
            assert(spec_escape(s.push(c)) =~= seq!['\\', 'n'] + (spec_escape(s.drop_first())
                + tail));
            assert(spec_escape(s) + tail =~= seq!['\\', 'n'] + (spec_escape(s.drop_first())
                + tail));
        } else {
            assert(spec_escape(s.push(c)) =~= seq![s[0]] + (spec_escape(s.drop_first()) + tail));
            assert(spec_escape(s) + tail =~= seq![s[0]] + (spec_escape(s.drop_first()) + tail));
        }
    }
}

/// Escapes raw newlines in a line, exactly as `spec_escape` says.
pub fn escape_newlines(s: &str) -> (r: String)
    ensures
        r@ == spec_escape(s@),
{
    let n = s.unicode_len();
    let mut r = String::new();
    proof {
        assert(s@.subrange(0, 0) =~= Seq::<char>::empty());
    }
    let mut i: usize = 0;
    while i < n
        invariant
            0 <= i <= n,
            n == s@.len(),
            r@ == spec_escape(s@.subrange(0, i as int)),
        decreases n - i,
    {
        let c = s.get_char(i);
        if c == '\n' {
            r.append("\\n");
            proof {
                reveal_strlit("\\n");
                assert("\\n"@ =~= seq!['\\', 'n']);
            }
        } else {
            let piece = s.substring_char(i, i + 1);
            r.append(piece);
            proof {
                assert(piece@ =~= seq![s@[i as int]]);
            }
        }
        proof {
            lemma_escape_snoc(s@.subrange(0, i as int), s@[i as int]);
            assert(s@.subrange(0, i as int + 1) =~= s@.subrange(0, i as int).push(s@[i as int]));
        }
        i = i + 1;
    }
    proof {
        assert(s@.subrange(0, n as int) =~= s@);
    }
    r
}

/// The model a decode result corresponds to.
pub open spec fn spec_result_models(r: Result<Record, DecodeError>) -> Result<
    RecordModel,
    DecodeError,
> {
    match r {
        Ok(rec) => Ok(rec@),
        Err(e) => Err(e),
    }
}

/// What decoding owes once parsing has settled: a non-object top level
/// fails with `NotAnObject`; an object's entries decode exactly per
/// `spec_decode_entries`, for some clock reading `now` (the clock cannot be
/// pinned down further).
pub open spec fn spec_decoded_from(
    inner: Option<Seq<(Seq<char>, FlatModel)>>,
    r: Result<Record, DecodeError>,
) -> bool {
    match inner {
        None => r == Err::<Record, DecodeError>(DecodeError::NotAnObject),
        Some(entries) => exists|now: u64| spec_decode_entries(entries, now) == spec_result_models(
            r,
        ),
    }
}

/// The whole decode verdict over the parse name: the line is parsed; when
/// that fails, its newline-escaped repair is parsed; only when both fail is
/// the verdict `NotJson`.
pub open spec fn spec_decode_line(line: Seq<char>, r: Result<Record, DecodeError>) -> bool {
    match json_entries_of(line) {
        Some(inner) => spec_decoded_from(inner, r),
        None => match json_entries_of(spec_escape(line)) {
            Some(inner) => spec_decoded_from(inner, r),
            None => r == Err::<Record, DecodeError>(DecodeError::NotJson),
        },
    }
}

/// The capability a pipeline input needs: raw line in, record out. An
/// implementation is duplicable across worker threads and never returns a
/// malformed record.
pub trait Decoder: Sized {
    /// Decodes one raw text line into a record.
    fn decode(&self, line: &str) -> (r: Result<Record, DecodeError>)
        ensures
            r matches Ok(rec) ==> rec.wf(),
    ;
}

/// The JSON decoder: one JSON object per line, recognized keys `timestamp`,
/// `host`, `message` and `level`, everything else routed to structured data.
#[derive(Clone, Copy)]
pub struct JsonDecoder;

impl JsonDecoder {
    /// The JSON decoder holds no configuration.
    pub fn new() -> JsonDecoder {
        JsonDecoder
    }
}

impl Decoder for JsonDecoder {
    fn decode(&self, line: &str) -> (r: Result<Record, DecodeError>)
        ensures
            spec_decode_line(line@, r),
    {
        let parsed = match parse_entries(line) {
            Some(inner) => inner,
            None => {
                let repaired = escape_newlines(line);
                match parse_entries(repaired.as_str()) {
                    Some(inner) => inner,
                    None => {
                        return Err(DecodeError::NotJson);
                    },
                }
            },
        };
        let entries = match parsed {
            Some(entries) => entries,
            None => {
                return Err(DecodeError::NotAnObject);
            },
        };
        let now = now_bits();
        let r = decode_entries(&entries, now);
        proof {
            assert(spec_decode_entries(entries.deep_view(), now) == spec_result_models(r));
            assert(spec_decoded_from(Some(entries.deep_view()), r));
        }
        r
    }
}

/// An entry the decoder accepts: `host` and `message` must be strings,
/// `level` an unsigned integer within the severity range, `timestamp` is
/// never rejected, and an extra key may carry any non-composite value.
pub open spec fn spec_entry_ok(k: Seq<char>, v: FlatModel) -> bool {
    if k == "host"@ || k == "message"@ {
        v is Str
    } else if k == "level"@ {
        v matches FlatModel::Num { as_uint: Some(u), .. } && u <= SEVERITY_MAX as u64
    } else if k == "timestamp"@ {
        true
    } else {
        !(v is Composite)
    }
}

/// Every entry of the list is accepted.
pub open spec fn spec_entries_ok(entries: Seq<(Seq<char>, FlatModel)>) -> bool {
    forall|i: int|
        0 <= i < entries.len() ==> spec_entry_ok(
            (#[trigger] entries[i]).0,
            entries[i].1,
        )
}

/// The unsigned reading of a `level` entry's value.
pub open spec fn spec_level_value(v: FlatModel) -> u64 {
    match v {
        FlatModel::Num { as_uint: Some(u), .. } => u,
        _ => 0,
    }
}

/// The structured-data pairs an entry list yields: its extra entries in
/// order, keys normalized, values mapped into the closed scalar set.
pub open spec fn spec_sd_seq(entries: Seq<(Seq<char>, FlatModel)>) -> Seq<
    (Seq<char>, SDValueModel),
>
    decreases entries.len(),
{
    if entries.len() == 0 {
        Seq::empty()
    } else {
        let rest = spec_sd_seq(entries.drop_first());
        if spec_is_extra(entries[0].0) {
            seq![(spec_normalize_key(entries[0].0), spec_sd_val(entries[0].1)->Some_0)] + rest
        } else {
            rest
        }
    }
}

proof fn lemma_keys_distinct()
    ensures
        "timestamp"@ != "host"@,
        "timestamp"@ != "message"@,
        "timestamp"@ != "level"@,
        "host"@ != "message"@,
        "host"@ != "level"@,
        "message"@ != "level"@,
{
    reveal_strlit("timestamp");
    reveal_strlit("host");
    reveal_strlit("message");
    reveal_strlit("level");
    assert("timestamp"@.len() == 9);
    assert("host"@.len() == 4);
    assert("message"@.len() == 7);
    assert("level"@.len() == 5);
}

proof fn lemma_step_ok(acc: DecodeAcc, k: Seq<char>, v: FlatModel, now: u64)
    requires
        spec_entry_ok(k, v),
    ensures
        spec_step(acc, k, v, now) is Ok,
{
    lemma_keys_distinct();
}

proof fn lemma_entries_ok_tail(entries: Seq<(Seq<char>, FlatModel)>)
    requires
        spec_entries_ok(entries),
        entries.len() > 0,
    ensures
        spec_entries_ok(entries.drop_first()),
{
    assert forall|i: int| 0 <= i < entries.drop_first().len() implies spec_entry_ok(
        (#[trigger] entries.drop_first()[i]).0,
        entries.drop_first()[i].1,
    ) by {
        assert(entries.drop_first()[i] == entries[i + 1]);
    }
}

/// Decoding never fails on a list whose every entry is accepted.
pub proof fn lemma_fold_all_ok(entries: Seq<(Seq<char>, FlatModel)>, acc: DecodeAcc, now: u64)
    requires
        spec_entries_ok(entries),
    ensures
        spec_fold(entries, acc, now) is Ok,
    decreases entries.len(),
{
    if entries.len() > 0 {
        lemma_step_ok(acc, entries[0].0, entries[0].1, now);
        let acc2 = spec_step(acc, entries[0].0, entries[0].1, now)->Ok_0;
        lemma_entries_ok_tail(entries);
        lemma_fold_all_ok(entries.drop_first(), acc2, now);
    }
}

proof fn lemma_fold_no_level_keeps_severity(
    entries: Seq<(Seq<char>, FlatModel)>,
    acc: DecodeAcc,
    now: u64,
)
    requires
        spec_entries_ok(entries),
        forall|i: int| 0 <= i < entries.len() ==> (#[trigger] entries[i]).0 != "level"@,
    ensures
        spec_fold(entries, acc, now) matches Ok(a) && a.severity == acc.severity,
    decreases entries.len(),
{
    lemma_keys_distinct();
    if entries.len() > 0 {
        lemma_step_ok(acc, entries[0].0, entries[0].1, now);
        let acc2 = spec_step(acc, entries[0].0, entries[0].1, now)->Ok_0;
        assert(acc2.severity == acc.severity);
        lemma_entries_ok_tail(entries);
        lemma_fold_no_level_keeps_severity(entries.drop_first(), acc2, now);
    }
}

proof fn lemma_fold_severity(
    entries: Seq<(Seq<char>, FlatModel)>,
    acc: DecodeAcc,
    now: u64,
    j: int,
)
    requires
        spec_entries_ok(entries),
        0 <= j < entries.len(),
        entries[j].0 == "level"@,
        forall|m: int| j < m < entries.len() ==> (#[trigger] entries[m]).0 != "level"@,
    ensures
        spec_fold(entries, acc, now) matches Ok(a) && a.severity == Some(
            spec_level_value(entries[j].1) as u8,
        ),
    decreases entries.len(),
{
    lemma_keys_distinct();
    lemma_step_ok(acc, entries[0].0, entries[0].1, now);
    let acc2 = spec_step(acc, entries[0].0, entries[0].1, now)->Ok_0;
    lemma_entries_ok_tail(entries);
    if j == 0 {
        assert(acc2.severity == Some(spec_level_value(entries[0].1) as u8));
        assert(forall|i: int|
            0 <= i < entries.drop_first().len() ==> (#[trigger] entries.drop_first()[i]).0
                != "level"@);
        lemma_fold_no_level_keeps_severity(entries.drop_first(), acc2, now);
    } else {
        assert(entries.drop_first()[j - 1] == entries[j]);
        assert(forall|m: int|
            j - 1 < m < entries.drop_first().len() ==> (#[trigger] entries.drop_first()[m]).0
                != "level"@);
        lemma_fold_severity(entries.drop_first(), acc2, now, j - 1);
    }
}

/// For every accepted entry list whose single `level` entry carries a value
/// at most `SEVERITY_MAX`, decoding succeeds and the record's severity
/// equals that value.
pub proof fn lemma_decode_severity_taken(entries: Seq<(Seq<char>, FlatModel)>, now: u64, j: int)
    requires
        spec_entries_ok(entries),
        0 <= j < entries.len(),
        entries[j].0 == "level"@,
        forall|m: int| j < m < entries.len() ==> (#[trigger] entries[m]).0 != "level"@,
    ensures
        spec_decode_entries(entries, now) matches Ok(r) && r.severity == Some(
            spec_level_value(entries[j].1) as u8,
        ),
{
    lemma_fold_severity(entries, spec_init_acc(), now, j);
}

/// A `level` entry above `SEVERITY_MAX` fails the decode with the
/// severity-too-high error, provided no earlier entry failed it first.
pub proof fn lemma_decode_severity_too_high(
    entries: Seq<(Seq<char>, FlatModel)>,
    now: u64,
    j: int,
)
    requires
        0 <= j < entries.len(),
        forall|i: int|
            0 <= i < j ==> spec_entry_ok((#[trigger] entries[i]).0, entries[i].1),
        entries[j].0 == "level"@,
        entries[j].1 matches FlatModel::Num { as_uint: Some(u), .. } && u > SEVERITY_MAX as u64,
    ensures
        spec_decode_entries(entries, now) == Err::<RecordModel, DecodeError>(
            DecodeError::SeverityTooHigh,
        ),
{
    lemma_keys_distinct();
    lemma_fold_too_high(entries, spec_init_acc(), now, j);
}

proof fn lemma_fold_too_high(
    entries: Seq<(Seq<char>, FlatModel)>,
    acc: DecodeAcc,
    now: u64,
    j: int,
)
    requires
        0 <= j < entries.len(),
        forall|i: int|
            0 <= i < j ==> spec_entry_ok((#[trigger] entries[i]).0, entries[i].1),
        entries[j].0 == "level"@,
        entries[j].1 matches FlatModel::Num { as_uint: Some(u), .. } && u > SEVERITY_MAX as u64,
    ensures
        spec_fold(entries, acc, now) == Err::<DecodeAcc, DecodeError>(DecodeError::SeverityTooHigh),
    decreases entries.len(),
{
    lemma_keys_distinct();
    if j == 0 {
        assert(spec_step(acc, entries[0].0, entries[0].1, now) == Err::<DecodeAcc, DecodeError>(
            DecodeError::SeverityTooHigh,
        ));
    } else {
        lemma_step_ok(acc, entries[0].0, entries[0].1, now);
        let acc2 = spec_step(acc, entries[0].0, entries[0].1, now)->Ok_0;
        assert(entries.drop_first()[j - 1] == entries[j]);
        assert(forall|i: int|
            0 <= i < j - 1 ==> entries.drop_first()[i] == (#[trigger] entries[i + 1]));
        assert forall|i: int| 0 <= i < j - 1 implies spec_entry_ok(
            (#[trigger] entries.drop_first()[i]).0,
            entries.drop_first()[i].1,
        ) by {
            assert(entries.drop_first()[i] == entries[i + 1]);
        }
        lemma_fold_too_high(entries.drop_first(), acc2, now, j - 1);
    }
}

proof fn lemma_fold_no_host_keeps_hostname(
    entries: Seq<(Seq<char>, FlatModel)>,
    acc: DecodeAcc,
    now: u64,
)
    requires
        spec_entries_ok(entries),
        forall|i: int| 0 <= i < entries.len() ==> (#[trigger] entries[i]).0 != "host"@,
    ensures
        spec_fold(entries, acc, now) matches Ok(a) && a.hostname == acc.hostname,
    decreases entries.len(),
{
    lemma_keys_distinct();
    if entries.len() > 0 {
        lemma_step_ok(acc, entries[0].0, entries[0].1, now);
        let acc2 = spec_step(acc, entries[0].0, entries[0].1, now)->Ok_0;
        assert(acc2.hostname == acc.hostname);
        lemma_entries_ok_tail(entries);
        lemma_fold_no_host_keeps_hostname(entries.drop_first(), acc2, now);
    }
}

/// For every accepted entry list without a `host` entry, decoding succeeds
/// and the record's hostname is the literal `"unknown"`.
pub proof fn lemma_decode_hostname_defaults(entries: Seq<(Seq<char>, FlatModel)>, now: u64)
    requires
        spec_entries_ok(entries),
        forall|i: int| 0 <= i < entries.len() ==> (#[trigger] entries[i]).0 != "host"@,
    ensures
        spec_decode_entries(entries, now) matches Ok(r) && r.hostname == "unknown"@,
{
    lemma_fold_no_host_keeps_hostname(entries, spec_init_acc(), now);
}

proof fn lemma_fold_sd(entries: Seq<(Seq<char>, FlatModel)>, acc: DecodeAcc, now: u64)
    requires
        spec_entries_ok(entries),
    ensures
        spec_fold(entries, acc, now) matches Ok(a) && a.sd =~= acc.sd + spec_sd_seq(entries),
    decreases entries.len(),
{
    lemma_keys_distinct();
    if entries.len() == 0 {
        assert(acc.sd + spec_sd_seq(entries) =~= acc.sd);
    } else {
        lemma_step_ok(acc, entries[0].0, entries[0].1, now);
        let acc2 = spec_step(acc, entries[0].0, entries[0].1, now)->Ok_0;
        lemma_entries_ok_tail(entries);
        lemma_fold_sd(entries.drop_first(), acc2, now);
        let a = spec_fold(entries, acc, now)->Ok_0;
        if spec_is_extra(entries[0].0) {
            assert(acc2.sd =~= acc.sd.push(
                (spec_normalize_key(entries[0].0), spec_sd_val(entries[0].1)->Some_0),
            ));
            assert(a.sd =~= acc.sd + spec_sd_seq(entries));
        } else {
            assert(acc2.sd == acc.sd);
            assert(a.sd =~= acc.sd + spec_sd_seq(entries));
        }
    }
}

/// For every accepted entry list, decoding succeeds and the record's
/// structured data is exactly the list's extra entries, in order, keys
/// normalized — present if and only if at least one extra entry occurs,
/// never as an empty present collection.
pub proof fn lemma_decode_sd_exact(entries: Seq<(Seq<char>, FlatModel)>, now: u64)
    requires
        spec_entries_ok(entries),
    ensures
        spec_decode_entries(entries, now) matches Ok(r) && r.sd == (if spec_sd_seq(
            entries,
        ).len() == 0 {
            None
        } else {
            Some(StructuredDataModel { sd_id: None, pairs: spec_sd_seq(entries) })
        }),
{
    lemma_fold_sd(entries, spec_init_acc(), now);
    let a = spec_fold(entries, spec_init_acc(), now)->Ok_0;
    assert(a.sd =~= spec_sd_seq(entries));
}

proof fn lemma_sd_seq_empty_iff(entries: Seq<(Seq<char>, FlatModel)>)
    ensures
        spec_sd_seq(entries).len() == 0 <==> (forall|i: int|
            0 <= i < entries.len() ==> !spec_is_extra((#[trigger] entries[i]).0)),
    decreases entries.len(),
{
    if entries.len() > 0 {
        lemma_sd_seq_empty_iff(entries.drop_first());
        assert(forall|i: int|
            0 <= i < entries.drop_first().len() ==> entries.drop_first()[i] == (
            #[trigger] entries[i + 1]));
        if spec_is_extra(entries[0].0) {
        } else {
            assert forall|i: int|
                0 <= i < entries.len() && spec_sd_seq(entries).len() == 0 implies !spec_is_extra(
                (#[trigger] entries[i]).0,
            ) by {
                if i > 0 {
                    assert(entries.drop_first()[i - 1] == entries[i]);
                }
            }
        }
    }
}

/// For every accepted entry list, the decoded record carries structured data
/// if and only if the list has at least one extra key.
pub proof fn lemma_decode_sd_absent_iff_no_extra(entries: Seq<(Seq<char>, FlatModel)>, now: u64)
    requires
        spec_entries_ok(entries),
    ensures
        spec_decode_entries(entries, now) matches Ok(r) && ((r.sd is None) <==> (forall|i: int|
            0 <= i < entries.len() ==> !spec_is_extra((#[trigger] entries[i]).0))),
{
    lemma_decode_sd_exact(entries, now);
    lemma_sd_seq_empty_iff(entries);
}

/// An extra entry whose value is an array or a nested object fails the
/// decode with the invalid-value-type error, provided no earlier entry
/// failed it first — never a silent coercion or drop.
pub proof fn lemma_decode_composite_rejected(
    entries: Seq<(Seq<char>, FlatModel)>,
    now: u64,
    j: int,
)
    requires
        0 <= j < entries.len(),
        forall|i: int|
            0 <= i < j ==> spec_entry_ok((#[trigger] entries[i]).0, entries[i].1),
        spec_is_extra(entries[j].0),
        entries[j].1 is Composite,
    ensures
        spec_decode_entries(entries, now) == Err::<RecordModel, DecodeError>(
            DecodeError::InvalidSdValue,
        ),
{
    lemma_fold_composite(entries, spec_init_acc(), now, j);
}

proof fn lemma_fold_composite(
    entries: Seq<(Seq<char>, FlatModel)>,
    acc: DecodeAcc,
    now: u64,
    j: int,
)
    requires
        0 <= j < entries.len(),
        forall|i: int|
            0 <= i < j ==> spec_entry_ok((#[trigger] entries[i]).0, entries[i].1),
        spec_is_extra(entries[j].0),
        entries[j].1 is Composite,
    ensures
        spec_fold(entries, acc, now) == Err::<DecodeAcc, DecodeError>(DecodeError::InvalidSdValue),
    decreases entries.len(),
{
    lemma_keys_distinct();
    if j == 0 {
        assert(spec_step(acc, entries[0].0, entries[0].1, now) == Err::<DecodeAcc, DecodeError>(
            DecodeError::InvalidSdValue,
        ));
    } else {
        lemma_step_ok(acc, entries[0].0, entries[0].1, now);
        let acc2 = spec_step(acc, entries[0].0, entries[0].1, now)->Ok_0;
        assert(entries.drop_first()[j - 1] == entries[j]);
        assert forall|i: int| 0 <= i < j - 1 implies spec_entry_ok(
            (#[trigger] entries.drop_first()[i]).0,
            entries.drop_first()[i].1,
        ) by {
            assert(entries.drop_first()[i] == entries[i + 1]);
        }
        lemma_fold_composite(entries.drop_first(), acc2, now, j - 1);
    }
}

proof fn lemma_sd_seq_has_entry(entries: Seq<(Seq<char>, FlatModel)>, j: int)
    requires
        0 <= j < entries.len(),
        spec_is_extra(entries[j].0),
        !(entries[j].1 is Composite),
    ensures
        spec_sd_seq(entries).contains(
            (spec_normalize_key(entries[j].0), spec_sd_val(entries[j].1)->Some_0),
        ),
    decreases j,
{
    let pair = (spec_normalize_key(entries[j].0), spec_sd_val(entries[j].1)->Some_0);
    if j == 0 {
        assert(spec_sd_seq(entries)[0] == pair);
    } else {
        assert(entries.drop_first()[j - 1] == entries[j]);
        lemma_sd_seq_has_entry(entries.drop_first(), j - 1);
        let rest = spec_sd_seq(entries.drop_first());
        let i = choose|i: int| 0 <= i < rest.len() && rest[i] == pair;
        if spec_is_extra(entries[0].0) {
            assert(spec_sd_seq(entries)[i + 1] == pair);
        } else {
            assert(spec_sd_seq(entries)[i] == pair);
        }
    }
}

/// Every extra key of an accepted entry list appears in the decoded
/// record's structured data under its normalized name — the original key
/// with exactly one `_` prepended if it lacked one, else unchanged — with
/// its value mapped into the closed scalar set.
pub proof fn lemma_decode_extra_key_in_sd(entries: Seq<(Seq<char>, FlatModel)>, now: u64, j: int)
    requires
        spec_entries_ok(entries),
        0 <= j < entries.len(),
        spec_is_extra(entries[j].0),
    ensures
        spec_decode_entries(entries, now) matches Ok(r) && r.sd matches Some(sd)
            && sd.pairs.contains(
            (spec_normalize_key(entries[j].0), spec_sd_val(entries[j].1)->Some_0),
        ),
{
    lemma_keys_distinct();
    assert(spec_entry_ok(entries[j].0, entries[j].1));
    lemma_sd_seq_has_entry(entries, j);
    lemma_decode_sd_exact(entries, now);
    assert(spec_sd_seq(entries).len() > 0);
}

/// A key already beginning with `_` passes through normalization unchanged.
pub proof fn lemma_normalize_key_prefixed(k: Seq<char>)
    requires
        k.len() > 0,
        k[0] == '_',
    ensures
        spec_normalize_key(k) == k,
{
}

/// A key not beginning with `_` gets exactly one `_` prepended.
pub proof fn lemma_normalize_key_unprefixed(k: Seq<char>)
    requires
        k.len() == 0 || k[0] != '_',
    ensures
        spec_normalize_key(k) == seq!['_'] + k,
        spec_normalize_key(k).len() == k.len() + 1,
        spec_normalize_key(k)[0] == '_',
        spec_normalize_key(k).drop_first() == k,
{
    assert((seq!['_'] + k).drop_first() =~= k);
}

/// Normalizing an already-normalized key never doubles the prefix.
pub proof fn lemma_normalize_key_idempotent(k: Seq<char>)
    ensures
        spec_normalize_key(spec_normalize_key(k)) == spec_normalize_key(k),
{
    if !(k.len() > 0 && k[0] == '_') {
        assert((seq!['_'] + k)[0] == '_');
    }
}

} // verus!
