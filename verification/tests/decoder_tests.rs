use flowgger::decoder::{decode_entries, escape_newlines, normalize_key, DecodeError, Decoder,
    JsonDecoder};
use flowgger::json::FlatValue;
use flowgger::record::{SDValue, SEVERITY_MAX};

fn sd_has_str(pairs: &Vec<(String, SDValue)>, key: &str, want: &str) -> bool {
    pairs.iter().any(|(k, v)| {
        if let SDValue::Str(s) = v {
            k == key && s == want
        } else {
            false
        }
    })
}

#[test]
fn test_json_decoder() {
    let msg = r#"{"version":"1.1", "host": "example.org","short_message": "A short message that helps you identify what is going on", "full_message": "Backtrace here\n\nmore stuff", "timestamp": 1385053862.3072, "level": 1, "_user_id": 9001, "_some_info": "foo", "_some_env_var": "bar"}"#;
    let res = JsonDecoder.decode(msg).unwrap();
    assert!(f64::from_bits(res.ts) == 1_385_053_862.307_2);
    assert!(res.hostname == "example.org");
    assert!(res.severity.unwrap() == 1);

    let sd = res.sd.unwrap();
    let pairs = sd.pairs;
    // `short_message` and `full_message` are not recognized keys: they land
    // in structured data under the normalized names.
    assert!(sd_has_str(
        &pairs,
        "_short_message",
        "A short message that helps you identify what is going on"
    ));
    assert!(sd_has_str(&pairs, "_full_message", "Backtrace here\n\nmore stuff"));
    assert!(pairs.iter().cloned().any(|(k, v)| {
        if let SDValue::U64(v) = v {
            k == "_user_id" && v == 9001
        } else {
            false
        }
    }));
    assert!(sd_has_str(&pairs, "_some_info", "foo"));
    assert!(sd_has_str(&pairs, "_some_env_var", "bar"));
}

#[test]
fn test_json_decoder_bad_key() {
    let msg = r#"{"some_key": []}"#;
    let res = JsonDecoder.decode(&msg);
    let err = res.unwrap_err();
    assert_eq!(err, DecodeError::InvalidSdValue);
    assert_eq!(err.message(), "Invalid value type in structured data");
}

#[test]
fn test_json_decoder_bad_timestamp() {
    // An unparsable timestamp is not an error: the decoder falls back to the
    // current time.
    let msg = r#"{"timestamp": "a string not a timestamp", "host": "anhostname"}"#;
    let res = JsonDecoder.decode(&msg).unwrap();
    assert!(res.hostname == "anhostname");
}

#[test]
fn test_json_decoder_invalid_input() {
    let res = JsonDecoder.decode("{some_key = \"some_value\"}");
    let err = res.unwrap_err();
    assert_eq!(err, DecodeError::NotJson);
    assert_eq!(err.message(), "Unable to parse as a JSON object");
}

#[test]
fn test_json_decoder_severity_to_high() {
    let res = JsonDecoder.decode(format!("{{\"level\": {}}}", SEVERITY_MAX + 1).as_str());
    let err = res.unwrap_err();
    assert_eq!(err, DecodeError::SeverityTooHigh);
    assert_eq!(err.message(), "Invalid severity level (too high)");
}

#[test]
fn severity_within_range_is_taken() {
    for level in 0..=SEVERITY_MAX {
        let res = JsonDecoder.decode(format!("{{\"level\": {}}}", level).as_str()).unwrap();
        assert_eq!(res.severity, Some(level));
    }
}

#[test]
fn severity_far_above_the_range_is_rejected() {
    let err = JsonDecoder.decode(r#"{"level": 99999999999}"#).unwrap_err();
    assert_eq!(err, DecodeError::SeverityTooHigh);
}

#[test]
fn severity_not_an_unsigned_integer_is_rejected() {
    let err = JsonDecoder.decode(r#"{"level": "high"}"#).unwrap_err();
    assert_eq!(err, DecodeError::InvalidSeverity);
    let err = JsonDecoder.decode(r#"{"level": -3}"#).unwrap_err();
    assert_eq!(err, DecodeError::InvalidSeverity);
}

#[test]
fn hostname_defaults_to_unknown() {
    let res = JsonDecoder.decode(r#"{"level": 2}"#).unwrap();
    assert_eq!(res.hostname, "unknown");
    assert_eq!(res.severity, Some(2));
}

#[test]
fn host_must_be_a_string() {
    let err = JsonDecoder.decode(r#"{"host": 7}"#).unwrap_err();
    assert_eq!(err, DecodeError::HostNotString);
    assert_eq!(err.message(), "host name must be a string");
}

#[test]
fn message_must_be_a_string() {
    let err = JsonDecoder.decode(r#"{"message": false}"#).unwrap_err();
    assert_eq!(err, DecodeError::MessageNotString);
}

#[test]
fn message_is_taken() {
    let res = JsonDecoder.decode(r#"{"message": "hello there"}"#).unwrap();
    assert_eq!(res.msg.unwrap(), "hello there");
}

#[test]
fn top_level_must_be_an_object() {
    let err = JsonDecoder.decode("[1, 2, 3]").unwrap_err();
    assert_eq!(err, DecodeError::NotAnObject);
    assert_eq!(err.message(), "Empty JSON input");
}

#[test]
fn structured_data_scenario() {
    // {"host":"h1","level":3,"_x":1} decodes to hostname h1, severity 3, and
    // the single structured-data pair ("_x", 1).
    let res = JsonDecoder.decode(r#"{"host":"h1","level":3,"_x":1}"#).unwrap();
    assert_eq!(res.hostname, "h1");
    assert_eq!(res.severity, Some(3));
    let sd = res.sd.unwrap();
    assert_eq!(sd.pairs.len(), 1);
    assert_eq!(sd.pairs[0].0, "_x");
    assert_eq!(sd.pairs[0].1, SDValue::U64(1));
}

#[test]
fn structured_data_absent_iff_no_extra_keys() {
    let res = JsonDecoder
        .decode(r#"{"host":"h","message":"m","level":1,"timestamp":5}"#)
        .unwrap();
    assert!(res.sd.is_none());

    let res = JsonDecoder.decode(r#"{"host":"h","extra":null}"#).unwrap();
    let sd = res.sd.unwrap();
    assert_eq!(sd.pairs.len(), 1);
    assert_eq!(sd.pairs[0].0, "_extra");
    assert_eq!(sd.pairs[0].1, SDValue::Null);
}

#[test]
fn nested_object_value_is_rejected() {
    let err = JsonDecoder.decode(r#"{"some_key": {"a": 1}}"#).unwrap_err();
    assert_eq!(err, DecodeError::InvalidSdValue);
}

#[test]
fn keys_are_normalized_with_one_underscore() {
    let res = JsonDecoder.decode(r#"{"foo": "x", "_bar": "y"}"#).unwrap();
    let sd = res.sd.unwrap();
    let keys: Vec<&str> = sd.pairs.iter().map(|(k, _)| k.as_str()).collect();
    assert!(keys.contains(&"_foo"));
    assert!(keys.contains(&"_bar"));
    assert!(!keys.contains(&"__bar"));

    assert_eq!(normalize_key(&String::from("abc")), "_abc");
    assert_eq!(normalize_key(&String::from("_abc")), "_abc");
    assert_eq!(normalize_key(&String::from("")), "_");
    // Round-tripping never doubles the prefix.
    assert_eq!(normalize_key(&normalize_key(&String::from("abc"))), "_abc");
}

#[test]
fn structured_data_value_shapes() {
    let res = JsonDecoder
        .decode(r#"{"s":"v","b":true,"u":42,"i":-42,"f":1.5,"n":null}"#)
        .unwrap();
    let sd = res.sd.unwrap();
    let get = |key: &str| {
        sd.pairs.iter().find(|(k, _)| k == key).map(|(_, v)| v.clone()).unwrap()
    };
    assert_eq!(get("_s"), SDValue::Str(String::from("v")));
    assert_eq!(get("_b"), SDValue::Bool(true));
    assert_eq!(get("_u"), SDValue::U64(42));
    assert_eq!(get("_i"), SDValue::I64(-42));
    assert_eq!(get("_f"), SDValue::Float((1.5f64).to_bits()));
    assert_eq!(get("_n"), SDValue::Null);
}

#[test]
fn timestamp_number_is_kept_bit_exact() {
    let res = JsonDecoder.decode(r#"{"timestamp": 1385053862.3072}"#).unwrap();
    assert_eq!(f64::from_bits(res.ts), 1385053862.3072);
    let res = JsonDecoder.decode(r#"{"timestamp": 3}"#).unwrap();
    assert_eq!(f64::from_bits(res.ts), 3.0);
}

#[test]
fn escape_newlines_escapes_each_raw_newline() {
    assert_eq!(escape_newlines("a\nb"), "a\\nb");
    assert_eq!(escape_newlines("\n\n"), "\\n\\n");
    assert_eq!(escape_newlines("plain"), "plain");
    assert_eq!(escape_newlines(""), "");
}

#[test]
fn raw_newline_inside_string_is_repaired() {
    // A raw newline inside a JSON string is invalid JSON; the decoder
    // re-attempts with the newline escaped and then succeeds.
    let res = JsonDecoder.decode("{\"host\": \"a\nb\"}").unwrap();
    assert_eq!(res.hostname, "a\nb");
}

#[test]
fn decode_entries_follows_the_model() {
    // The exact, fully verified entry point: classified entries in, record
    // out, with `now` supplied by the caller.
    let entries = vec![
        (String::from("host"), FlatValue::Str(String::from("h9"))),
        (String::from("level"), FlatValue::Num { bits: 0, as_uint: Some(5), as_int: Some(5) }),
        (String::from("k"), FlatValue::Bool(false)),
    ];
    let rec = decode_entries(&entries, 77).unwrap();
    assert_eq!(rec.hostname, "h9");
    assert_eq!(rec.severity, Some(5));
    assert_eq!(rec.ts, 77);
    let sd = rec.sd.unwrap();
    assert_eq!(sd.pairs.len(), 1);
    assert_eq!(sd.pairs[0], (String::from("_k"), SDValue::Bool(false)));

    let entries = vec![(String::from("deep"), FlatValue::Composite)];
    assert_eq!(decode_entries(&entries, 0).unwrap_err(), DecodeError::InvalidSdValue);
}
