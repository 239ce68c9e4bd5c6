use flowgger::kafka::{ack_of, after_send, compression_of, wants_tls, AckLevel, BrokerAction,
    BrokerEvent, CompressionKind, ConfigError, KafkaOutput, KafkaSettings, KafkaWorker,
    SendOutcome, SendVerdict};

fn settings(brokers: Option<Vec<String>>, topic: Option<String>) -> KafkaSettings {
    KafkaSettings {
        acks: None,
        brokers,
        topic,
        timeout_ms: None,
        threads: None,
        coalesce: None,
        compression: None,
        ssl_cert_path: None,
        ssl_key_path: None,
        ssl_ca_cert_path: None,
        ssl_host_verify: None,
    }
}

fn minimal_settings() -> KafkaSettings {
    settings(Some(vec![String::from("broker1:9092")]), Some(String::from("logs")))
}

#[test]
fn brokers_and_topic_are_required() {
    let err = KafkaOutput::new(settings(None, Some(String::from("logs")))).unwrap_err();
    assert_eq!(err, ConfigError::MissingBrokers);
    let err = KafkaOutput::new(settings(Some(vec![String::from("b:9092")]), None)).unwrap_err();
    assert_eq!(err, ConfigError::MissingTopic);
}

#[test]
fn defaults_apply_when_options_are_absent() {
    let out = KafkaOutput::new(minimal_settings()).unwrap();
    assert_eq!(out.config.acks, AckLevel::NoAck);
    assert_eq!(out.config.timeout_ms, 60_000);
    assert_eq!(out.config.coalesce, 1);
    assert_eq!(out.config.compression, CompressionKind::Uncompressed);
    assert_eq!(out.config.ssl_host_verify, true);
    assert_eq!(out.threads, 1);
    assert_eq!(out.config.brokers, vec![String::from("broker1:9092")]);
    assert_eq!(out.config.topic, "logs");
}

#[test]
fn acknowledgement_levels_map_exactly() {
    assert_eq!(ack_of(-1), Some(AckLevel::AllReplicas));
    assert_eq!(ack_of(0), Some(AckLevel::NoAck));
    assert_eq!(ack_of(1), Some(AckLevel::LeaderOnly));
    assert_eq!(ack_of(2), None);

    let mut s = minimal_settings();
    s.acks = Some(-1);
    assert_eq!(KafkaOutput::new(s).unwrap().config.acks, AckLevel::AllReplicas);
    let mut s = minimal_settings();
    s.acks = Some(7);
    assert_eq!(KafkaOutput::new(s).unwrap_err(), ConfigError::InvalidAcks);
}

#[test]
fn compression_names_are_case_insensitive() {
    assert_eq!(compression_of("none"), Some(CompressionKind::Uncompressed));
    assert_eq!(compression_of("GZIP"), Some(CompressionKind::Gzip));
    assert_eq!(compression_of("Snappy"), Some(CompressionKind::Snappy));
    assert_eq!(compression_of("zstd"), None);

    let mut s = minimal_settings();
    s.compression = Some(String::from("Gzip"));
    assert_eq!(KafkaOutput::new(s).unwrap().config.compression, CompressionKind::Gzip);
    let mut s = minimal_settings();
    s.compression = Some(String::from("zstd"));
    assert_eq!(KafkaOutput::new(s).unwrap_err(), ConfigError::InvalidCompression);
}

#[test]
fn tls_needs_both_certificate_and_key() {
    let out = KafkaOutput::new(minimal_settings()).unwrap();
    assert!(!wants_tls(&out.config));

    let mut s = minimal_settings();
    s.ssl_cert_path = Some(String::from("/etc/ssl/client.pem"));
    let out = KafkaOutput::new(s).unwrap();
    assert!(!wants_tls(&out.config));

    let mut s = minimal_settings();
    s.ssl_cert_path = Some(String::from("/etc/ssl/client.pem"));
    s.ssl_key_path = Some(String::from("/etc/ssl/client.key"));
    let out = KafkaOutput::new(s).unwrap();
    assert!(wants_tls(&out.config));
}

fn worker_with_coalesce(coalesce: usize) -> KafkaWorker {
    let mut s = minimal_settings();
    s.coalesce = Some(coalesce);
    KafkaWorker::new(KafkaOutput::new(s).unwrap().config)
}

#[test]
fn unbatched_worker_delivers_each_record_alone() {
    let mut w = worker_with_coalesce(1);
    match w.on_event(BrokerEvent::Received(b"r1".to_vec())) {
        BrokerAction::Deliver(batch) => assert_eq!(batch, vec![b"r1".to_vec()]),
        _ => panic!("expected an immediate delivery"),
    }
    assert_eq!(w.buffered_len(), 0);
}

#[test]
fn coalesce_three_with_seven_records_sends_two_batches_and_buffers_one() {
    let mut w = worker_with_coalesce(3);
    let mut deliveries: Vec<Vec<Vec<u8>>> = Vec::new();
    for i in 0..7u8 {
        match w.on_event(BrokerEvent::Received(vec![i])) {
            BrokerAction::Deliver(batch) => deliveries.push(batch),
            BrokerAction::Buffered => {},
            BrokerAction::Finish => panic!("not the end of the stream"),
        }
    }
    assert_eq!(deliveries.len(), 2);
    assert_eq!(deliveries[0], vec![vec![0u8], vec![1], vec![2]]);
    assert_eq!(deliveries[1], vec![vec![3u8], vec![4], vec![5]]);
    // The seventh record stays buffered until a third batch fills.
    assert_eq!(w.buffered_len(), 1);
}

#[test]
fn end_of_stream_finishes_the_loop() {
    let mut w = worker_with_coalesce(3);
    assert!(matches!(w.on_event(BrokerEvent::Received(b"only".to_vec())),
        BrokerAction::Buffered));
    assert!(matches!(w.on_event(BrokerEvent::Closed), BrokerAction::Finish));
    // The partial batch is left unsent, as configured fail-fast forwarding
    // has nothing more to wait for.
    assert_eq!(w.buffered_len(), 1);
}

#[test]
fn transport_failure_is_fatal_not_retried() {
    assert_eq!(after_send(SendOutcome::TransportError), SendVerdict::FatalStop);
    assert_eq!(after_send(SendOutcome::Delivered), SendVerdict::Proceed);
}
