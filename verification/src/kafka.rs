//! The broker-output stage: configuration validation, the per-worker
//! batching (coalescing) discipline, and the fail-fast delivery policy.
//!
//! The network itself is driven from outside: a delivery loop takes each
//! queue event to `KafkaWorker::on_event`, performs the `Deliver` actions it
//! returns against the broker, and reports every send's outcome to
//! `after_send`, whose verdict is fatal on any transport failure — better a
//! loud stop than records dropped in silence.

use vstd::prelude::*;

verus! {

/// How many broker replicas must confirm receipt before a send counts as
/// successful.
#[derive(Clone, Copy, Debug, PartialEq, Eq, Structural)]
pub enum AckLevel {
    /// Every in-sync replica must acknowledge (configuration value -1).
    AllReplicas,
    /// No acknowledgement required (configuration value 0, the default).
    NoAck,
    /// The partition leader alone must acknowledge (configuration value 1).
    LeaderOnly,
}

/// The compression applied to outgoing batches.
#[derive(Clone, Copy, Debug, PartialEq, Eq, Structural)]
pub enum CompressionKind {
    Uncompressed,
    Gzip,
    Snappy,
}

/// Why the broker sink's configuration was rejected at startup.
#[derive(Clone, Copy, Debug, PartialEq, Eq, Structural)]
pub enum ConfigError {
    /// The broker address list is required.
    MissingBrokers,
    /// The topic is required.
    MissingTopic,
    /// The acknowledgement level is not one of -1, 0, 1.
    InvalidAcks,
    /// The compression name is not one of none, gzip, snappy.
    InvalidCompression,
}

/// The raw options recognized by the broker sink, as a configuration loader
/// hands them over: each either absent or already of its carrier type.
pub struct KafkaSettings {
    pub acks: Option<i16>,
    pub brokers: Option<Vec<String>>,
    pub topic: Option<String>,
    pub timeout_ms: Option<u64>,
    pub threads: Option<u32>,
    pub coalesce: Option<usize>,
    pub compression: Option<String>,
    pub ssl_cert_path: Option<String>,
    pub ssl_key_path: Option<String>,
    pub ssl_ca_cert_path: Option<String>,
    pub ssl_host_verify: Option<bool>,
}

/// A validated broker-sink configuration.
#[derive(Clone, Debug)]
pub struct KafkaConfig {
    pub acks: AckLevel,
    pub brokers: Vec<String>,
    pub topic: String,
    pub timeout_ms: u64,
    pub coalesce: usize,
    pub compression: CompressionKind,
    pub ssl_cert_path: Option<String>,
    pub ssl_key_path: Option<String>,
    pub ssl_ca_cert_path: Option<String>,
    pub ssl_host_verify: bool,
}

/// The default acknowledgement setting.
pub const KAFKA_DEFAULT_ACKS: i16 = 0;

/// The default coalesce size: one, meaning no batching.
pub const KAFKA_DEFAULT_COALESCE: usize = 1;

/// The default number of delivery threads.
pub const KAFKA_DEFAULT_THREADS: u32 = 1;

/// The default per-send timeout, in milliseconds.
pub const KAFKA_DEFAULT_TIMEOUT: u64 = 60_000;

/// The acknowledgement level a configuration value denotes, if any.
pub open spec fn spec_ack_of(a: i16) -> Option<AckLevel> {
    if a == -1i16 {
        Some(AckLevel::AllReplicas)
    } else if a == 0i16 {
        Some(AckLevel::NoAck)
    } else if a == 1i16 {
        Some(AckLevel::LeaderOnly)
    } else {
        None
    }
}

/// Maps a configuration value to its acknowledgement level.
pub fn ack_of(a: i16) -> (r: Option<AckLevel>)
    ensures
        r == spec_ack_of(a),
{
    if a == -1 {
        Some(AckLevel::AllReplicas)
    } else if a == 0 {
        Some(AckLevel::NoAck)
    } else if a == 1 {
        Some(AckLevel::LeaderOnly)
    } else {
        None
    }
}

/// An upper-case ASCII letter folded to lower case; every other character
/// unchanged.
pub open spec fn spec_lower_char(c: char) -> char {
    if 65 <= c as u32 && c as u32 <= 90 {
        (((c as u32) + 32) as u8) as char
    } else {
        c
    }
}

/// A string folded to lower case, character by character.
pub open spec fn spec_ascii_lower(s: Seq<char>) -> Seq<char> {
    s.map_values(|c: char| spec_lower_char(c))
}

fn lower_char(c: char) -> (r: char)
    ensures
        r == spec_lower_char(c),
{
    let cu = c as u32;
    if 65 <= cu && cu <= 90 {
        ((cu + 32) as u8) as char
    } else {
        c
    }
}

/// Whether `s`, folded to lower case, equals `lit` exactly.
fn matches_nocase(s: &str, lit: &str) -> (r: bool)
    ensures
        r == (spec_ascii_lower(s@) == lit@),
{
    let n = s.unicode_len();
    let m = lit.unicode_len();
    if n != m {
        proof {
            assert(spec_ascii_lower(s@).len() == s@.len());
        }
        return false;
    }
    let mut i: usize = 0;
    while i < n
        invariant
            0 <= i <= n,
            n == s@.len(),
            n == lit@.len(),
            forall|j: int| 0 <= j < i ==> spec_lower_char(s@[j]) == lit@[j],
        decreases n - i,
    {
        if lower_char(s.get_char(i)) != lit.get_char(i) {
            proof {
                assert(spec_ascii_lower(s@)[i as int] != lit@[i as int]);
            }
            return false;
        }
        i = i + 1;
    }
    proof {
        assert(spec_ascii_lower(s@) =~= lit@);
    }
    true
}

/// The compression a configured name denotes, compared without regard to
/// ASCII case, if any.
pub open spec fn spec_compression_of(s: Seq<char>) -> Option<CompressionKind> {
    if spec_ascii_lower(s) == "none"@ {
        Some(CompressionKind::Uncompressed)
    } else if spec_ascii_lower(s) == "gzip"@ {
        Some(CompressionKind::Gzip)
    } else if spec_ascii_lower(s) == "snappy"@ {
        Some(CompressionKind::Snappy)
    } else {
        None
    }
}

/// Maps a configured compression name to its kind.
pub fn compression_of(s: &str) -> (r: Option<CompressionKind>)
    ensures
        r == spec_compression_of(s@),
{
    if matches_nocase(s, "none") {
        Some(CompressionKind::Uncompressed)
    } else if matches_nocase(s, "gzip") {
        Some(CompressionKind::Gzip)
    } else if matches_nocase(s, "snappy") {
        Some(CompressionKind::Snappy)
    } else {
        None
    }
}

/// The broker sink as configured: a validated configuration and the number
/// of delivery threads that will share the queue's consuming end.
#[derive(Clone, Debug)]
pub struct KafkaOutput {
    pub config: KafkaConfig,
    pub threads: u32,
}

impl KafkaOutput {
    /// Validates the recognized options: broker list and topic are
    /// required, the acknowledgement level must be one of -1, 0, 1, the
    /// compression name one of none, gzip, snappy (case-insensitive);
    /// everything else defaults. Configuration errors are fatal at startup,
    /// before any worker is spawned.
    pub fn new(settings: KafkaSettings) -> (r: Result<KafkaOutput, ConfigError>)
        ensures
            settings.brokers is None ==> r == Err::<KafkaOutput, ConfigError>(
                ConfigError::MissingBrokers,
            ),
            settings.brokers is Some && settings.topic is None ==> r == Err::<
                KafkaOutput,
                ConfigError,
            >(ConfigError::MissingTopic),
            settings.brokers is Some && settings.topic is Some && spec_ack_of(
                settings.acks.unwrap_or(KAFKA_DEFAULT_ACKS),
            ) is None ==> r == Err::<KafkaOutput, ConfigError>(ConfigError::InvalidAcks),
            settings.brokers is Some && settings.topic is Some && spec_ack_of(
                settings.acks.unwrap_or(KAFKA_DEFAULT_ACKS),
            ) is Some && (settings.compression matches Some(c) && spec_compression_of(c@) is None)
                ==> r == Err::<KafkaOutput, ConfigError>(ConfigError::InvalidCompression),
            r matches Ok(out) ==> {
                &&& settings.brokers matches Some(b) && out.config.brokers.deep_view()
                    == b.deep_view()
                &&& settings.topic matches Some(t) && out.config.topic@ == t@
                &&& Some(out.config.acks) == spec_ack_of(
                    settings.acks.unwrap_or(KAFKA_DEFAULT_ACKS),
                )
                &&& out.config.timeout_ms == settings.timeout_ms.unwrap_or(KAFKA_DEFAULT_TIMEOUT)
                &&& out.config.coalesce == settings.coalesce.unwrap_or(KAFKA_DEFAULT_COALESCE)
                &&& Some(out.config.compression) == (match settings.compression {
                    Some(c) => spec_compression_of(c@),
                    None => Some(CompressionKind::Uncompressed),
                })
                &&& out.config.ssl_cert_path.deep_view() == settings.ssl_cert_path.deep_view()
                &&& out.config.ssl_key_path.deep_view() == settings.ssl_key_path.deep_view()
                &&& out.config.ssl_ca_cert_path.deep_view()
                    == settings.ssl_ca_cert_path.deep_view()
                &&& out.config.ssl_host_verify == settings.ssl_host_verify.unwrap_or(true)
                &&& out.threads == settings.threads.unwrap_or(KAFKA_DEFAULT_THREADS)
            },
            r is Ok <==> (settings.brokers is Some && settings.topic is Some && spec_ack_of(
                settings.acks.unwrap_or(KAFKA_DEFAULT_ACKS),
            ) is Some && (match settings.compression {
                Some(c) => spec_compression_of(c@) is Some,
                None => true,
            })),
    {
        let brokers = match settings.brokers {
            Some(b) => b,
            None => {
                return Err(ConfigError::MissingBrokers);
            },
        };
        let topic = match settings.topic {
            Some(t) => t,
            None => {
                return Err(ConfigError::MissingTopic);
            },
        };
        let acks_raw = settings.acks.unwrap_or(KAFKA_DEFAULT_ACKS);
        let acks = match ack_of(acks_raw) {
            Some(a) => a,
            None => {
                return Err(ConfigError::InvalidAcks);
            },
        };
        let compression = match settings.compression {
            Some(name) => match compression_of(name.as_str()) {
                Some(k) => k,
                None => {
                    return Err(ConfigError::InvalidCompression);
                },
            },
            None => CompressionKind::Uncompressed,
        };
        let config = KafkaConfig {
            acks,
            brokers,
            topic,
            timeout_ms: settings.timeout_ms.unwrap_or(KAFKA_DEFAULT_TIMEOUT),
            coalesce: settings.coalesce.unwrap_or(KAFKA_DEFAULT_COALESCE),
            compression,
            ssl_cert_path: settings.ssl_cert_path,
            ssl_key_path: settings.ssl_key_path,
            ssl_ca_cert_path: settings.ssl_ca_cert_path,
            ssl_host_verify: settings.ssl_host_verify.unwrap_or(true),
        };
        Ok(KafkaOutput { config, threads: settings.threads.unwrap_or(KAFKA_DEFAULT_THREADS) })
    }
}

/// Whether a configuration asks for a TLS connection: it does exactly when
/// both a client certificate and a key are supplied.
pub fn wants_tls(config: &KafkaConfig) -> (r: bool)
    ensures
        r == (config.ssl_cert_path is Some && config.ssl_key_path is Some),
{
    config.ssl_cert_path.is_some() && config.ssl_key_path.is_some()
}

/// One event a delivery worker observes on the queue's consuming end.
pub enum BrokerEvent {
    /// One encoded record was dequeued.
    Received(Vec<u8>),
    /// The producing side is gone and the queue is drained.
    Closed,
}

/// What a delivery worker must do next.
pub enum BrokerAction {
    /// Send these records to the broker as one batch, in this order.
    Deliver(Vec<Vec<u8>>),
    /// Nothing to send yet: the record was buffered toward a full batch.
    Buffered,
    /// Exit the delivery loop normally (end of stream).
    Finish,
}

/// The outcome the broker reported for one send.
#[derive(Clone, Copy, Debug, PartialEq, Eq, Structural)]
pub enum SendOutcome {
    /// The send succeeded at the configured acknowledgement level.
    Delivered,
    /// A transport-level failure: broker unreachable or acknowledgement
    /// timeout.
    TransportError,
}

/// What the process must do after a send's outcome.
#[derive(Clone, Copy, Debug, PartialEq, Eq, Structural)]
pub enum SendVerdict {
    /// Keep delivering.
    Proceed,
    /// Report the failure and terminate the whole process: fail fast rather
    /// than drop records silently.
    FatalStop,
}

/// One delivery worker's decision state: its configuration and the records
/// accumulated toward the next batch.
pub struct KafkaWorker {
    pub config: KafkaConfig,
    pub batch: Vec<Vec<u8>>,
}

impl KafkaWorker {
    /// The records accumulated toward the next batch, in arrival order.
    pub open spec fn batched(&self) -> Seq<Seq<u8>> {
        self.batch.deep_view()
    }

    /// A worker never holds a full batch between events.
    pub open spec fn wf(&self) -> bool {
        self.config.coalesce > 1 ==> self.batched().len() < self.config.coalesce
    }

    /// A fresh worker for this configuration, with an empty batch.
    pub fn new(config: KafkaConfig) -> (w: KafkaWorker)
        ensures
            w.batched() == Seq::<Seq<u8>>::empty(),
            w.config == config,
            w.wf(),
    {
        let w = KafkaWorker { config, batch: Vec::new() };
        proof {
            assert(w.batched() =~= Seq::<Seq<u8>>::empty());
        }
        w
    }

    /// How many records are buffered toward the next batch.
    pub fn buffered_len(&self) -> (n: usize)
        ensures
            n == self.batched().len(),
    {
        self.batch.len()
    }

    /// The decision for one queue event. Unbatched (coalesce at most 1):
    /// deliver each record at once, alone. Batched: accumulate, and deliver
    /// the whole batch exactly when it reaches the coalesce size. End of
    /// stream finishes the loop; records still buffered stay unsent.
    pub fn on_event(&mut self, ev: BrokerEvent) -> (a: BrokerAction)
        requires
            old(self).wf(),
        ensures
            final(self).wf(),
            final(self).config == old(self).config,
            match ev {
                BrokerEvent::Received(bytes) => {
                    if old(self).config.coalesce <= 1 {
                        &&& a matches BrokerAction::Deliver(batch) && batch.deep_view() == seq![
                            bytes@,
                        ]
                        &&& final(self).batched() == old(self).batched()
                    } else if old(self).batched().len() + 1 >= old(self).config.coalesce {
                        &&& a matches BrokerAction::Deliver(batch) && batch.deep_view() == old(
                            self,
                        ).batched().push(bytes@)
                        &&& final(self).batched() == Seq::<Seq<u8>>::empty()
                    } else {
                        &&& a is Buffered
                        &&& final(self).batched() == old(self).batched().push(bytes@)
                    }
                },
                BrokerEvent::Closed => a is Finish && final(self).batched() == old(self).batched(),
            },
    {
        match ev {
            BrokerEvent::Received(bytes) => {
                if self.config.coalesce <= 1 {
                    let mut one: Vec<Vec<u8>> = Vec::new();
                    one.push(bytes);
                    proof {
                        assert(one.deep_view() =~~= seq![one@[0]@]);
                    }
                    BrokerAction::Deliver(one)
                } else {
                    let ghost pushed = bytes@;
                    self.batch.push(bytes);
                    proof {
                        assert(self.batch.deep_view() =~~= old(self).batched().push(pushed));
                    }
                    if self.batch.len() >= self.config.coalesce {
                        let mut full: Vec<Vec<u8>> = Vec::new();
                        core::mem::swap(&mut full, &mut self.batch);
                        proof {
                            assert(self.batch.deep_view() =~= Seq::<Seq<u8>>::empty());
                        }
                        BrokerAction::Deliver(full)
                    } else {
                        BrokerAction::Buffered
                    }
                }
            },
            BrokerEvent::Closed => BrokerAction::Finish,
        }
    }
}

/// The fail-fast policy: a transport failure, and nothing else, is fatal to
/// the whole process — the sink stops forwarding loudly rather than retry
/// or drop records in silence.
pub fn after_send(outcome: SendOutcome) -> (v: SendVerdict)
    ensures
        v == SendVerdict::FatalStop <==> outcome == SendOutcome::TransportError,
        v == SendVerdict::Proceed <==> outcome == SendOutcome::Delivered,
{
    match outcome {
        SendOutcome::Delivered => SendVerdict::Proceed,
        SendOutcome::TransportError => SendVerdict::FatalStop,
    }
}

} // verus!
