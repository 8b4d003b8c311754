//! Gateway configuration: its shape, its defaults and its validation.

use vstd::prelude::*;

use crate::error::GatewayError;
use crate::protocols::ProtocolType;
use crate::security::SecurityMode;
use crate::text::{str_eq, FieldMap};

verus! {

/// Default queue size of the pipeline's channel.
pub const DEFAULT_QUEUE_SIZE: usize = 1000;

/// Default connection timeout of the IP-framed transport, in seconds.
pub const DEFAULT_TIMEOUT_SECS: u64 = 30;

/// Default idle timeout of an IP-framed session, in seconds.
pub const DEFAULT_IDLE_TIMEOUT_SECS: u64 = 300;

/// Default priority of a translation rule.
pub const DEFAULT_RULE_PRIORITY: u8 = 5;

/// Highest address of a remote terminal.
pub const MAX_TERMINAL: u8 = 31;

/// General settings.
#[derive(Debug)]
pub struct GeneralConfig {
    pub name: String,
    pub log_level: String,
    /// Worker threads; 0 picks the machine's parallelism.
    pub workers: usize,
    pub queue_size: usize,
}

/// Security settings.
#[derive(Debug)]
pub struct SecurityConfig {
    pub key_storage_path: Option<String>,
    pub default_encryption_key: String,
    pub default_signing_key: String,
    pub default_security_mode: SecurityMode,
    pub key_rotation_days: Option<u64>,
}

/// Settings of the legacy bus.
#[derive(Debug)]
pub struct MilStd1553Config {
    pub interface: String,
    pub simulated: bool,
    pub remote_terminals: Vec<u8>,
}

/// Settings of the IP-framed transport.
#[derive(Debug)]
pub struct EthernetIpConfig {
    pub bind_address: String,
    pub port: u16,
    pub timeout_secs: u64,
    pub idle_timeout_secs: u64,
}

/// Settings of both transports.
#[derive(Debug)]
pub struct ProtocolsConfig {
    pub mil_std_1553: MilStd1553Config,
    pub ethernet_ip: EthernetIpConfig,
}

/// How a rule transforms the messages it routes.
#[derive(Debug)]
pub enum TransformType {
    /// Fields set by name; `priority` is the one recognized key.
    FieldMap(FieldMap),
    /// A registered transform module, by name.
    Custom(String),
    /// No change beyond the target protocol.
    Identity,
}

/// A rule that routes one category of messages to the other protocol.
#[derive(Debug)]
pub struct TranslationRule {
    pub name: String,
    pub source: ProtocolType,
    pub target: ProtocolType,
    /// Lower values win.
    pub priority: u8,
    /// Conditions on the message; an empty map matches every message.
    pub filter: FieldMap,
    pub transform: Option<TransformType>,
    pub security_mode: SecurityMode,
}

/// The whole configuration.
#[derive(Debug)]
pub struct Config {
    pub general: GeneralConfig,
    pub security: SecurityConfig,
    pub protocols: ProtocolsConfig,
    pub translation_rules: Vec<TranslationRule>,
}

/// Whether two transforms are the same.
pub open spec fn same_transform(a: Option<TransformType>, b: Option<TransformType>) -> bool {
    match (a, b) {
        (None, None) => true,
        (Some(TransformType::FieldMap(x)), Some(TransformType::FieldMap(y))) => x@ == y@,
        (Some(TransformType::Custom(x)), Some(TransformType::Custom(y))) => x@ == y@,
        (Some(TransformType::Identity), Some(TransformType::Identity)) => true,
        _ => false,
    }
}

/// Whether two rules are the same.
pub open spec fn same_rule(a: TranslationRule, b: TranslationRule) -> bool {
    &&& a.name@ == b.name@
    &&& a.source == b.source
    &&& a.target == b.target
    &&& a.priority == b.priority
    &&& a.filter@ == b.filter@
    &&& same_transform(a.transform, b.transform)
    &&& a.security_mode == b.security_mode
}

impl Clone for TransformType {
    fn clone(&self) -> (r: TransformType)
        ensures
            same_transform(Some(r), Some(*self)),
    {
        match self {
            TransformType::FieldMap(m) => TransformType::FieldMap(m.clone()),
            TransformType::Custom(n) => TransformType::Custom(n.clone()),
            TransformType::Identity => TransformType::Identity,
        }
    }
}

impl Clone for TranslationRule {
    fn clone(&self) -> (r: TranslationRule)
        ensures
            same_rule(r, *self),
    {
        let transform = match &self.transform {
            Some(t) => Some(t.clone()),
            None => None,
        };
        TranslationRule {
            name: self.name.clone(),
            source: self.source,
            target: self.target,
            priority: self.priority,
            filter: self.filter.clone(),
            transform,
            security_mode: self.security_mode,
        }
    }
}

pub fn default_log_level() -> (r: String)
    ensures
        r@ == "info"@,
{
    String::from_str("info")
}

pub fn default_queue_size() -> (r: usize)
    ensures
        r == DEFAULT_QUEUE_SIZE,
{
    DEFAULT_QUEUE_SIZE
}

pub fn default_timeout() -> (r: u64)
    ensures
        r == DEFAULT_TIMEOUT_SECS,
{
    DEFAULT_TIMEOUT_SECS
}

pub fn default_idle_timeout() -> (r: u64)
    ensures
        r == DEFAULT_IDLE_TIMEOUT_SECS,
{
    DEFAULT_IDLE_TIMEOUT_SECS
}

pub fn default_priority() -> (r: u8)
    ensures
        r == DEFAULT_RULE_PRIORITY,
{
    DEFAULT_RULE_PRIORITY
}

/// Levels of logging.
#[derive(Clone, Copy, Debug, PartialEq, Eq, Structural)]
pub enum LogLevel {
    Trace,
    Debug,
    Info,
    Warn,
    Error,
}

/// The level a lowercase level name selects; unknown names select `Info`.
pub open spec fn level_of(lowered: Seq<char>) -> LogLevel {
    if lowered == "trace"@ {
        LogLevel::Trace
    } else if lowered == "debug"@ {
        LogLevel::Debug
    } else if lowered == "warn"@ {
        LogLevel::Warn
    } else if lowered == "error"@ {
        LogLevel::Error
    } else {
        LogLevel::Info
    }
}

/// The lowercase form of a string, as std's `str::to_lowercase` gives it.
pub uninterp spec fn lowercase_of(s: Seq<char>) -> Seq<char>;

/// Relies on std's `str::to_lowercase`: a result that depends on the
/// characters alone.
#[verifier::external_body]
fn to_lowercase(s: &str) -> (r: String)
    ensures
        r@ == lowercase_of(s@),
{
    s.to_lowercase()
}

/// The level that a lowercase level name selects.
pub fn log_level_from(lowered: &str) -> (r: LogLevel)
    ensures
        r == level_of(lowered@),
{
    if str_eq(lowered, "trace") {
        LogLevel::Trace
    } else if str_eq(lowered, "debug") {
        LogLevel::Debug
    } else if str_eq(lowered, "warn") {
        LogLevel::Warn
    } else if str_eq(lowered, "error") {
        LogLevel::Error
    } else {
        LogLevel::Info
    }
}

/// Whether a configuration is acceptable: both default key ids set, every
/// remote terminal at most 31, a non-zero port, and every rule named and
/// between two different protocols.
pub open spec fn config_valid(c: Config) -> bool {
    &&& c.security.default_encryption_key@.len() > 0
    &&& c.security.default_signing_key@.len() > 0
    &&& forall|i: int|
        0 <= i < c.protocols.mil_std_1553.remote_terminals@.len()
            ==> #[trigger] c.protocols.mil_std_1553.remote_terminals@[i] <= MAX_TERMINAL
    &&& c.protocols.ethernet_ip.port != 0
    &&& forall|i: int|
        0 <= i < c.translation_rules@.len() ==> (#[trigger] c.translation_rules@[i]).name@.len() > 0
            && c.translation_rules@[i].source != c.translation_rules@[i].target
}

impl Config {
    /// The built-in configuration: an in-memory-simulated bus with terminals
    /// 1 to 5, port 44818, and one rule each way.
    pub fn default() -> (r: Config)
        ensures
            config_valid(r),
            r.general.queue_size == DEFAULT_QUEUE_SIZE,
            r.general.workers == 0,
            r.security.default_encryption_key@ == "default-encryption"@,
            r.security.default_signing_key@ == "default-signing"@,
            r.security.default_security_mode == SecurityMode::EncryptedAndSigned,
            r.security.key_rotation_days == Some(30u64),
            r.protocols.ethernet_ip.port == 44818,
            r.protocols.ethernet_ip.timeout_secs == DEFAULT_TIMEOUT_SECS,
            r.protocols.ethernet_ip.idle_timeout_secs == DEFAULT_IDLE_TIMEOUT_SECS,
            r.protocols.mil_std_1553.remote_terminals@ == seq![1u8, 2, 3, 4, 5],
            r.translation_rules@.len() == 2,
            r.translation_rules@[0].name@ == "mil-to-ethernet"@,
            r.translation_rules@[1].name@ == "ethernet-to-mil"@,
            r.general.name@ == "secure-gateway"@,
            r.general.log_level@ == "info"@,
            r.security.key_storage_path matches Some(p) && p@ == "keys.bin"@,
            r.protocols.mil_std_1553.interface@ == "sim0"@,
            r.protocols.mil_std_1553.simulated,
            r.protocols.ethernet_ip.bind_address@ == "0.0.0.0"@,
            r.translation_rules@[0].source == ProtocolType::MilStd1553,
            r.translation_rules@[0].target == ProtocolType::EthernetIp,
            r.translation_rules@[1].source == ProtocolType::EthernetIp,
            r.translation_rules@[1].target == ProtocolType::MilStd1553,
            forall|i: int|
                0 <= i < 2 ==> (#[trigger] r.translation_rules@[i]).priority == DEFAULT_RULE_PRIORITY
                    && r.translation_rules@[i].filter@ == Map::<Seq<char>, Seq<char>>::empty()
                    && r.translation_rules@[i].transform == Some(TransformType::Identity)
                    && r.translation_rules@[i].security_mode == SecurityMode::EncryptedAndSigned,
    {
        proof {
            reveal_strlit("default-encryption");
            reveal_strlit("default-signing");
            reveal_strlit("mil-to-ethernet");
            reveal_strlit("ethernet-to-mil");
        }
        let rules = vec![
            TranslationRule {
                name: String::from_str("mil-to-ethernet"),
                source: ProtocolType::MilStd1553,
                target: ProtocolType::EthernetIp,
                priority: default_priority(),
                filter: FieldMap::new(),
                transform: Some(TransformType::Identity),
                security_mode: SecurityMode::EncryptedAndSigned,
            },
            TranslationRule {
                name: String::from_str("ethernet-to-mil"),
                source: ProtocolType::EthernetIp,
                target: ProtocolType::MilStd1553,
                priority: default_priority(),
                filter: FieldMap::new(),
                transform: Some(TransformType::Identity),
                security_mode: SecurityMode::EncryptedAndSigned,
            },
        ];
        let r = Config {
            general: GeneralConfig {
                name: String::from_str("secure-gateway"),
                log_level: default_log_level(),
                workers: 0,
                queue_size: default_queue_size(),
            },
            security: SecurityConfig {
                key_storage_path: Some(String::from_str("keys.bin")),
                default_encryption_key: String::from_str("default-encryption"),
                default_signing_key: String::from_str("default-signing"),
                default_security_mode: SecurityMode::EncryptedAndSigned,
                key_rotation_days: Some(30),
            },
            protocols: ProtocolsConfig {
                mil_std_1553: MilStd1553Config {
                    interface: String::from_str("sim0"),
                    simulated: true,
                    remote_terminals: vec![1, 2, 3, 4, 5],
                },
                ethernet_ip: EthernetIpConfig {
                    bind_address: String::from_str("0.0.0.0"),
                    port: 44818,
                    timeout_secs: default_timeout(),
                    idle_timeout_secs: default_idle_timeout(),
                },
            },
            translation_rules: rules,
        };
        assert(r.protocols.mil_std_1553.remote_terminals@ =~= seq![1u8, 2, 3, 4, 5]);
        r
    }

    /// Checks the configuration; fails with `Config` where `config_valid`
    /// does not hold.
    pub fn validate(&self) -> (r: Result<(), GatewayError>)
        ensures
            r is Ok <==> config_valid(*self),
            r matches Err(e) ==> e == GatewayError::Config,
    {
        if self.security.default_encryption_key.unicode_len() == 0 {
            return Err(GatewayError::Config);
        }
        if self.security.default_signing_key.unicode_len() == 0 {
            return Err(GatewayError::Config);
        }
        let rts = &self.protocols.mil_std_1553.remote_terminals;
        let mut i: usize = 0;
        while i < rts.len()
            invariant
                rts@ == self.protocols.mil_std_1553.remote_terminals@,
                i <= rts@.len(),
                forall|j: int| 0 <= j < i ==> #[trigger] rts@[j] <= MAX_TERMINAL,
            decreases rts@.len() - i,
        {
            if rts[i] > MAX_TERMINAL {
                assert(rts@[i as int] > MAX_TERMINAL);
                return Err(GatewayError::Config);
            }
            i = i + 1;
        }
        if self.protocols.ethernet_ip.port == 0 {
            return Err(GatewayError::Config);
        }
        let rules = &self.translation_rules;
        let mut k: usize = 0;
        while k < rules.len()
            invariant
                rules@ == self.translation_rules@,
                k <= rules@.len(),
                forall|j: int|
                    0 <= j < k ==> (#[trigger] rules@[j]).name@.len() > 0 && rules@[j].source
                        != rules@[j].target,
            decreases rules@.len() - k,
        {
            if rules[k].name.unicode_len() == 0 {
                assert(!(rules@[k as int].name@.len() > 0));
                return Err(GatewayError::Config);
            }
            if rules[k].source == rules[k].target {
                assert(rules@[k as int].source == rules@[k as int].target);
                return Err(GatewayError::Config);
            }
            k = k + 1;
        }
        Ok(())
    }

    /// The configured log level, its name matched without regard to case.
    pub fn get_log_level(&self) -> (r: LogLevel)
        ensures
            r == level_of(lowercase_of(self.general.log_level@)),
    {
        let lowered = to_lowercase(self.general.log_level.as_str());
        log_level_from(lowered.as_str())
    }

    /// Worker threads to run, given the machine's available parallelism.
    pub fn worker_count_with(&self, available: usize) -> (r: usize)
        ensures
            r == if self.general.workers == 0 {
                available
            } else {
                self.general.workers
            },
    {
        if self.general.workers == 0 {
            available
        } else {
            self.general.workers
        }
    }

    /// Connection timeout of the IP-framed transport, in seconds.
    pub fn get_ethernet_ip_timeout(&self) -> (r: u64)
        ensures
            r == self.protocols.ethernet_ip.timeout_secs,
    {
        self.protocols.ethernet_ip.timeout_secs
    }

    /// Idle timeout of an IP-framed session, in seconds.
    pub fn get_ethernet_ip_idle_timeout(&self) -> (r: u64)
        ensures
            r == self.protocols.ethernet_ip.idle_timeout_secs,
    {
        self.protocols.ethernet_ip.idle_timeout_secs
    }
}

} // verus!
