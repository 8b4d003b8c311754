//! The processing pipeline: route, transform, serialize and secure one
//! message at a time, and the lifecycle that decides whether messages are
//! served. The channel that feeds it is run by the caller.

use vstd::prelude::*;

use crate::codec::{
    bytes_field, chars_field, common_bytes, opt_protocol_field, protocol_byte, secured_bytes,
    serialize_common, serialize_secured,
};
use crate::config::{same_rule, Config, TransformType, TranslationRule};
use crate::crypto::{MAX_PLAINTEXT, NONCE_SIZE};
use crate::error::GatewayError;
use crate::key_manager::KeyManager;
use crate::protocols::{CommonMessage, ProtocolType};
use crate::router::{has_any, lemma_route_unique, routes, self_translation, Router};
use crate::security::{can_secure, encrypts, secured_as, SecuredMessage, SecurityError, SecurityService};
use crate::transformer::{mapped_priority, Transformer};
use crate::wire::be64_bytes;

verus! {

/// Lifecycle of the pipeline.
#[derive(Clone, Copy, Debug, PartialEq, Eq, Structural)]
pub enum PipelineState {
    Initialized,
    Running,
    ShuttingDown,
    Stopped,
}

/// What the pipeline made of one message.
#[derive(Debug)]
pub struct ProcessedMessage {
    /// Index of the rule that routed the message.
    pub rule_index: usize,
    /// The protocol the message goes to.
    pub target: ProtocolType,
    /// The transformed message inside its envelope.
    pub secured: SecuredMessage,
    /// The encoding of the envelope.
    pub bytes: Vec<u8>,
}

/// An input of the pipeline, with what the caller drew for it.
#[derive(Debug)]
pub enum PipelineEvent {
    /// A message to process, a fresh nonce and the time in seconds.
    Process { message: CommonMessage, nonce: Vec<u8>, now: u64 },
    /// A request to stop.
    Shutdown,
}

/// The pipeline's answer to an event.
#[derive(Debug)]
pub enum PipelineReply {
    Processed(Result<ProcessedMessage, GatewayError>),
    ShutdownAcknowledged,
}

/// The encoding of `m` with the given target and priority.
pub open spec fn retargeted_bytes(m: CommonMessage, target: Option<ProtocolType>, priority: u8) -> Seq<u8> {
    seq![protocol_byte(m.source_protocol)] + opt_protocol_field(target) + seq![priority] + bytes_field(
        m.payload@,
    ) + chars_field(m.metadata.source_address@) + chars_field(m.metadata.destination_address@)
        + be64_bytes(m.metadata.timestamp) + be64_bytes(m.metadata.message_id) + seq![
        m.metadata.is_command as u8,
        m.metadata.requires_response as u8,
    ]
}

/// The encoding of what `rule`'s transform makes of `m`; `None` where the
/// rule names a custom module, since the pipeline registers none.
pub open spec fn transformed_bytes(m: CommonMessage, rule: TranslationRule) -> Option<Seq<u8>> {
    match rule.transform {
        Some(TransformType::Custom(_)) => None,
        Some(TransformType::FieldMap(f)) => Some(
            retargeted_bytes(m, Some(rule.target), mapped_priority(f, m.priority)),
        ),
        _ => Some(retargeted_bytes(m, Some(rule.target), m.priority)),
    }
}

/// What processing `m` gives when rule `i` routes it.
pub open spec fn outcome_for(
    rules: Seq<TranslationRule>,
    i: int,
    km: KeyManager,
    key_id: Seq<char>,
    m: CommonMessage,
    nonce: Seq<u8>,
    now: u64,
    r: Result<ProcessedMessage, GatewayError>,
) -> bool {
    let rule = rules[i];
    let mode = rule.security_mode;
    match transformed_bytes(m, rule) {
        None => r == Err::<ProcessedMessage, GatewayError>(GatewayError::NoTransform),
        Some(plain) => if !can_secure(km, mode, key_id, now) {
            r == Err::<ProcessedMessage, GatewayError>(GatewayError::Security(SecurityError::KeyError))
        } else if encrypts(mode) && plain.len() >= MAX_PLAINTEXT {
            r == Err::<ProcessedMessage, GatewayError>(
                GatewayError::Security(SecurityError::EncryptionFailed),
            )
        } else {
            &&& r matches Ok(p)
            &&& p.rule_index == i
            &&& p.target == rule.target
            &&& secured_as(p.secured, km, plain, mode, key_id)
            &&& encrypts(mode) ==> p.secured.header.nonce@ == nonce
            &&& p.bytes@ == secured_bytes(p.secured)
        },
    }
}

/// Whether `r` is what processing `m` with `nonce` at `now` gives: refusal
/// of self-translation, `NoRoute` where no rule matches, and otherwise the
/// outcome under the rule that routes it.
pub open spec fn processed_as(
    rules: Seq<TranslationRule>,
    km: KeyManager,
    key_id: Seq<char>,
    m: CommonMessage,
    nonce: Seq<u8>,
    now: u64,
    r: Result<ProcessedMessage, GatewayError>,
) -> bool {
    &&& self_translation(m) ==> r == Err::<ProcessedMessage, GatewayError>(GatewayError::InvalidRoute)
    &&& !self_translation(m) && !has_any(rules, m) ==> r == Err::<ProcessedMessage, GatewayError>(
        GatewayError::NoRoute,
    )
    &&& !self_translation(m) && has_any(rules, m) ==> exists|i: int| #[trigger] routes(rules, i, m)
    &&& forall|i: int|
        !self_translation(m) && #[trigger] routes(rules, i, m) ==> outcome_for(
            rules,
            i,
            km,
            key_id,
            m,
            nonce,
            now,
            r,
        )
}

/// The gateway's pipeline.
pub struct Gateway {
    security: SecurityService,
    router: Router,
    transformer: Transformer,
    default_key_id: String,
    state: PipelineState,
}

impl Gateway {
    /// The pipeline's invariant: its key store and its router are well formed.
    pub closed spec fn wf(&self) -> bool {
        &&& self.security.key_manager.wf()
        &&& self.router.wf()
        &&& self.transformer.modules_spec().len() == 0
    }

    pub closed spec fn state_spec(&self) -> PipelineState {
        self.state
    }

    pub closed spec fn rules_spec(&self) -> Seq<TranslationRule> {
        self.router.rules_spec()
    }

    pub closed spec fn key_manager_spec(&self) -> KeyManager {
        self.security.key_manager
    }

    pub closed spec fn key_id_spec(&self) -> Seq<char> {
        self.default_key_id@
    }

    /// A pipeline over the configuration's rules and key ids and the given
    /// key store, not yet started.
    pub fn new(config: &Config, key_manager: KeyManager) -> (r: Gateway)
        requires
            key_manager.wf(),
        ensures
            r.wf(),
            r.state_spec() == PipelineState::Initialized,
            r.key_manager_spec() == key_manager,
            r.key_id_spec() == config.security.default_encryption_key@,
            r.rules_spec().len() == config.translation_rules@.len(),
            forall|i: int|
                0 <= i < config.translation_rules@.len() ==> same_rule(
                    #[trigger] r.rules_spec()[i],
                    config.translation_rules@[i],
                ),
    {
        Gateway {
            security: SecurityService::new(key_manager),
            router: Router::new(config.translation_rules.as_slice()),
            transformer: Transformer::new(),
            default_key_id: config.security.default_encryption_key.clone(),
            state: PipelineState::Initialized,
        }
    }

    /// The current lifecycle state.
    pub fn state(&self) -> (r: PipelineState)
        ensures
            r == self.state_spec(),
    {
        self.state
    }

    /// Starts serving; only a pipeline that has not started can start.
    pub fn start(&mut self) -> (r: Result<(), GatewayError>)
        requires
            old(self).wf(),
        ensures
            final(self).wf(),
            r is Ok <==> old(self).state_spec() == PipelineState::Initialized,
            r is Ok ==> final(self).state_spec() == PipelineState::Running,
            r matches Err(e) ==> e == GatewayError::NotRunning && final(self).state_spec() == old(
                self,
            ).state_spec(),
            final(self).rules_spec() == old(self).rules_spec(),
            final(self).key_manager_spec() == old(self).key_manager_spec(),
            final(self).key_id_spec() == old(self).key_id_spec(),
    {
        if self.state == PipelineState::Initialized {
            self.state = PipelineState::Running;
            Ok(())
        } else {
            Err(GatewayError::NotRunning)
        }
    }

    /// Routes, transforms, serializes and secures one message with the
    /// rule's security mode under the default key id, with `nonce` and the
    /// keys checked at `now` (seconds).
    pub fn process_message_at(&self, message: &CommonMessage, nonce: Vec<u8>, now: u64) -> (r: Result<
        ProcessedMessage,
        GatewayError,
    >)
        requires
            self.wf(),
            nonce@.len() == NONCE_SIZE,
        ensures
            processed_as(
                self.rules_spec(),
                self.key_manager_spec(),
                self.key_id_spec(),
                *message,
                nonce@,
                now,
                r,
            ),
    {
        let i = self.router.find_rule_index(message)?;
        let rule = &self.router.get_rules()[i];
        assert(self.router.rules_spec()[i as int] == *rule);
        proof {
            assert forall|j: int| !self_translation(*message) && #[trigger] routes(self.rules_spec(), j, *message) implies j == i by {
                lemma_route_unique(self.rules_spec(), *message, i as int, j);
            }
        }
        let transformed = match self.apply_transform(message, rule) {
            Ok(t) => t,
            Err(e) => {
                return Err(e);
            },
        };
        let secured = self.secure_serialized(&transformed, rule.security_mode, nonce, now)?;
        let bytes = serialize_secured(&secured);
        Ok(ProcessedMessage { rule_index: i, target: rule.target, secured, bytes })
    }

    fn apply_transform(&self, message: &CommonMessage, rule: &TranslationRule) -> (r: Result<CommonMessage, GatewayError>)
        requires
            self.wf(),
        ensures
            transformed_bytes(*message, *rule) is None ==> r == Err::<CommonMessage, GatewayError>(
                GatewayError::NoTransform,
            ),
            transformed_bytes(*message, *rule) matches Some(b) ==> (r matches Ok(t) && common_bytes(t) == b),
    {
        let r = self.transformer.transform(message, rule);
        proof {
            if r is Ok {
                let t = r->Ok_0;
                assert(common_bytes(t) =~= match transformed_bytes(*message, *rule) {
                    Some(b) => b,
                    None => common_bytes(t),
                });
            }
        }
        r
    }

    fn secure_serialized(&self, transformed: &CommonMessage, mode: crate::security::SecurityMode, nonce: Vec<u8>, now: u64) -> (r: Result<SecuredMessage, GatewayError>)
        requires
            self.wf(),
            nonce@.len() == NONCE_SIZE,
        ensures
            !can_secure(self.key_manager_spec(), mode, self.key_id_spec(), now) ==> r == Err::<SecuredMessage, GatewayError>(
                GatewayError::Security(SecurityError::KeyError),
            ),
            can_secure(self.key_manager_spec(), mode, self.key_id_spec(), now) && encrypts(mode)
                && common_bytes(*transformed).len() >= MAX_PLAINTEXT ==> r == Err::<SecuredMessage, GatewayError>(
                GatewayError::Security(SecurityError::EncryptionFailed),
            ),
            can_secure(self.key_manager_spec(), mode, self.key_id_spec(), now) && (encrypts(mode)
                ==> common_bytes(*transformed).len() < MAX_PLAINTEXT) ==> (r matches Ok(s) && secured_as(
                s,
                self.key_manager_spec(),
                common_bytes(*transformed),
                mode,
                self.key_id_spec(),
            ) && (encrypts(mode) ==> s.header.nonce@ == nonce@)),
    {
        let plain = serialize_common(transformed);
        match self.security.secure_message_at(plain.as_slice(), mode, self.default_key_id.as_str(), nonce, now) {
            Ok(s) => Ok(s),
            Err(e) => Err(GatewayError::Security(e)),
        }
    }

    /// One step of the pipeline. A running pipeline processes a message and
    /// stops on a shutdown request; a pipeline that is not running refuses
    /// messages with `NotRunning` and acknowledges a shutdown.
    pub fn step(&mut self, event: PipelineEvent) -> (r: PipelineReply)
        requires
            old(self).wf(),
            event matches PipelineEvent::Process { nonce, .. } ==> nonce@.len() == NONCE_SIZE,
        ensures
            final(self).wf(),
            final(self).rules_spec() == old(self).rules_spec(),
            final(self).key_manager_spec() == old(self).key_manager_spec(),
            final(self).key_id_spec() == old(self).key_id_spec(),
            event is Shutdown ==> r is ShutdownAcknowledged && final(self).state_spec()
                == PipelineState::Stopped,
            event is Process ==> r is Processed && final(self).state_spec() == old(self).state_spec(),
            event is Process && old(self).state_spec() != PipelineState::Running ==> (r matches PipelineReply::Processed(
                Err(e),
            ) && e == GatewayError::NotRunning),
            event matches PipelineEvent::Process { message, nonce, now } ==> old(self).state_spec()
                == PipelineState::Running ==> (r matches PipelineReply::Processed(o) && processed_as(
                old(self).rules_spec(),
                old(self).key_manager_spec(),
                old(self).key_id_spec(),
                message,
                nonce@,
                now,
                o,
            )),
    {
        match event {
            PipelineEvent::Process { message, nonce, now } => {
                if self.state != PipelineState::Running {
                    return PipelineReply::Processed(Err(GatewayError::NotRunning));
                }
                PipelineReply::Processed(self.process_message_at(&message, nonce, now))
            },
            PipelineEvent::Shutdown => {
                self.state = PipelineState::ShuttingDown;
                self.state = PipelineState::Stopped;
                PipelineReply::ShutdownAcknowledged
            },
        }
    }
}

} // verus!
