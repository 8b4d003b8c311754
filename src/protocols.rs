//! Types shared by both wire protocols: the protocol tag, the normalized
//! message, and the traits that each codec implements.

use vstd::prelude::*;

use crate::error::GatewayError;
use crate::ethernet_ip::EthernetIpHandler;
use crate::mil1553::Mil1553Handler;

verus! {

/// The two transports the gateway bridges.
#[derive(Clone, Copy, Debug, PartialEq, Eq, Hash, PartialOrd, Ord, Structural)]
pub enum ProtocolType {
    MilStd1553,
    EthernetIp,
}

impl ProtocolType {
    /// The printable name of the protocol.
    pub fn name(&self) -> (r: &'static str)
        ensures
            *self == ProtocolType::MilStd1553 ==> r@ == "MIL-STD-1553"@,
            *self == ProtocolType::EthernetIp ==> r@ == "Ethernet/IP"@,
    {
        match self {
            ProtocolType::MilStd1553 => "MIL-STD-1553",
            ProtocolType::EthernetIp => "Ethernet/IP",
        }
    }
}

/// Metadata of a normalized message.
#[derive(Debug)]
pub struct MessageMetadata {
    pub source_address: String,
    pub destination_address: String,
    pub timestamp: u64,
    pub message_id: u64,
    pub is_command: bool,
    pub requires_response: bool,
}

/// The protocol-neutral form of a message.
#[derive(Debug)]
pub struct CommonMessage {
    pub source_protocol: ProtocolType,
    /// The protocol to translate to; `None` lets the router choose.
    pub target_protocol: Option<ProtocolType>,
    /// Scheduling precedence; lower values come first.
    pub priority: u8,
    pub payload: Vec<u8>,
    pub metadata: MessageMetadata,
}

/// Whether two metadata records hold the same values.
pub open spec fn same_metadata(a: MessageMetadata, b: MessageMetadata) -> bool {
    &&& a.source_address@ == b.source_address@
    &&& a.destination_address@ == b.destination_address@
    &&& a.timestamp == b.timestamp
    &&& a.message_id == b.message_id
    &&& a.is_command == b.is_command
    &&& a.requires_response == b.requires_response
}

/// Whether two messages hold the same values.
pub open spec fn same_message(a: CommonMessage, b: CommonMessage) -> bool {
    &&& a.source_protocol == b.source_protocol
    &&& a.target_protocol == b.target_protocol
    &&& a.priority == b.priority
    &&& a.payload@ == b.payload@
    &&& same_metadata(a.metadata, b.metadata)
}

/// A copy of `v`.
pub fn clone_bytes(v: &Vec<u8>) -> (r: Vec<u8>)
    ensures
        r@ == v@,
{
    let r = v.clone();
    assert(r@ =~= v@) by {
        assert(r.deep_view() == v.deep_view());
        assert(r.deep_view() =~= r@);
        assert(v.deep_view() =~= v@);
    }
    r
}

impl Clone for MessageMetadata {
    fn clone(&self) -> (r: MessageMetadata)
        ensures
            same_metadata(r, *self),
    {
        MessageMetadata {
            source_address: self.source_address.clone(),
            destination_address: self.destination_address.clone(),
            timestamp: self.timestamp,
            message_id: self.message_id,
            is_command: self.is_command,
            requires_response: self.requires_response,
        }
    }
}

impl Clone for CommonMessage {
    fn clone(&self) -> (r: CommonMessage)
        ensures
            same_message(r, *self),
    {
        CommonMessage {
            source_protocol: self.source_protocol,
            target_protocol: self.target_protocol,
            priority: self.priority,
            payload: clone_bytes(&self.payload),
            metadata: self.metadata.clone(),
        }
    }
}

/// A message of one of the wire protocols.
pub trait Message: Sized {
    /// The message in normalized form.
    fn to_common_format(&self) -> Result<CommonMessage, GatewayError>;

    /// The protocol the message belongs to.
    fn protocol_type(&self) -> ProtocolType;
}

/// A codec for one wire protocol.
pub trait ProtocolHandler {
    type Msg: Message;

    /// Parses raw bytes into a message of this protocol.
    fn parse(&self, data: &[u8]) -> Result<Self::Msg, GatewayError>;

    /// Encodes a normalized message as bytes of this protocol.
    fn format(&self, message: &CommonMessage) -> Result<Vec<u8>, GatewayError>;

    /// The protocol this handler speaks.
    fn protocol_type(&self) -> ProtocolType;
}

/// A codec of the legacy bus.
pub fn create_mil_std_1553_handler() -> (r: Mil1553Handler) {
    Mil1553Handler::new()
}

/// A codec of the IP-framed protocol.
pub fn create_ethernet_ip_handler() -> (r: EthernetIpHandler)
    ensures
        r.next_session_spec() == 1,
{
    EthernetIpHandler::new()
}

} // verus!
