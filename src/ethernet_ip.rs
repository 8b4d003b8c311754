//! The IP-framed industrial protocol: a 24-byte header followed by a payload.

use vstd::prelude::*;

use crate::error::GatewayError;
use crate::protocols::{
    clone_bytes, CommonMessage, Message, MessageMetadata, ProtocolHandler, ProtocolType,
};
use crate::utils::current_time_millis;
use crate::wire::{
    be16, be16_bytes, be32_at, be32_bytes, copy_range, push_all, push_u16, push_u32, read_u16,
    read_u32,
};

verus! {

/// Header length of a packet.
pub const HEADER_LEN: usize = 24;

/// Session handle that outgoing packets carry.
pub const OUTGOING_SESSION: u32 = 0x01020304;

/// The command of a packet.
#[derive(Clone, Copy, Debug, PartialEq, Eq, Structural)]
pub enum CommandType {
    ListIdentity,
    ListServices,
    ListInterfaces,
    RegisterSession,
    UnregisterSession,
    SendRRData,
    SendUnitData,
    DataRequest,
    DataResponse,
    /// Any other command byte.
    Custom(u8),
}

/// The command that a byte names.
pub open spec fn command_of(v: u8) -> CommandType {
    if v == 0x63 {
        CommandType::ListIdentity
    } else if v == 0x64 {
        CommandType::ListServices
    } else if v == 0x65 {
        CommandType::ListInterfaces
    } else if v == 0x66 {
        CommandType::RegisterSession
    } else if v == 0x67 {
        CommandType::UnregisterSession
    } else if v == 0x6F {
        CommandType::SendRRData
    } else if v == 0x70 {
        CommandType::SendUnitData
    } else if v == 0x0A {
        CommandType::DataRequest
    } else if v == 0x0B {
        CommandType::DataResponse
    } else {
        CommandType::Custom(v)
    }
}

/// The byte of a command.
pub open spec fn command_byte(c: CommandType) -> u8 {
    match c {
        CommandType::ListIdentity => 0x63,
        CommandType::ListServices => 0x64,
        CommandType::ListInterfaces => 0x65,
        CommandType::RegisterSession => 0x66,
        CommandType::UnregisterSession => 0x67,
        CommandType::SendRRData => 0x6F,
        CommandType::SendUnitData => 0x70,
        CommandType::DataRequest => 0x0A,
        CommandType::DataResponse => 0x0B,
        CommandType::Custom(v) => v,
    }
}

/// Whether a command is written the one way a parse gives it: `Custom` only
/// for bytes that name no other command.
pub open spec fn canonical_command(c: CommandType) -> bool {
    match c {
        CommandType::Custom(v) => command_of(v) == c,
        _ => true,
    }
}

/// Whether a command asks for work from its peer.
pub open spec fn is_command_spec(c: CommandType) -> bool {
    c == CommandType::ListIdentity || c == CommandType::ListServices || c
        == CommandType::RegisterSession || c == CommandType::SendRRData || c
        == CommandType::DataRequest
}

impl CommandType {
    pub fn from_u8(value: u8) -> (r: CommandType)
        ensures
            r == command_of(value),
    {
        match value {
            0x63 => CommandType::ListIdentity,
            0x64 => CommandType::ListServices,
            0x65 => CommandType::ListInterfaces,
            0x66 => CommandType::RegisterSession,
            0x67 => CommandType::UnregisterSession,
            0x6F => CommandType::SendRRData,
            0x70 => CommandType::SendUnitData,
            0x0A => CommandType::DataRequest,
            0x0B => CommandType::DataResponse,
            _ => CommandType::Custom(value),
        }
    }

    pub fn as_u8(&self) -> (r: u8)
        ensures
            r == command_byte(*self),
    {
        match self {
            CommandType::ListIdentity => 0x63,
            CommandType::ListServices => 0x64,
            CommandType::ListInterfaces => 0x65,
            CommandType::RegisterSession => 0x66,
            CommandType::UnregisterSession => 0x67,
            CommandType::SendRRData => 0x6F,
            CommandType::SendUnitData => 0x70,
            CommandType::DataRequest => 0x0A,
            CommandType::DataResponse => 0x0B,
            CommandType::Custom(value) => *value,
        }
    }
}

/// Every byte names a command that gives the byte back.
pub proof fn lemma_command_byte_of(v: u8)
    ensures
        command_byte(command_of(v)) == v,
        canonical_command(command_of(v)),
{
}

/// A canonical command survives its byte.
pub proof fn lemma_command_of_byte(c: CommandType)
    requires
        canonical_command(c),
    ensures
        command_of(command_byte(c)) == c,
{
}

/// A packet of the IP-framed protocol.
#[derive(Debug)]
pub struct EthernetIpPacket {
    pub command: CommandType,
    pub session_handle: u32,
    pub status: u32,
    pub sender_context: [u8; 8],
    pub options: u32,
    pub data: Vec<u8>,
    /// Capture time, milliseconds since the epoch.
    pub timestamp: u64,
    pub source_address: String,
    pub destination_address: String,
}

/// The bytes of a packet with the given header fields and payload; the length
/// field is 24 plus the payload length, kept to its low 16 bits.
pub open spec fn ip_bytes(
    command: u8,
    session: u32,
    status: u32,
    context: Seq<u8>,
    options: u32,
    data: Seq<u8>,
) -> Seq<u8> {
    seq![command, 0u8] + be16_bytes(((24 + data.len()) % 0x10000) as u16) + be32_bytes(session)
        + be32_bytes(status) + context + be32_bytes(options) + data
}

/// The bytes that `to_bytes` gives for `p`.
pub open spec fn packet_bytes(p: EthernetIpPacket) -> Seq<u8> {
    ip_bytes(
        command_byte(p.command),
        p.session_handle,
        p.status,
        p.sender_context@,
        p.options,
        p.data@,
    )
}

/// Whether two packets carry the same header fields and payload.
pub open spec fn same_wire_fields(p: EthernetIpPacket, q: EthernetIpPacket) -> bool {
    &&& p.command == q.command
    &&& p.session_handle == q.session_handle
    &&& p.status == q.status
    &&& p.sender_context@ == q.sender_context@
    &&& p.options == q.options
    &&& p.data@ == q.data@
}

/// Source address given to parsed packets when the transport supplies none.
pub open spec fn placeholder_source() -> Seq<char> {
    "192.168.1.100"@
}

/// Destination address given to parsed packets when the transport supplies none.
pub open spec fn placeholder_destination() -> Seq<char> {
    "192.168.1.200"@
}

/// Whether `p` is what a parse of `b` at time `now` gives.
pub open spec fn ip_parsed_as(p: EthernetIpPacket, b: Seq<u8>, now: u64) -> bool {
    &&& p.command == command_of(b[0])
    &&& p.session_handle == be32_at(b, 4)
    &&& p.status == be32_at(b, 8)
    &&& p.sender_context@ == b.subrange(12, 20)
    &&& p.options == be32_at(b, 20)
    &&& p.data@ == b.subrange(24, b.len() as int)
    &&& p.timestamp == now
    &&& p.source_address@ == placeholder_source()
    &&& p.destination_address@ == placeholder_destination()
}

/// The message id of a packet: the timestamp shifted left by 32 bits, the
/// session handle in the low 32 bits.
pub open spec fn ip_message_id(ts: u64, session: u32) -> u64 {
    ((ts % 0x100000000) * 0x100000000 + session) as u64
}

/// Whether `c` is the normalized form of `p`.
pub open spec fn ip_normalized(p: EthernetIpPacket, c: CommonMessage) -> bool {
    let is_command = is_command_spec(p.command);
    &&& c.source_protocol == ProtocolType::EthernetIp
    &&& c.target_protocol == Some(ProtocolType::MilStd1553)
    &&& c.priority == if is_command { 1u8 } else { 3u8 }
    &&& c.payload@ == p.data@
    &&& c.metadata.source_address@ == p.source_address@
    &&& c.metadata.destination_address@ == p.destination_address@
    &&& c.metadata.timestamp == p.timestamp
    &&& c.metadata.message_id == ip_message_id(p.timestamp, p.session_handle)
    &&& c.metadata.is_command == is_command
    &&& c.metadata.requires_response == (is_command && p.command != CommandType::UnregisterSession
        && p.command != CommandType::SendUnitData)
}

/// The command of an outgoing packet for a normalized message.
pub open spec fn outgoing_command(c: CommonMessage) -> CommandType {
    if c.metadata.is_command {
        if c.metadata.requires_response {
            CommandType::SendRRData
        } else {
            CommandType::SendUnitData
        }
    } else {
        CommandType::DataResponse
    }
}

/// The bytes that `format` gives for a normalized message.
pub open spec fn formatted_ip_bytes(c: CommonMessage) -> Seq<u8> {
    ip_bytes(
        command_byte(outgoing_command(c)),
        OUTGOING_SESSION,
        0,
        seq![0u8, 0, 0, 0, 0, 0, 0, 0],
        0,
        c.payload@,
    )
}

impl EthernetIpPacket {
    /// A packet stamped with `timestamp`.
    pub fn new_at(
        command: CommandType,
        session_handle: u32,
        status: u32,
        sender_context: [u8; 8],
        options: u32,
        data: Vec<u8>,
        source_address: String,
        destination_address: String,
        timestamp: u64,
    ) -> (r: EthernetIpPacket)
        ensures
            r.command == command,
            r.session_handle == session_handle,
            r.status == status,
            r.sender_context@ == sender_context@,
            r.options == options,
            r.data@ == data@,
            r.timestamp == timestamp,
            r.source_address@ == source_address@,
            r.destination_address@ == destination_address@,
    {
        EthernetIpPacket {
            command,
            session_handle,
            status,
            sender_context,
            options,
            data,
            timestamp,
            source_address,
            destination_address,
        }
    }

    /// A packet stamped with the current time.
    pub fn new(
        command: CommandType,
        session_handle: u32,
        status: u32,
        sender_context: [u8; 8],
        options: u32,
        data: Vec<u8>,
        source_address: String,
        destination_address: String,
    ) -> (r: EthernetIpPacket)
        ensures
            r.command == command,
            r.session_handle == session_handle,
            r.status == status,
            r.sender_context@ == sender_context@,
            r.options == options,
            r.data@ == data@,
            r.source_address@ == source_address@,
            r.destination_address@ == destination_address@,
    {
        EthernetIpPacket::new_at(
            command,
            session_handle,
            status,
            sender_context,
            options,
            data,
            source_address,
            destination_address,
            current_time_millis(),
        )
    }

    /// The bytes of the packet: the 24-byte header, then the payload.
    pub fn to_bytes(&self) -> (r: Vec<u8>)
        ensures
            r@ == packet_bytes(*self),
    {
        let mut out: Vec<u8> = Vec::new();
        out.push(self.command.as_u8());
        out.push(0);
        let n = self.data.len();
        push_u16(&mut out, ((n % 0x10000 + 24) % 0x10000) as u16);
        push_u32(&mut out, self.session_handle);
        push_u32(&mut out, self.status);
        push_all(&mut out, self.sender_context.as_slice());
        push_u32(&mut out, self.options);
        push_all(&mut out, self.data.as_slice());
        assert(((n % 0x10000 + 24) % 0x10000) == ((24 + n) % 0x10000));
        assert(out@ =~= packet_bytes(*self));
        out
    }

    fn generate_message_id(&self) -> (r: u64)
        ensures
            r == ip_message_id(self.timestamp, self.session_handle),
    {
        (self.timestamp % 0x100000000) * 0x100000000 + (self.session_handle as u64)
    }

    /// The normalized form of the packet.
    pub fn to_common(&self) -> (r: CommonMessage)
        ensures
            ip_normalized(*self, r),
    {
        let is_command = match self.command {
            CommandType::ListIdentity | CommandType::ListServices | CommandType::RegisterSession
            | CommandType::SendRRData | CommandType::DataRequest => true,
            _ => false,
        };
        let requires_response = is_command && match self.command {
            CommandType::UnregisterSession | CommandType::SendUnitData => false,
            _ => true,
        };
        CommonMessage {
            source_protocol: ProtocolType::EthernetIp,
            target_protocol: Some(ProtocolType::MilStd1553),
            priority: if is_command { 1 } else { 3 },
            payload: clone_bytes(&self.data),
            metadata: MessageMetadata {
                source_address: self.source_address.clone(),
                destination_address: self.destination_address.clone(),
                timestamp: self.timestamp,
                message_id: self.generate_message_id(),
                is_command,
                requires_response,
            },
        }
    }
}

impl Message for EthernetIpPacket {
    fn to_common_format(&self) -> (r: Result<CommonMessage, GatewayError>)
        ensures
            r matches Ok(c) && ip_normalized(*self, c),
    {
        Ok(self.to_common())
    }

    fn protocol_type(&self) -> (r: ProtocolType)
        ensures
            r == ProtocolType::EthernetIp,
    {
        ProtocolType::EthernetIp
    }
}

/// Parses a packet and stamps it with `now`. A length field that disagrees
/// with the byte count is tolerated.
pub fn parse_ethernet_ip_at(data: &[u8], now: u64) -> (r: Result<EthernetIpPacket, GatewayError>)
    ensures
        r is Err <==> data@.len() < 24,
        r matches Err(e) ==> e == GatewayError::Parse,
        r matches Ok(p) ==> ip_parsed_as(p, data@, now),
{
    if data.len() < HEADER_LEN {
        return Err(GatewayError::Parse);
    }
    let command = CommandType::from_u8(data[0]);
    let session_handle = read_u32(data, 4);
    let status = read_u32(data, 8);
    let sender_context: [u8; 8] = [
        data[12],
        data[13],
        data[14],
        data[15],
        data[16],
        data[17],
        data[18],
        data[19],
    ];
    assert(sender_context@ =~= data@.subrange(12, 20));
    let options = read_u32(data, 20);
    let payload = copy_range(data, HEADER_LEN, data.len());
    Ok(
        EthernetIpPacket::new_at(
            command,
            session_handle,
            status,
            sender_context,
            options,
            payload,
            String::from_str("192.168.1.100"),
            String::from_str("192.168.1.200"),
            now,
        ),
    )
}

/// Parses a packet and stamps it with the current time.
pub fn parse_ethernet_ip(data: &[u8]) -> (r: Result<EthernetIpPacket, GatewayError>)
    ensures
        r is Err <==> data@.len() < 24,
        r matches Err(e) ==> e == GatewayError::Parse,
        r matches Ok(p) ==> ip_parsed_as(p, data@, p.timestamp),
{
    parse_ethernet_ip_at(data, current_time_millis())
}

/// Whether a command byte names a recognized command other than session
/// unregistration.
pub open spec fn accepted_command_byte(v: u8) -> bool {
    v == 0x63 || v == 0x64 || v == 0x65 || v == 0x66 || v == 0x6F || v == 0x70 || v == 0x0A || v
        == 0x0B
}

/// Whether bytes look like a packet: a whole header, an accepted command and a
/// length field from 24 to 1500.
pub fn validate_ethernet_ip(data: &[u8]) -> (r: bool)
    ensures
        r == (data@.len() >= 24 && accepted_command_byte(data@[0]) && 24 <= be16(data@[2], data@[3])
            <= 1500),
{
    if data.len() < HEADER_LEN {
        return false;
    }
    let command = data[0];
    match command {
        0x63 | 0x64 | 0x65 | 0x66 | 0x6F | 0x70 | 0x0A | 0x0B => {},
        _ => {
            return false;
        },
    }
    let length = read_u16(data, 2);
    if length < 24 || length > 1500 {
        return false;
    }
    true
}

/// Codec of the IP-framed protocol.
#[derive(Debug)]
pub struct EthernetIpHandler {
    session_counter: u32,
}

impl EthernetIpHandler {
    pub fn new() -> (r: EthernetIpHandler)
        ensures
            r.next_session_spec() == 1,
    {
        EthernetIpHandler { session_counter: 1 }
    }

    /// The session handle that `next_session` hands out next.
    pub closed spec fn next_session_spec(&self) -> u32 {
        self.session_counter
    }

    /// Hands out a session handle; handles count up from 1 and never take the
    /// value 0.
    pub fn next_session(&mut self) -> (r: u32)
        ensures
            r == old(self).next_session_spec(),
            final(self).next_session_spec() == if r == u32::MAX {
                1
            } else {
                (r + 1) as u32
            },
    {
        let session = self.session_counter;
        self.session_counter = if session == u32::MAX { 1 } else { session + 1 };
        session
    }

    /// Encodes a normalized message as a packet of session 0x01020304 with
    /// zero status, context and options.
    pub fn format_bytes(&self, message: &CommonMessage) -> (r: Vec<u8>)
        ensures
            r@ == formatted_ip_bytes(*message),
    {
        let command = if message.metadata.is_command {
            if message.metadata.requires_response {
                CommandType::SendRRData
            } else {
                CommandType::SendUnitData
            }
        } else {
            CommandType::DataResponse
        };
        let packet = EthernetIpPacket::new_at(
            command,
            OUTGOING_SESSION,
            0,
            [0u8; 8],
            0,
            clone_bytes(&message.payload),
            message.metadata.source_address.clone(),
            message.metadata.destination_address.clone(),
            message.metadata.timestamp,
        );
        assert(packet.sender_context@ =~= seq![0u8, 0, 0, 0, 0, 0, 0, 0]);
        packet.to_bytes()
    }
}

impl ProtocolHandler for EthernetIpHandler {
    type Msg = EthernetIpPacket;

    fn parse(&self, data: &[u8]) -> (r: Result<EthernetIpPacket, GatewayError>)
        ensures
            r is Err <==> data@.len() < 24,
            r matches Ok(p) ==> ip_parsed_as(p, data@, p.timestamp),
    {
        parse_ethernet_ip(data)
    }

    fn format(&self, message: &CommonMessage) -> (r: Result<Vec<u8>, GatewayError>)
        ensures
            r matches Ok(b) && b@ == formatted_ip_bytes(*message),
    {
        Ok(self.format_bytes(message))
    }

    fn protocol_type(&self) -> (r: ProtocolType)
        ensures
            r == ProtocolType::EthernetIp,
    {
        ProtocolType::EthernetIp
    }
}

/// A packet whose command is canonical survives its bytes: a parse of what
/// `to_bytes` gives succeeds and carries the same header fields and payload.
pub proof fn law_packet_round_trip(p: EthernetIpPacket, q: EthernetIpPacket, now: u64)
    requires
        canonical_command(p.command),
        ip_parsed_as(q, packet_bytes(p), now),
    ensures
        packet_bytes(p).len() >= 24,
        same_wire_fields(p, q),
{
    let b = packet_bytes(p);
    let n = p.data@.len();
    assert(b.len() == 24 + n);
    assert(b[0] == command_byte(p.command));
    lemma_command_of_byte(p.command);
    assert(b.subrange(4, 8) == be32_bytes(p.session_handle));
    assert(be32_at(b, 4) == p.session_handle) by {
        crate::wire::lemma_be32_round_trip(p.session_handle);
        assert(b[4] == be32_bytes(p.session_handle)[0]);
        assert(b[5] == be32_bytes(p.session_handle)[1]);
        assert(b[6] == be32_bytes(p.session_handle)[2]);
        assert(b[7] == be32_bytes(p.session_handle)[3]);
    }
    assert(be32_at(b, 8) == p.status) by {
        crate::wire::lemma_be32_round_trip(p.status);
        assert(b[8] == be32_bytes(p.status)[0]);
        assert(b[9] == be32_bytes(p.status)[1]);
        assert(b[10] == be32_bytes(p.status)[2]);
        assert(b[11] == be32_bytes(p.status)[3]);
    }
    assert(be32_at(b, 20) == p.options) by {
        crate::wire::lemma_be32_round_trip(p.options);
        assert(b[20] == be32_bytes(p.options)[0]);
        assert(b[21] == be32_bytes(p.options)[1]);
        assert(b[22] == be32_bytes(p.options)[2]);
        assert(b[23] == be32_bytes(p.options)[3]);
    }
    assert(b.subrange(12, 20) =~= p.sender_context@);
    assert(b.subrange(24, b.len() as int) =~= p.data@);
}

} // verus!
