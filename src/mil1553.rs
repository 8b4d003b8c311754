//! The legacy command/response bus: 16-bit words, a command word with
//! bitfields, an optional status word and up to thirty-two data words.

use vstd::prelude::*;

use crate::error::GatewayError;
use crate::protocols::{CommonMessage, Message, MessageMetadata, ProtocolHandler, ProtocolType};
use crate::text::{decimal, parse_u8, parse_u8_spec, push_decimal};
use crate::utils::current_time_millis;
use crate::wire::{be16, be16_bytes, push_u16, read_u16};

verus! {

/// A 16-bit word of the bus.
#[derive(Clone, Copy, Debug)]
pub struct Word(u16);

impl View for Word {
    type V = u16;

    closed spec fn view(&self) -> u16 {
        self.0
    }
}

impl Word {
    pub fn new(value: u16) -> (r: Word)
        ensures
            r@ == value,
    {
        Word(value)
    }

    pub fn value(&self) -> (r: u16)
        ensures
            r == self@,
    {
        self.0
    }
}

/// The roles a word can play.
#[derive(Clone, Copy, Debug, PartialEq, Eq, Structural)]
pub enum WordType {
    Command,
    Status,
    Data,
}

/// The kinds of bus transfer.
#[derive(Clone, Copy, Debug, PartialEq, Eq, Structural)]
pub enum MessageType {
    /// Bus controller to remote terminal.
    BcToRt,
    /// Remote terminal to bus controller.
    RtToBc,
    /// Remote terminal to remote terminal.
    RtToRt,
    /// A mode code command (subaddress 0).
    ModeCode,
}

/// Terminal address: bits 15 to 11 of a command word.
pub open spec fn terminal_of(w: u16) -> u8 {
    (w / 2048) as u8
}

/// Transmit/receive bit: bit 10 of a command word.
pub open spec fn tr_bit_of(w: u16) -> u8 {
    ((w / 1024) % 2) as u8
}

/// Subaddress: bits 9 to 5 of a command word.
pub open spec fn subaddress_of(w: u16) -> u8 {
    ((w / 32) % 32) as u8
}

/// Word count: bits 4 to 0 of a command word.
pub open spec fn word_count_of(w: u16) -> u8 {
    (w % 32) as u8
}

/// The kind of transfer a command word announces.
pub open spec fn kind_of(w: u16) -> MessageType {
    if subaddress_of(w) == 0 {
        MessageType::ModeCode
    } else if tr_bit_of(w) == 0 {
        MessageType::BcToRt
    } else {
        MessageType::RtToBc
    }
}

/// The values of a sequence of words.
pub open spec fn word_values(ws: Seq<Word>) -> Seq<u16> {
    ws.map_values(|w: Word| w@)
}

/// Words as big-endian bytes, one after the other.
pub open spec fn words_bytes(ws: Seq<u16>) -> Seq<u8>
    decreases ws.len(),
{
    if ws.len() == 0 {
        Seq::empty()
    } else {
        words_bytes(ws.drop_last()) + be16_bytes(ws.last())
    }
}

/// The bytes of a transfer: command word, optional status word, data words.
pub open spec fn legacy_bytes(cmd: u16, status: Option<u16>, data: Seq<u16>) -> Seq<u8> {
    be16_bytes(cmd) + match status {
        Some(s) => be16_bytes(s),
        None => Seq::empty(),
    } + words_bytes(data)
}

/// The command word that bytes of the bus start with.
pub open spec fn parsed_command(b: Seq<u8>) -> u16 {
    be16(b[0], b[1])
}

/// Whether a parse of `b` reads a status word: the transfer goes from a
/// terminal to the controller and two more bytes follow the command word.
pub open spec fn parsed_has_status(b: Seq<u8>) -> bool {
    b.len() >= 4 && kind_of(parsed_command(b)) == MessageType::RtToBc
}

/// Where the data words of `b` start.
pub open spec fn parsed_data_start(b: Seq<u8>) -> int {
    if parsed_has_status(b) {
        4
    } else {
        2
    }
}

/// How many data words a parse of `b` reads: all whole words, at most 32.
pub open spec fn parsed_data_count(b: Seq<u8>) -> int {
    let avail = (b.len() - parsed_data_start(b)) / 2;
    if avail < 32 {
        avail
    } else {
        32
    }
}

/// The data words a parse of `b` reads.
pub open spec fn parsed_data(b: Seq<u8>) -> Seq<u16> {
    let start = parsed_data_start(b);
    Seq::new(
        parsed_data_count(b) as nat,
        |i: int| be16(b[start + 2 * i], b[start + 2 * i + 1]),
    )
}

/// A legacy-bus transfer.
#[derive(Clone, Debug)]
pub struct Mil1553Message {
    pub message_type: MessageType,
    pub command_word: Word,
    pub status_word: Option<Word>,
    pub data_words: Vec<Word>,
    /// Capture time, milliseconds since the epoch.
    pub timestamp: u64,
    pub remote_terminal_address: u8,
    pub subaddress: u8,
    pub word_count: u8,
}

/// The value of an optional word.
pub open spec fn opt_word(w: Option<Word>) -> Option<u16> {
    match w {
        Some(x) => Some(x@),
        None => None,
    }
}

/// The bytes that `to_bytes` gives for `m`.
pub open spec fn message_bytes(m: Mil1553Message) -> Seq<u8> {
    legacy_bytes(m.command_word@, opt_word(m.status_word), word_values(m.data_words@))
}

/// Whether `m` is what a parse of `b` at time `now` gives.
pub open spec fn parsed_as(m: Mil1553Message, b: Seq<u8>, now: u64) -> bool {
    let cmd = parsed_command(b);
    &&& m.command_word@ == cmd
    &&& m.message_type == kind_of(cmd)
    &&& opt_word(m.status_word) == if parsed_has_status(b) {
        Some(be16(b[2], b[3]))
    } else {
        None
    }
    &&& word_values(m.data_words@) == parsed_data(b)
    &&& m.timestamp == now
    &&& m.remote_terminal_address == terminal_of(cmd)
    &&& m.subaddress == subaddress_of(cmd)
    &&& m.word_count == word_count_of(cmd)
}

/// The address `RT<n>` of remote terminal `n`.
pub open spec fn rt_address(n: u8) -> Seq<char> {
    seq!['R', 'T'] + decimal(n as nat)
}

/// The address of the bus controller.
pub open spec fn bc_address() -> Seq<char> {
    seq!['B', 'C']
}

/// The source address of a terminal-to-terminal transfer whose status word
/// is missing.
pub open spec fn unknown_address() -> Seq<char> {
    seq!['U', 'N', 'K', 'N', 'O', 'W', 'N']
}

/// Where a transfer comes from.
pub open spec fn legacy_source(m: Mil1553Message) -> Seq<char> {
    match m.message_type {
        MessageType::BcToRt | MessageType::ModeCode => bc_address(),
        MessageType::RtToBc => rt_address(m.remote_terminal_address),
        MessageType::RtToRt => match m.status_word {
            Some(s) => rt_address(terminal_of(s@)),
            None => unknown_address(),
        },
    }
}

/// Where a transfer goes.
pub open spec fn legacy_destination(m: Mil1553Message) -> Seq<char> {
    match m.message_type {
        MessageType::RtToBc => bc_address(),
        _ => rt_address(m.remote_terminal_address),
    }
}

/// The message id of a transfer: the timestamp shifted left by 16 bits, the
/// terminal address in bits 15 to 8 and the subaddress in bits 7 to 0.
pub open spec fn legacy_message_id(ts: u64, rt: u8, sa: u8) -> u64 {
    ((ts % 0x1000000000000) * 0x10000 + rt * 256 + sa) as u64
}

/// Whether `c` is the normalized form of `m`.
pub open spec fn legacy_normalized(m: Mil1553Message, c: CommonMessage) -> bool {
    let is_command = m.message_type == MessageType::BcToRt || m.message_type
        == MessageType::ModeCode;
    &&& c.source_protocol == ProtocolType::MilStd1553
    &&& c.target_protocol == Some(ProtocolType::EthernetIp)
    &&& c.priority == 2
    &&& c.payload@ == words_bytes(word_values(m.data_words@))
    &&& c.metadata.source_address@ == legacy_source(m)
    &&& c.metadata.destination_address@ == legacy_destination(m)
    &&& c.metadata.timestamp == m.timestamp
    &&& c.metadata.message_id == legacy_message_id(
        m.timestamp,
        m.remote_terminal_address,
        m.subaddress,
    )
    &&& c.metadata.is_command == is_command
    &&& c.metadata.requires_response == (m.message_type != MessageType::RtToBc)
}

/// Appends the bytes of `ws`.
fn push_words(out: &mut Vec<u8>, ws: &Vec<Word>)
    ensures
        final(out)@ == old(out)@ + words_bytes(word_values(ws@)),
{
    let mut i: usize = 0;
    while i < ws.len()
        invariant
            i <= ws@.len(),
            out@ == old(out)@ + words_bytes(word_values(ws@.subrange(0, i as int))),
        decreases ws@.len() - i,
    {
        push_u16(out, ws[i].value());
        proof {
            let p = word_values(ws@.subrange(0, i as int));
            let q = word_values(ws@.subrange(0, i + 1));
            assert(q.drop_last() =~= p);
            assert(q.last() == ws@[i as int]@);
            assert(out@ =~= old(out)@ + words_bytes(q));
        }
        i = i + 1;
    }
    assert(ws@.subrange(0, ws@.len() as int) =~= ws@);
}

/// The bytes of a transfer with the given words.
fn encode_transfer(cmd: u16, status: Option<Word>, data: &Vec<Word>) -> (r: Vec<u8>)
    ensures
        r@ == legacy_bytes(cmd, opt_word(status), word_values(data@)),
{
    let mut out: Vec<u8> = Vec::new();
    push_u16(&mut out, cmd);
    if let Some(s) = status {
        push_u16(&mut out, s.value());
    }
    push_words(&mut out, data);
    assert(out@ =~= legacy_bytes(cmd, opt_word(status), word_values(data@)));
    out
}

impl Mil1553Message {
    /// A transfer stamped with `timestamp`; the address, subaddress and word
    /// count are read from the command word.
    pub fn new_at(
        message_type: MessageType,
        command_word: Word,
        status_word: Option<Word>,
        data_words: Vec<Word>,
        timestamp: u64,
    ) -> (r: Mil1553Message)
        ensures
            r.message_type == message_type,
            r.command_word@ == command_word@,
            opt_word(r.status_word) == opt_word(status_word),
            r.data_words@ == data_words@,
            r.timestamp == timestamp,
            r.remote_terminal_address == terminal_of(command_word@),
            r.subaddress == subaddress_of(command_word@),
            r.word_count == word_count_of(command_word@),
    {
        let cmd = command_word.value();
        Mil1553Message {
            message_type,
            command_word,
            status_word,
            data_words,
            timestamp,
            remote_terminal_address: (cmd / 2048) as u8,
            subaddress: ((cmd / 32) % 32) as u8,
            word_count: (cmd % 32) as u8,
        }
    }

    /// A transfer stamped with the current time.
    pub fn new(
        message_type: MessageType,
        command_word: Word,
        status_word: Option<Word>,
        data_words: Vec<Word>,
    ) -> (r: Mil1553Message)
        ensures
            r.message_type == message_type,
            r.command_word@ == command_word@,
            opt_word(r.status_word) == opt_word(status_word),
            r.data_words@ == data_words@,
            r.remote_terminal_address == terminal_of(command_word@),
            r.subaddress == subaddress_of(command_word@),
            r.word_count == word_count_of(command_word@),
    {
        Mil1553Message::new_at(message_type, command_word, status_word, data_words, current_time_millis())
    }

    /// The bytes of the transfer: command word, status word if present, then
    /// each data word, all big-endian.
    pub fn to_bytes(&self) -> (r: Vec<u8>)
        ensures
            r@ == message_bytes(*self),
    {
        encode_transfer(self.command_word.value(), self.status_word, &self.data_words)
    }

    fn generate_message_id(&self) -> (r: u64)
        ensures
            r == legacy_message_id(self.timestamp, self.remote_terminal_address, self.subaddress),
    {
        (self.timestamp % 0x1000000000000) * 0x10000 + (self.remote_terminal_address as u64) * 256
            + (self.subaddress as u64)
    }

    /// The normalized form of the transfer.
    pub fn to_common(&self) -> (r: CommonMessage)
        ensures
            legacy_normalized(*self, r),
    {
        let source_address = match self.message_type {
            MessageType::BcToRt | MessageType::ModeCode => bc_string(),
            MessageType::RtToBc => rt_string(self.remote_terminal_address),
            MessageType::RtToRt => match self.status_word {
                Some(s) => rt_string((s.value() / 2048) as u8),
                None => unknown_string(),
            },
        };
        let destination_address = match self.message_type {
            MessageType::RtToBc => bc_string(),
            _ => rt_string(self.remote_terminal_address),
        };
        let mut payload: Vec<u8> = Vec::new();
        push_words(&mut payload, &self.data_words);
        assert(payload@ =~= words_bytes(word_values(self.data_words@)));
        let is_command = match self.message_type {
            MessageType::BcToRt | MessageType::ModeCode => true,
            _ => false,
        };
        let requires_response = match self.message_type {
            MessageType::RtToBc => false,
            _ => true,
        };
        CommonMessage {
            source_protocol: ProtocolType::MilStd1553,
            target_protocol: Some(ProtocolType::EthernetIp),
            priority: 2,
            payload,
            metadata: MessageMetadata {
                source_address,
                destination_address,
                timestamp: self.timestamp,
                message_id: self.generate_message_id(),
                is_command,
                requires_response,
            },
        }
    }
}

fn bc_string() -> (r: String)
    ensures
        r@ == bc_address(),
{
    proof {
        reveal_strlit("BC");
    }
    let r = String::from_str("BC");
    assert(r@ =~= bc_address());
    r
}

fn unknown_string() -> (r: String)
    ensures
        r@ == unknown_address(),
{
    proof {
        reveal_strlit("UNKNOWN");
    }
    let r = String::from_str("UNKNOWN");
    assert(r@ =~= unknown_address());
    r
}

/// The address `RT<n>`.
pub fn rt_string(n: u8) -> (r: String)
    ensures
        r@ == rt_address(n),
{
    proof {
        reveal_strlit("RT");
    }
    let mut r = String::from_str("RT");
    assert(r@ =~= seq!['R', 'T']);
    push_decimal(&mut r, n);
    r
}

impl Message for Mil1553Message {
    fn to_common_format(&self) -> (r: Result<CommonMessage, GatewayError>)
        ensures
            r matches Ok(c) && legacy_normalized(*self, c),
    {
        Ok(self.to_common())
    }

    fn protocol_type(&self) -> (r: ProtocolType)
        ensures
            r == ProtocolType::MilStd1553,
    {
        ProtocolType::MilStd1553
    }
}

/// Parses a transfer and stamps it with `now`.
pub fn parse_mil_std_1553_at(data: &[u8], now: u64) -> (r: Result<Mil1553Message, GatewayError>)
    ensures
        r is Err <==> data@.len() < 2,
        r matches Err(e) ==> e == GatewayError::Parse,
        r matches Ok(m) ==> parsed_as(m, data@, now),
{
    if data.len() < 2 {
        return Err(GatewayError::Parse);
    }
    let cmd = read_u16(data, 0);
    let subaddress = (cmd / 32) % 32;
    let tr_bit = (cmd / 1024) % 2;
    let message_type = if subaddress == 0 {
        MessageType::ModeCode
    } else if tr_bit == 0 {
        MessageType::BcToRt
    } else {
        MessageType::RtToBc
    };
    let mut pos: usize = 2;
    let mut status_word: Option<Word> = None;
    if data.len() >= 4 && message_type == MessageType::RtToBc {
        status_word = Some(Word::new(read_u16(data, 2)));
        pos = 4;
    }
    let ghost b = data@;
    assert(pos == parsed_data_start(b));
    let mut data_words: Vec<Word> = Vec::new();
    while pos + 2 <= data.len() && data_words.len() < 32
        invariant
            b == data@,
            pos == parsed_data_start(b) + 2 * data_words@.len(),
            pos <= data@.len(),
            data_words@.len() <= 32,
            data_words@.len() <= parsed_data_count(b),
            word_values(data_words@) == parsed_data(b).subrange(0, data_words@.len() as int),
        decreases 32 - data_words@.len(),
    {
        let ghost i = data_words@.len() as int;
        data_words.push(Word::new(read_u16(data, pos)));
        pos = pos + 2;
        assert(word_values(data_words@) =~= parsed_data(b).subrange(0, i + 1));
    }
    assert(data_words@.len() == parsed_data_count(b));
    assert(word_values(data_words@) =~= parsed_data(b));
    Ok(Mil1553Message::new_at(message_type, Word::new(cmd), status_word, data_words, now))
}

/// Parses a transfer and stamps it with the current time.
pub fn parse_mil_std_1553(data: &[u8]) -> (r: Result<Mil1553Message, GatewayError>)
    ensures
        r is Err <==> data@.len() < 2,
        r matches Err(e) ==> e == GatewayError::Parse,
        r matches Ok(m) ==> parsed_as(m, data@, m.timestamp),
{
    parse_mil_std_1553_at(data, current_time_millis())
}

/// Whether a command word is usable: a word count of zero stands only in a
/// broadcast (terminal 31).
pub fn validate_command_word(word: u16) -> (r: bool)
    ensures
        r == (word_count_of(word) > 0 || terminal_of(word) == 31),
{
    let rt_addr = word / 2048;
    let word_count = word % 32;
    word_count > 0 || rt_addr == 31
}

/// Whether a status word reports no message error (bit 9 clear).
pub fn validate_status_word(word: u16) -> (r: bool)
    ensures
        r == ((word / 512) % 2 == 0),
{
    (word / 512) % 2 == 0
}

/// The payload as bus words: each pair of bytes big-endian, a last odd byte
/// padded with a zero low byte.
pub open spec fn payload_words(p: Seq<u8>) -> Seq<u16> {
    Seq::new(
        ((p.len() + 1) / 2) as nat,
        |i: int| be16(p[2 * i], if 2 * i + 1 < p.len() { p[2 * i + 1] } else { 0 }),
    )
}

/// Whether an address has the form `RT...`.
pub open spec fn starts_rt(s: Seq<char>) -> bool {
    s.len() >= 2 && s[0] == 'R' && s[1] == 'T'
}

/// The terminal that a destination address names: the number after `RT`,
/// or terminal 1 where there is none.
pub open spec fn format_terminal(dest: Seq<char>) -> u8 {
    if starts_rt(dest) {
        match parse_u8_spec(dest.subrange(2, dest.len() as int)) {
            Some(n) => n,
            None => 1,
        }
    } else {
        1
    }
}

/// The command word of an outgoing transfer: the terminal's low five bits in
/// bits 15 to 11, the transmit/receive bit, subaddress 1, and the word count
/// capped at 32 written into bits 5 to 0 together with the subaddress bit.
pub open spec fn format_command(rt: u8, tr: bool, n_words: int) -> u16 {
    ((rt % 32) as int * 2048 + (if tr { 1024int } else { 0 }) + (if n_words >= 32 {
        32int
    } else {
        32 + n_words
    })) as u16
}

/// The bytes that `format` gives for a normalized message.
pub open spec fn formatted_bytes(c: CommonMessage) -> Seq<u8> {
    let words = payload_words(c.payload@);
    legacy_bytes(
        format_command(
            format_terminal(c.metadata.destination_address@),
            starts_rt(c.metadata.source_address@),
            words.len() as int,
        ),
        None,
        words,
    )
}

/// Codec of the legacy bus.
#[derive(Debug)]
pub struct Mil1553Handler {}

impl Mil1553Handler {
    pub fn new() -> (r: Mil1553Handler) {
        Mil1553Handler {  }
    }
}

fn starts_with_rt(s: &str) -> (r: bool)
    ensures
        r == starts_rt(s@),
{
    s.unicode_len() >= 2 && s.get_char(0) == 'R' && s.get_char(1) == 'T'
}

fn destination_terminal(dest: &str) -> (r: u8)
    ensures
        r == format_terminal(dest@),
{
    if !starts_with_rt(dest) {
        return 1;
    }
    let rest = dest.substring_char(2, dest.unicode_len());
    match parse_u8(rest) {
        Some(n) => n,
        None => 1,
    }
}

fn words_of_payload(p: &Vec<u8>) -> (r: Vec<Word>)
    ensures
        word_values(r@) == payload_words(p@),
{
    let n = p.len();
    let mut r: Vec<Word> = Vec::new();
    let mut i: usize = 0;
    while i + 1 < n
        invariant
            n == p@.len(),
            i % 2 == 0,
            i <= n,
            r@.len() == i / 2,
            word_values(r@) == payload_words(p@).subrange(0, (i / 2) as int),
        decreases n - i,
    {
        r.push(Word::new((p[i] as u16) * 256 + (p[i + 1] as u16)));
        i = i + 2;
        assert(word_values(r@) =~= payload_words(p@).subrange(0, (i / 2) as int));
    }
    if i < n {
        let ghost prev = word_values(r@);
        r.push(Word::new((p[i] as u16) * 256));
        assert(i + 1 == n);
        assert(payload_words(p@).len() == i / 2 + 1);
        assert(payload_words(p@)[(i / 2) as int] == be16(p@[i as int], 0));
        assert(word_values(r@) =~= prev.push(be16(p@[i as int], 0)));
        assert(word_values(r@) =~= payload_words(p@));
    } else {
        assert(i == n);
        assert(payload_words(p@).len() == i / 2);
        assert(payload_words(p@).subrange(0, (i / 2) as int) =~= payload_words(p@));
    }
    r
}

impl Mil1553Handler {
    /// Encodes a normalized message as a controller or terminal transfer to
    /// the terminal its destination address names.
    pub fn format_bytes(&self, message: &CommonMessage) -> (r: Vec<u8>)
        ensures
            r@ == formatted_bytes(*message),
    {
        let rt = destination_terminal(message.metadata.destination_address.as_str());
        let tr = starts_with_rt(message.metadata.source_address.as_str());
        let words = words_of_payload(&message.payload);
        let n = words.len();
        let wc: u16 = if n >= 32 { 32 } else { 32 + n as u16 };
        let cmd: u16 = ((rt % 32) as u16) * 2048 + (if tr { 1024 } else { 0 }) + wc;
        encode_transfer(cmd, None, &words)
    }
}

impl ProtocolHandler for Mil1553Handler {
    type Msg = Mil1553Message;

    fn parse(&self, data: &[u8]) -> (r: Result<Mil1553Message, GatewayError>)
        ensures
            r is Err <==> data@.len() < 2,
            r matches Ok(m) ==> parsed_as(m, data@, m.timestamp),
    {
        parse_mil_std_1553(data)
    }

    fn format(&self, message: &CommonMessage) -> (r: Result<Vec<u8>, GatewayError>)
        ensures
            r matches Ok(b) && b@ == formatted_bytes(*message),
    {
        Ok(self.format_bytes(message))
    }

    fn protocol_type(&self) -> (r: ProtocolType)
        ensures
            r == ProtocolType::MilStd1553,
    {
        ProtocolType::MilStd1553
    }
}

/// The command word of any transfer survives its bytes: parsing what
/// `to_bytes` gives succeeds and reads the same command word back.
pub proof fn law_command_word_round_trip(cmd: u16, status: Option<u16>, data: Seq<u16>)
    ensures
        legacy_bytes(cmd, status, data).len() >= 2,
        parsed_command(legacy_bytes(cmd, status, data)) == cmd,
{
    let b = legacy_bytes(cmd, status, data);
    assert(b[0] == be16_bytes(cmd)[0] && b[1] == be16_bytes(cmd)[1]);
    crate::wire::lemma_be16_round_trip(cmd);
}

} // verus!
