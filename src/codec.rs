//! Length-prefixed binary encodings of the envelope and of normalized
//! messages. Lengths are eight big-endian bytes; characters are written as
//! their four-byte scalar values; an optional field is a tag byte (0 absent,
//! 1 present) followed by the field.

use vstd::prelude::*;

use crate::error::GatewayError;
use crate::protocols::{CommonMessage, ProtocolType};
use crate::security::{opt_bytes, SecuredMessage, SecurityHeader, SecurityMode};
use crate::wire::{
    be32_at, be32_bytes, be64_at, be64_bytes, copy_range, push_all, push_u32, push_u64,
    read_u32, read_u64,
};

verus! {

/// A byte string with its length in front.
pub open spec fn bytes_field(b: Seq<u8>) -> Seq<u8> {
    be64_bytes(b.len() as u64) + b
}

/// Characters as four-byte scalar values.
pub open spec fn chars_bytes(cs: Seq<char>) -> Seq<u8>
    decreases cs.len(),
{
    if cs.len() == 0 {
        Seq::empty()
    } else {
        chars_bytes(cs.drop_last()) + be32_bytes(cs.last() as u32)
    }
}

/// A string with its length in characters in front.
pub open spec fn chars_field(cs: Seq<char>) -> Seq<u8> {
    be64_bytes(cs.len() as u64) + chars_bytes(cs)
}

/// An optional byte string.
pub open spec fn opt_field(o: Option<Seq<u8>>) -> Seq<u8> {
    match o {
        Some(b) => seq![1u8] + bytes_field(b),
        None => seq![0u8],
    }
}

/// The byte of a security mode.
pub open spec fn mode_byte(m: SecurityMode) -> u8 {
    match m {
        SecurityMode::Plain => 0,
        SecurityMode::Signed => 1,
        SecurityMode::Encrypted => 2,
        SecurityMode::EncryptedAndSigned => 3,
    }
}

/// The encoding of a secured message.
pub open spec fn secured_bytes(s: SecuredMessage) -> Seq<u8> {
    seq![s.header.version, mode_byte(s.header.mode)] + chars_field(s.header.key_id@) + bytes_field(
        s.header.nonce@,
    ) + opt_field(opt_bytes(s.header.signature)) + bytes_field(s.payload@) + opt_field(
        opt_bytes(s.hmac),
    )
}

/// Whether two secured messages hold the same values.
pub open spec fn same_secured(a: SecuredMessage, b: SecuredMessage) -> bool {
    &&& a.header.version == b.header.version
    &&& a.header.mode == b.header.mode
    &&& a.header.key_id@ == b.header.key_id@
    &&& a.header.nonce@ == b.header.nonce@
    &&& opt_bytes(a.header.signature) == opt_bytes(b.header.signature)
    &&& a.payload@ == b.payload@
    &&& opt_bytes(a.hmac) == opt_bytes(b.hmac)
}

/// The byte of a protocol.
pub open spec fn protocol_byte(p: ProtocolType) -> u8 {
    match p {
        ProtocolType::MilStd1553 => 0,
        ProtocolType::EthernetIp => 1,
    }
}

/// An optional protocol: a tag byte, then the protocol's byte.
pub open spec fn opt_protocol_field(p: Option<ProtocolType>) -> Seq<u8> {
    match p {
        Some(x) => seq![1u8, protocol_byte(x)],
        None => seq![0u8],
    }
}

/// The encoding of a normalized message.
pub open spec fn common_bytes(m: CommonMessage) -> Seq<u8> {
    seq![protocol_byte(m.source_protocol)] + opt_protocol_field(m.target_protocol) + seq![m.priority]
        + bytes_field(m.payload@) + chars_field(m.metadata.source_address@) + chars_field(
        m.metadata.destination_address@,
    ) + be64_bytes(m.metadata.timestamp) + be64_bytes(m.metadata.message_id) + seq![
        m.metadata.is_command as u8,
        m.metadata.requires_response as u8,
    ]
}

pub(crate) fn put_bytes(out: &mut Vec<u8>, b: &[u8])
    ensures
        final(out)@ == old(out)@ + bytes_field(b@),
{
    push_u64(out, b.len() as u64);
    push_all(out, b);
    assert(final(out)@ =~= old(out)@ + bytes_field(b@));
}

pub(crate) fn put_chars(out: &mut Vec<u8>, s: &str)
    ensures
        final(out)@ == old(out)@ + chars_field(s@),
{
    let n = s.unicode_len();
    push_u64(out, n as u64);
    let ghost head = out@;
    let mut i: usize = 0;
    while i < n
        invariant
            n == s@.len(),
            i <= n,
            out@ == head + chars_bytes(s@.subrange(0, i as int)),
        decreases n - i,
    {
        push_u32(out, s.get_char(i) as u32);
        proof {
            let q = s@.subrange(0, i + 1);
            assert(q.drop_last() =~= s@.subrange(0, i as int));
            assert(q.last() == s@[i as int]);
        }
        i = i + 1;
        assert(out@ =~= head + chars_bytes(s@.subrange(0, i as int)));
    }
    assert(s@.subrange(0, n as int) =~= s@);
    assert(final(out)@ =~= old(out)@ + chars_field(s@));
}

fn put_opt(out: &mut Vec<u8>, o: &Option<Vec<u8>>)
    ensures
        final(out)@ == old(out)@ + opt_field(opt_bytes(*o)),
{
    match o {
        Some(b) => {
            out.push(1);
            put_bytes(out, b.as_slice());
        },
        None => {
            out.push(0);
        },
    }
    assert(final(out)@ =~= old(out)@ + opt_field(opt_bytes(*o)));
}

fn mode_to_byte(m: SecurityMode) -> (r: u8)
    ensures
        r == mode_byte(m),
{
    match m {
        SecurityMode::Plain => 0,
        SecurityMode::Signed => 1,
        SecurityMode::Encrypted => 2,
        SecurityMode::EncryptedAndSigned => 3,
    }
}

fn protocol_to_byte(p: ProtocolType) -> (r: u8)
    ensures
        r == protocol_byte(p),
{
    match p {
        ProtocolType::MilStd1553 => 0,
        ProtocolType::EthernetIp => 1,
    }
}

/// The encoding of a secured message.
pub fn serialize_secured(s: &SecuredMessage) -> (r: Vec<u8>)
    ensures
        r@ == secured_bytes(*s),
{
    let mut out: Vec<u8> = Vec::new();
    out.push(s.header.version);
    out.push(mode_to_byte(s.header.mode));
    put_chars(&mut out, s.header.key_id.as_str());
    put_bytes(&mut out, s.header.nonce.as_slice());
    put_opt(&mut out, &s.header.signature);
    put_bytes(&mut out, s.payload.as_slice());
    put_opt(&mut out, &s.hmac);
    assert(out@ =~= secured_bytes(*s));
    out
}

/// The encoding of a normalized message.
pub fn serialize_common(m: &CommonMessage) -> (r: Vec<u8>)
    ensures
        r@ == common_bytes(*m),
{
    let mut out: Vec<u8> = Vec::new();
    out.push(protocol_to_byte(m.source_protocol));
    match m.target_protocol {
        Some(p) => {
            out.push(1);
            out.push(protocol_to_byte(p));
        },
        None => {
            out.push(0);
        },
    }
    out.push(m.priority);
    put_bytes(&mut out, m.payload.as_slice());
    put_chars(&mut out, m.metadata.source_address.as_str());
    put_chars(&mut out, m.metadata.destination_address.as_str());
    push_u64(&mut out, m.metadata.timestamp);
    push_u64(&mut out, m.metadata.message_id);
    out.push(if m.metadata.is_command { 1 } else { 0 });
    out.push(if m.metadata.requires_response { 1 } else { 0 });
    assert(out@ =~= common_bytes(*m));
    out
}

/// Relies on std's `char::from_u32`: the character with scalar value `v`,
/// or nothing where `v` is a surrogate or above 0x10FFFF.
#[verifier::external_body]
fn char_of(v: u32) -> (r: Option<char>)
    ensures
        r matches Some(c) ==> c as u32 == v,
        (v <= 0xD7FF || (0xE000 <= v && v <= 0x10FFFF)) ==> r is Some,
{
    char::from_u32(v)
}

/// Relies on std's `String::push`: appends one character.
#[verifier::external_body]
fn push_char(s: &mut String, c: char)
    ensures
        final(s)@ == old(s)@.push(c),
{
    s.push(c)
}

pub proof fn lemma_be32_window(s: Seq<u8>, at: int, v: u32)
    requires
        0 <= at,
        at + 4 <= s.len(),
        s.subrange(at, at + 4) == be32_bytes(v),
    ensures
        be32_at(s, at) == v,
{
    crate::wire::lemma_be32_round_trip(v);
    let w = s.subrange(at, at + 4);
    assert(s[at] == w[0] && s[at + 1] == w[1] && s[at + 2] == w[2] && s[at + 3] == w[3]);
}

pub proof fn lemma_be64_window(s: Seq<u8>, at: int, v: u64)
    requires
        0 <= at,
        at + 8 <= s.len(),
        s.subrange(at, at + 8) == be64_bytes(v),
    ensures
        be64_at(s, at) == v,
{
    crate::wire::lemma_be64_round_trip(v);
    let hi = (v / 0x100000000) as u32;
    let lo = (v % 0x100000000) as u32;
    assert(s.subrange(at, at + 4) =~= be32_bytes(hi)) by {
        assert(s.subrange(at, at + 4) =~= s.subrange(at, at + 8).subrange(0, 4));
    }
    assert(s.subrange(at + 4, at + 8) =~= be32_bytes(lo)) by {
        assert(s.subrange(at + 4, at + 8) =~= s.subrange(at, at + 8).subrange(4, 8));
    }
    lemma_be32_window(s, at, hi);
    lemma_be32_window(s, at + 4, lo);
    crate::wire::lemma_be32_round_trip(hi);
    crate::wire::lemma_be32_round_trip(lo);
}

proof fn lemma_chars_bytes_len(cs: Seq<char>)
    ensures
        chars_bytes(cs).len() == 4 * cs.len(),
    decreases cs.len(),
{
    if cs.len() > 0 {
        lemma_chars_bytes_len(cs.drop_last());
    }
}

proof fn lemma_chars_bytes(cs: Seq<char>)
    ensures
        chars_bytes(cs).len() == 4 * cs.len(),
        forall|k: int|
            0 <= k < cs.len() ==> #[trigger] chars_bytes(cs).subrange(4 * k, 4 * k + 4) == be32_bytes(
                cs[k] as u32,
            ),
    decreases cs.len(),
{
    if cs.len() > 0 {
        let d = cs.drop_last();
        lemma_chars_bytes(d);
        let all = chars_bytes(cs);
        assert forall|k: int| 0 <= k < cs.len() implies #[trigger] all.subrange(4 * k, 4 * k + 4)
            == be32_bytes(cs[k] as u32) by {
            if k < d.len() {
                assert(all.subrange(4 * k, 4 * k + 4) =~= chars_bytes(d).subrange(4 * k, 4 * k + 4));
                assert(d[k] == cs[k]);
            } else {
                assert(all.subrange(4 * k, 4 * k + 4) =~= be32_bytes(cs.last() as u32));
            }
        }
    }
}

/// Whether `b` holds `f` at `pos`.
#[verifier::opaque]
pub open spec fn holds_at(b: Seq<u8>, pos: int, f: Seq<u8>) -> bool {
    0 <= pos && pos + f.len() <= b.len() && b.subrange(pos, pos + f.len()) == f
}

/// A concatenation found at `pos` is its two parts one after the other.
pub proof fn lemma_holds_concat(b: Seq<u8>, pos: int, x: Seq<u8>, y: Seq<u8>)
    requires
        holds_at(b, pos, x + y),
    ensures
        holds_at(b, pos, x),
        holds_at(b, pos + x.len(), y),
{
    reveal(holds_at);
    let w = b.subrange(pos, pos + (x + y).len());
    assert(w == x + y);
    assert(b.subrange(pos, pos + x.len()) =~= w.subrange(0, x.len() as int));
    assert(w.subrange(0, x.len() as int) =~= x);
    assert(b.subrange(pos + x.len(), pos + x.len() + y.len()) =~= w.subrange(x.len() as int, w.len() as int));
    assert(w.subrange(x.len() as int, w.len() as int) =~= y);
}

pub(crate) fn take_bytes(b: &[u8], pos: usize) -> (r: Option<(Vec<u8>, usize)>)
    ensures
        forall|v: Seq<u8>|
            holds_at(b@, pos as int, #[trigger] bytes_field(v)) ==> (r matches Some((x, q)) && x@ == v && q
                == pos + bytes_field(v).len()),
{
    reveal(holds_at);
    let n = b.len();
    if pos > n || n - pos < 8 {
        proof {
            assert forall|v: Seq<u8>| !holds_at(b@, pos as int, #[trigger] bytes_field(v)) by {
                if holds_at(b@, pos as int, bytes_field(v)) {
                    assert(bytes_field(v).len() >= 8);
                }
            }
        }
        return None;
    }
    let len = read_u64(b, pos);
    if len > (n - pos - 8) as u64 {
        proof {
            assert forall|v: Seq<u8>| !holds_at(b@, pos as int, #[trigger] bytes_field(v)) by {
                if holds_at(b@, pos as int, bytes_field(v)) {
                    assert(b@.subrange(pos as int, pos + 8) =~= bytes_field(v).subrange(0, 8));
                    assert(bytes_field(v).subrange(0, 8) =~= be64_bytes(v.len() as u64));
                    lemma_be64_window(b@, pos as int, v.len() as u64);
                }
            }
        }
        return None;
    }
    let start = pos + 8;
    let end = start + len as usize;
    let x = copy_range(b, start, end);
    proof {
        assert forall|v: Seq<u8>| holds_at(b@, pos as int, #[trigger] bytes_field(v)) implies x@ == v
            && end == pos + bytes_field(v).len() by {
            assert(b@.subrange(pos as int, pos + 8) =~= bytes_field(v).subrange(0, 8));
            assert(bytes_field(v).subrange(0, 8) =~= be64_bytes(v.len() as u64));
            lemma_be64_window(b@, pos as int, v.len() as u64);
            assert(v =~= bytes_field(v).subrange(8, bytes_field(v).len() as int));
            assert(x@ =~= v);
        }
    }
    Some((x, end))
}

fn take_opt(b: &[u8], pos: usize) -> (r: Option<(Option<Vec<u8>>, usize)>)
    ensures
        forall|o: Option<Seq<u8>>|
            holds_at(b@, pos as int, #[trigger] opt_field(o)) ==> (r matches Some((x, q)) && opt_bytes(x)
                == o && q == pos + opt_field(o).len()),
{
    reveal(holds_at);
    if pos >= b.len() {
        assert forall|o: Option<Seq<u8>>| !holds_at(b@, pos as int, #[trigger] opt_field(o)) by {}
        return None;
    }
    let tag = b[pos];
    if tag == 0 {
        proof {
            assert forall|o: Option<Seq<u8>>| holds_at(b@, pos as int, #[trigger] opt_field(o)) implies o is None by {
                if o is Some {
                    assert(b@[pos as int] == opt_field(o)[0]);
                }
            }
        }
        Some((None, pos + 1))
    } else if tag == 1 {
        let r = take_bytes(b, pos + 1);
        proof {
            assert forall|o: Option<Seq<u8>>| holds_at(b@, pos as int, #[trigger] opt_field(o)) implies (r matches Some((x, q))
                && Some(x@) == o && q == pos + opt_field(o).len()) by {
                if o is None {
                    assert(b@[pos as int] == opt_field(o)[0]);
                } else {
                    let v = o->Some_0;
                    assert(b@.subrange(pos + 1, pos + 1 + bytes_field(v).len()) =~= opt_field(o).subrange(1, opt_field(o).len() as int));
                    assert(opt_field(o).subrange(1, opt_field(o).len() as int) =~= bytes_field(v));
                    assert(holds_at(b@, pos + 1, bytes_field(v)));
                }
            }
        }
        match r {
            Some((x, q)) => Some((Some(x), q)),
            None => None,
        }
    } else {
        proof {
            assert forall|o: Option<Seq<u8>>| !holds_at(b@, pos as int, #[trigger] opt_field(o)) by {
                if holds_at(b@, pos as int, opt_field(o)) {
                    assert(b@[pos as int] == opt_field(o)[0]);
                }
            }
        }
        None
    }
}

pub proof fn lemma_chars_field_count(b: Seq<u8>, pos: int, cs: Seq<char>)
    requires
        holds_at(b, pos, chars_field(cs)),
        b.len() <= u64::MAX,
    ensures
        be64_at(b, pos) == cs.len(),
        chars_field(cs).len() == 8 + 4 * cs.len(),
{
    reveal(holds_at);
    lemma_chars_bytes_len(cs);
    let n = cs.len() as u64;
    crate::wire::lemma_be64_round_trip(n);
    let head = be64_bytes(n);
    let tail = chars_bytes(cs);
    let f = chars_field(cs);
    assert(f == head + tail);
    assert(f.subrange(0, 8) =~= head);
    assert(b.subrange(pos, pos + 8) =~= f.subrange(0, 8));
    lemma_be64_window(b, pos, n);
}

pub proof fn lemma_char_scalar(c: char)
    ensures
        (c as u32) as int == c as int,
        c as u32 <= 0xD7FF || (0xE000 <= c as u32 && c as u32 <= 0x10FFFF),
{
}

pub proof fn lemma_chars_field_scalar(b: Seq<u8>, pos: int, cs: Seq<char>, k: int)
    requires
        holds_at(b, pos, chars_field(cs)),
        0 <= k < cs.len(),
    ensures
        be32_at(b, pos + 8 + 4 * k) == cs[k] as u32,
        cs[k] as u32 <= 0xD7FF || (0xE000 <= cs[k] as u32 && cs[k] as u32 <= 0x10FFFF),
{
    reveal(holds_at);
    lemma_chars_bytes(cs);
    lemma_char_scalar(cs[k]);
    let f = chars_field(cs);
    assert(chars_bytes(cs).subrange(4 * k, 4 * k + 4) == be32_bytes(cs[k] as u32));
    assert(b.subrange(pos + 8 + 4 * k, pos + 8 + 4 * k + 4) =~= f.subrange(8 + 4 * k, 8 + 4 * k + 4));
    assert(f.subrange(8 + 4 * k, 8 + 4 * k + 4) =~= chars_bytes(cs).subrange(4 * k, 4 * k + 4));
    lemma_be32_window(b, pos + 8 + 4 * k, cs[k] as u32);
}

#[verifier::rlimit(50)]
pub(crate) fn take_chars(b: &[u8], pos: usize) -> (r: Option<(String, usize)>)
    ensures
        forall|cs: Seq<char>|
            holds_at(b@, pos as int, #[trigger] chars_field(cs)) ==> (r matches Some((x, q)) && x@ == cs && q
                == pos + chars_field(cs).len()),
{
    reveal(holds_at);
    let n = b.len();
    if pos > n || n - pos < 8 {
        proof {
            assert forall|cs: Seq<char>| !holds_at(b@, pos as int, #[trigger] chars_field(cs)) by {
                if holds_at(b@, pos as int, chars_field(cs)) {
                    lemma_chars_field_count(b@, pos as int, cs);
                }
            }
        }
        return None;
    }
    let count = read_u64(b, pos);
    let start = pos + 8;
    if count > ((n - start) / 4) as u64 {
        proof {
            assert forall|cs: Seq<char>| !holds_at(b@, pos as int, #[trigger] chars_field(cs)) by {
                if holds_at(b@, pos as int, chars_field(cs)) {
                    lemma_chars_field_count(b@, pos as int, cs);
                }
            }
        }
        return None;
    }
    let count = count as usize;
    let mut s = String::new();
    let mut k: usize = 0;
    while k < count
        invariant
            n == b@.len(),
            start == pos + 8,
            start + 4 * count <= n,
            count == be64_at(b@, pos as int),
            k <= count,
            forall|j: int| 0 <= j < k ==> (#[trigger] s@[j]) as u32 == be32_at(b@, start + 4 * j),
            s@.len() == k,
        decreases count - k,
    {
        assert(start + 4 * k + 4 <= n) by (nonlinear_arith)
            requires k < count, start + 4 * count <= n;
        let v = read_u32(b, start + 4 * k);
        match char_of(v) {
            Some(c) => {
                push_char(&mut s, c);
            },
            None => {
                proof {
                    assert forall|cs: Seq<char>| !holds_at(b@, pos as int, #[trigger] chars_field(cs)) by {
                        if holds_at(b@, pos as int, chars_field(cs)) {
                            lemma_chars_field_count(b@, pos as int, cs);
                            lemma_chars_field_scalar(b@, pos as int, cs, k as int);
                        }
                    }
                }
                return None;
            },
        }
        k = k + 1;
    }
    let end = start + 4 * count;
    proof {
        assert forall|cs: Seq<char>| holds_at(b@, pos as int, #[trigger] chars_field(cs)) implies s@ == cs && end
            == pos + chars_field(cs).len() by {
            lemma_chars_field_count(b@, pos as int, cs);
            assert forall|j: int| 0 <= j < cs.len() implies s@[j] == cs[j] by {
                lemma_chars_field_scalar(b@, pos as int, cs, j);
                assert(s@[j] as u32 == cs[j] as u32);
                lemma_char_scalar(s@[j]);
                lemma_char_scalar(cs[j]);
            }
            assert(s@ =~= cs);
        }
    }
    Some((s, end))
}

/// Two strings encoded at the same place are the same string.
pub proof fn lemma_chars_field_unique(b: Seq<u8>, pos: int, c1: Seq<char>, c2: Seq<char>)
    requires
        holds_at(b, pos, chars_field(c1)),
        holds_at(b, pos, chars_field(c2)),
        b.len() <= u64::MAX,
    ensures
        c1 == c2,
{
    lemma_chars_field_count(b, pos, c1);
    lemma_chars_field_count(b, pos, c2);
    assert forall|j: int| 0 <= j < c1.len() implies c1[j] == c2[j] by {
        lemma_chars_field_scalar(b, pos, c1, j);
        lemma_chars_field_scalar(b, pos, c2, j);
        lemma_char_scalar(c1[j]);
        lemma_char_scalar(c2[j]);
    }
    assert(c1 =~= c2);
}

/// Two byte strings encoded at the same place are the same byte string.
pub proof fn lemma_bytes_field_unique(b: Seq<u8>, pos: int, v1: Seq<u8>, v2: Seq<u8>)
    requires
        holds_at(b, pos, bytes_field(v1)),
        holds_at(b, pos, bytes_field(v2)),
        b.len() <= u64::MAX,
    ensures
        v1 == v2,
{
    reveal(holds_at);
    crate::wire::lemma_be64_round_trip(v1.len() as u64);
    crate::wire::lemma_be64_round_trip(v2.len() as u64);
    lemma_holds_concat(b, pos, be64_bytes(v1.len() as u64), v1);
    lemma_holds_concat(b, pos, be64_bytes(v2.len() as u64), v2);
    lemma_be64_window(b, pos, v1.len() as u64);
    lemma_be64_window(b, pos, v2.len() as u64);
}

/// A buffer holds itself at its start.
pub proof fn lemma_holds_whole(b: Seq<u8>)
    ensures
        holds_at(b, 0, b),
{
    reveal(holds_at);
    assert(b.subrange(0, b.len() as int) =~= b);
}

/// An encoding found at `pos` lies within the buffer.
pub proof fn lemma_holds_within(b: Seq<u8>, pos: int, f: Seq<u8>)
    requires
        holds_at(b, pos, f),
    ensures
        0 <= pos,
        pos + f.len() <= b.len(),
{
    reveal(holds_at);
}

/// Two eight-byte values encoded at the same place are the same value.
pub proof fn lemma_be64_unique(b: Seq<u8>, pos: int, v1: u64, v2: u64)
    requires
        holds_at(b, pos, be64_bytes(v1)),
        holds_at(b, pos, be64_bytes(v2)),
    ensures
        v1 == v2,
{
    reveal(holds_at);
    crate::wire::lemma_be64_round_trip(v1);
    crate::wire::lemma_be64_round_trip(v2);
    lemma_be64_window(b, pos, v1);
    lemma_be64_window(b, pos, v2);
}

fn mode_from_byte(v: u8) -> (r: Option<SecurityMode>)
    ensures
        forall|m: SecurityMode| mode_byte(m) == v ==> r == Some(m),
{
    match v {
        0 => Some(SecurityMode::Plain),
        1 => Some(SecurityMode::Signed),
        2 => Some(SecurityMode::Encrypted),
        3 => Some(SecurityMode::EncryptedAndSigned),
        _ => None,
    }
}

/// Where each field of the encoding of `s` starts, and where it ends.
spec fn secured_offsets(s: SecuredMessage) -> Seq<int> {
    let o1 = 2int;
    let o2 = o1 + chars_field(s.header.key_id@).len();
    let o3 = o2 + bytes_field(s.header.nonce@).len();
    let o4 = o3 + opt_field(opt_bytes(s.header.signature)).len();
    let o5 = o4 + bytes_field(s.payload@).len();
    let o6 = o5 + opt_field(opt_bytes(s.hmac)).len();
    seq![o1, o2, o3, o4, o5, o6]
}

proof fn lemma_secured_layout(s: SecuredMessage)
    ensures
        secured_bytes(s).len() == secured_offsets(s)[5],
        holds_at(secured_bytes(s), secured_offsets(s)[0], chars_field(s.header.key_id@)),
        holds_at(secured_bytes(s), secured_offsets(s)[1], bytes_field(s.header.nonce@)),
        holds_at(secured_bytes(s), secured_offsets(s)[2], opt_field(opt_bytes(s.header.signature))),
        holds_at(secured_bytes(s), secured_offsets(s)[3], bytes_field(s.payload@)),
        holds_at(secured_bytes(s), secured_offsets(s)[4], opt_field(opt_bytes(s.hmac))),
        secured_bytes(s)[0] == s.header.version,
        secured_bytes(s)[1] == mode_byte(s.header.mode),
{
    reveal(holds_at);
    let b = secured_bytes(s);
    let o = secured_offsets(s);
    assert(b.subrange(o[0], o[1]) =~= chars_field(s.header.key_id@));
    assert(b.subrange(o[1], o[2]) =~= bytes_field(s.header.nonce@));
    assert(b.subrange(o[2], o[3]) =~= opt_field(opt_bytes(s.header.signature)));
    assert(b.subrange(o[3], o[4]) =~= bytes_field(s.payload@));
    assert(b.subrange(o[4], o[5]) =~= opt_field(opt_bytes(s.hmac)));
}

/// Decodes a secured message. Exactly what `serialize_secured` produced
/// decodes, to a message with the same values; trailing bytes are refused.
pub fn deserialize_secured(b: &[u8]) -> (r: Result<SecuredMessage, GatewayError>)
    ensures
        forall|s: SecuredMessage|
            b@ == #[trigger] secured_bytes(s) ==> (r matches Ok(t) && same_secured(t, s)),
        r matches Err(e) ==> e == GatewayError::Parse,
{
    reveal(holds_at);
    if b.len() < 2 {
        proof {
            assert forall|s: SecuredMessage| b@ != #[trigger] secured_bytes(s) by {
                lemma_secured_layout(s);
            }
        }
        return Err(GatewayError::Parse);
    }
    let version = b[0];
    let mode = match mode_from_byte(b[1]) {
        Some(m) => m,
        None => {
            proof {
                assert forall|s: SecuredMessage| b@ != #[trigger] secured_bytes(s) by {
                    lemma_secured_layout(s);
                }
            }
            return Err(GatewayError::Parse);
        },
    };
    let parsed = match take_chars(b, 2) {
        Some((key_id, at2)) => match take_bytes(b, at2) {
            Some((nonce, at3)) => match take_opt(b, at3) {
                Some((signature, at4)) => match take_bytes(b, at4) {
                    Some((payload, at5)) => match take_opt(b, at5) {
                        Some((hmac, at6)) => if at6 == b.len() {
                            Some(
                                SecuredMessage {
                                    header: SecurityHeader { version, mode, key_id, nonce, signature },
                                    payload,
                                    hmac,
                                },
                            )
                        } else {
                            None
                        },
                        None => None,
                    },
                    None => None,
                },
                None => None,
            },
            None => None,
        },
        None => None,
    };
    proof {
        assert forall|s: SecuredMessage| b@ == #[trigger] secured_bytes(s) implies (parsed matches Some(t) && same_secured(t, s)) by {
            lemma_secured_layout(s);
        }
    }
    match parsed {
        Some(t) => Ok(t),
        None => Err(GatewayError::Parse),
    }
}

} // verus!
