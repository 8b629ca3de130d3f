//! Messages: an `XCOP` envelope around an `XVER` chunk (the protocol
//! version) and one chunk that carries the message itself.
use crate::clipboard::{clip_from_wire, clip_wire, ClipboardData, ClipboardView};
use crate::transferable::Transferable;
use crate::wire::{
    be_at, be_bytes, check_offset_bounds, chunk_bytes, encode_data, encode_data_raw, encode_header,
    encode_size, header_with_tag, read_data, read_header, read_header_expected, read_size,
    spec_expect_header, spec_read_data, spec_read_header, spec_read_size, string_from_utf8,
    tag_of, Chunk, EncodeError, HeaderType, ParseErrors, ParseFailure, ReaderOffset,
};
use vstd::prelude::*;
use vstd::utf8::{decode_utf8, encode_utf8, valid_utf8};

verus! {

/// What a node tells others about itself.
#[derive(Debug, PartialEq, Clone)]
pub struct PeerData {
    pub peer_name: String,
}

impl View for PeerData {
    type V = Seq<char>;

    open spec fn view(&self) -> Seq<char> {
        self.peer_name@
    }
}

#[derive(Debug, PartialEq)]
pub enum MessageType {
    Xacn(PeerData),
    Xcon(PeerData),
    Xcpy,
    Xdis,
    Xpst(ClipboardData),
    NoMessage,
}

/// A message as plain values.
pub enum MessageView {
    Xacn(Seq<char>),
    Xcon(Seq<char>),
    Xcpy,
    Xdis,
    Xpst(ClipboardView),
    NoMessage,
}

impl View for MessageType {
    type V = MessageView;

    open spec fn view(&self) -> MessageView {
        match self {
            MessageType::Xacn(p) => MessageView::Xacn(p@),
            MessageType::Xcon(p) => MessageView::Xcon(p@),
            MessageType::Xcpy => MessageView::Xcpy,
            MessageType::Xdis => MessageView::Xdis,
            MessageType::Xpst(c) => MessageView::Xpst(c@),
            MessageType::NoMessage => MessageView::NoMessage,
        }
    }
}

/// The byte form of a peer's name: one byte of length, then the UTF-8 bytes.
pub open spec fn peer_wire(name: Seq<char>) -> Result<Seq<u8>, EncodeError> {
    let b = encode_utf8(name);
    if b.len() > 255 {
        Err(EncodeError::Overflow)
    } else {
        Ok(seq![b.len() as u8] + b)
    }
}

pub open spec fn peer_from_wire(d: Seq<u8>) -> Result<Seq<char>, ParseFailure> {
    if d.len() < 1 {
        Err(ParseFailure::OutOfBounds)
    } else if d.len() < 1 + d[0] {
        Err(ParseFailure::OutOfBounds)
    } else if !valid_utf8(d.subrange(1, 1 + d[0])) {
        Err(ParseFailure::InvalidStructure)
    } else {
        Ok(decode_utf8(d.subrange(1, 1 + d[0])))
    }
}

impl Transferable for PeerData {
    open spec fn wire_form(v: Seq<char>) -> Result<Seq<u8>, EncodeError> {
        peer_wire(v)
    }

    open spec fn from_wire(data: Seq<u8>) -> Result<Seq<char>, ParseFailure> {
        peer_from_wire(data)
    }

    fn serialize(&self) -> (r: Result<Vec<u8>, EncodeError>) {
        let name = self.peer_name.as_str().as_bytes();
        if name.len() > 255 {
            return Err(EncodeError::Overflow);
        }
        let mut encoded: Vec<u8> = Vec::new();
        encoded.push(name.len() as u8);
        encode_data_raw(name, &mut encoded);
        assert(encoded@ =~= seq![name@.len() as u8] + name@);
        Ok(encoded)
    }

    fn deserialize(data: &[u8]) -> (r: Result<Self, ParseErrors>) {
        check_offset_bounds(data, 0, 1)?;
        let str_len = data[0] as usize;
        let mut o = ReaderOffset { offset: 1 };
        let name = read_data(data, &mut o, str_len)?;
        match string_from_utf8(name) {
            Some(peer_name) => Ok(PeerData { peer_name }),
            None => Err(ParseErrors::InvalidStructure),
        }
    }
}

/// The chunk that carries `m`; no chunk at all for `NoMessage`.
pub open spec fn payload_chunk(m: MessageView) -> Result<Seq<u8>, EncodeError> {
    match m {
        MessageView::Xacn(n) => match peer_wire(n) {
            Ok(b) => Ok(chunk_bytes(tag_of(HeaderType::Xacn), b)),
            Err(e) => Err(e),
        },
        MessageView::Xcon(n) => match peer_wire(n) {
            Ok(b) => Ok(chunk_bytes(tag_of(HeaderType::Xcon), b)),
            Err(e) => Err(e),
        },
        MessageView::Xcpy => Ok(chunk_bytes(tag_of(HeaderType::Xcpy), Seq::empty())),
        MessageView::Xdis => Ok(chunk_bytes(tag_of(HeaderType::Xdis), Seq::empty())),
        MessageView::Xpst(c) => match clip_wire(c) {
            Ok(b) => if b.len() > u32::MAX {
                Err(EncodeError::TooBig)
            } else {
                Ok(chunk_bytes(tag_of(HeaderType::Xpst), b))
            },
            Err(e) => Err(e),
        },
        MessageView::NoMessage => Ok(Seq::empty()),
    }
}

/// The envelope: `XCOP`, the length of all that follows, the version chunk.
pub open spec fn heading(version: u32, size: nat) -> Seq<u8> {
    tag_of(HeaderType::Xcop) + be_bytes(size as u32) + chunk_bytes(
        tag_of(HeaderType::Xver),
        be_bytes(version),
    )
}

/// The byte form of message `m` under protocol version `version`.
pub open spec fn message_wire(m: MessageView, version: u32) -> Result<Seq<u8>, EncodeError> {
    match payload_chunk(m) {
        Err(e) => Err(e),
        Ok(p) => if p.len() + 12 > u32::MAX {
            Err(EncodeError::TooBig)
        } else {
            Ok(heading(version, p.len() + 12) + p)
        },
    }
}

/// Reading chunks from `off` on until one that carries a message.
pub open spec fn decode_chunks(data: Seq<u8>, off: int) -> Result<MessageView, ParseFailure>
    decreases data.len() - off,
{
    if off > data.len() || off < 0 {
        Ok(MessageView::NoMessage)
    } else {
        match spec_read_header(data, off) {
            Err(f) => Err(f),
            Ok(_) => match header_with_tag(data.subrange(off, off + 4)) {
                None => Err(ParseFailure::UnknownHeader),
                Some(h) => match spec_read_size(data, off + 4) {
                    Err(f) => Err(f),
                    Ok(n) => match spec_read_data(data, off + 8, n as int) {
                        Err(f) => Err(f),
                        Ok(p) => match h {
                            HeaderType::Xacn => match peer_from_wire(p) {
                                Ok(name) => Ok(MessageView::Xacn(name)),
                                Err(f) => Err(f),
                            },
                            HeaderType::Xcon => match peer_from_wire(p) {
                                Ok(name) => Ok(MessageView::Xcon(name)),
                                Err(f) => Err(f),
                            },
                            HeaderType::Xcpy => Ok(MessageView::Xcpy),
                            HeaderType::Xdis => Ok(MessageView::Xdis),
                            HeaderType::Xpst => match clip_from_wire(p) {
                                Ok(c) => Ok(MessageView::Xpst(c)),
                                Err(f) => Err(f),
                            },
                            _ => decode_chunks(data, off + 8 + n),
                        },
                    },
                },
            },
        }
    }
}

/// Reading a message from its byte form.
pub open spec fn decode(data: Seq<u8>) -> Result<MessageView, ParseFailure> {
    match spec_expect_header(data, 0, tag_of(HeaderType::Xcop)) {
        Err(f) => Err(f),
        Ok(_) => match spec_read_size(data, 4) {
            Err(f) => Err(f),
            Ok(_) => decode_chunks(data, 8),
        },
    }
}

pub fn parse_message(data: Vec<u8>) -> (r: Result<MessageType, ParseErrors>)
    ensures
        match decode(data@) {
            Ok(m) => r matches Ok(x) && x@ == m,
            Err(f) => r matches Err(e) && e.failure() == f,
        },
{
    let d = data.as_slice();
    let mut reader = ReaderOffset { offset: 0 };
    read_header_expected(d, &mut reader, HeaderType::Xcop.to_string())?;
    let _file_size = read_size(d, &mut reader)?;
    while reader.offset <= d.len()
        invariant
            d@ == data@,
            reader.offset <= d@.len(),
            decode(d@) == decode_chunks(d@, reader.offset as int),
        decreases d@.len() - reader.offset,
    {
        let ghost off = reader.offset as int;
        let header = read_header(d, &mut reader)?;
        proof {
            vstd::utf8::decode_utf8_encode_utf8(d@.subrange(off, off + 4));
        }
        let header = HeaderType::from_tag(header.as_str())?;
        let size = read_size(d, &mut reader)?;
        let payload = read_data(d, &mut reader, size)?;
        match header {
            HeaderType::Xacn => {
                let peer_d = PeerData::deserialize(payload.as_slice())?;
                return Ok(MessageType::Xacn(peer_d));
            },
            HeaderType::Xcon => {
                let peer_d = PeerData::deserialize(payload.as_slice())?;
                return Ok(MessageType::Xcon(peer_d));
            },
            HeaderType::Xcpy => {
                return Ok(MessageType::Xcpy);
            },
            HeaderType::Xdis => {
                return Ok(MessageType::Xdis);
            },
            HeaderType::Xpst => {
                let decoded = ClipboardData::deserialize(payload.as_slice())?;
                return Ok(MessageType::Xpst(decoded));
            },
            HeaderType::Xver | HeaderType::Xcop => {},
        }
    }
    Ok(MessageType::NoMessage)
}

/// Writes the envelope's head: `XCOP`, `file_size`, and the version chunk.
pub fn encode_message_heading(protocol_ver: u32, file_size: usize, out: &mut Vec<u8>) -> (r:
    Result<(), EncodeError>)
    ensures
        file_size <= u32::MAX ==> r is Ok && final(out)@ == old(out)@ + heading(
            protocol_ver,
            file_size as nat,
        ),
        file_size > u32::MAX ==> r == Err::<(), EncodeError>(EncodeError::TooBig),
{
    encode_header(HeaderType::Xcop.to_string(), out);
    encode_size(file_size, out)?;
    encode_header(HeaderType::Xver.to_string(), out);
    let ver: [u8; 4] = [
        (protocol_ver >> 24u32) as u8,
        (protocol_ver >> 16u32) as u8,
        (protocol_ver >> 8u32) as u8,
        protocol_ver as u8,
    ];
    assert(ver@ =~= be_bytes(protocol_ver));
    encode_data(ver.as_slice(), out)?;
    assert(final(out)@ =~= old(out)@ + heading(protocol_ver, file_size as nat));
    Ok(())
}

pub fn compose_message(message: &MessageType, protocol_ver: u32) -> (r: Result<
    Vec<u8>,
    EncodeError,
>)
    ensures
        match message_wire(message@, protocol_ver) {
            Ok(b) => r matches Ok(v) && v@ == b,
            Err(e) => r == Err::<Vec<u8>, EncodeError>(e),
        },
{
    let mut out: Vec<u8> = Vec::new();
    match message {
        MessageType::Xcon(data) => {
            let bytes = data.serialize()?;
            Chunk::new(HeaderType::Xcon.to_string(), bytes.as_slice()).encode_chunk(&mut out)?;
        },
        MessageType::Xacn(data) => {
            let bytes = data.serialize()?;
            Chunk::new(HeaderType::Xacn.to_string(), bytes.as_slice()).encode_chunk(&mut out)?;
        },
        MessageType::Xcpy => {
            let empty: Vec<u8> = Vec::new();
            Chunk::new(HeaderType::Xcpy.to_string(), empty.as_slice()).encode_chunk(&mut out)?;
        },
        MessageType::Xdis => {
            let empty: Vec<u8> = Vec::new();
            Chunk::new(HeaderType::Xdis.to_string(), empty.as_slice()).encode_chunk(&mut out)?;
        },
        MessageType::Xpst(data) => {
            let bytes = data.serialize()?;
            Chunk::new(HeaderType::Xpst.to_string(), bytes.as_slice()).encode_chunk(&mut out)?;
        },
        MessageType::NoMessage => {},
    }
    assert(payload_chunk(message@) == Ok::<Seq<u8>, EncodeError>(out@));
    if out.len() > u32::MAX as usize - 12 {
        return Err(EncodeError::TooBig);
    }
    let mut result: Vec<u8> = Vec::new();
    encode_message_heading(protocol_ver, out.len() + 12, &mut result)?;
    encode_data_raw(out.as_slice(), &mut result);
    Ok(result)
}

/// A name whose UTF-8 form has at most 255 bytes comes back unchanged from
/// its byte form, whatever characters it holds.
pub proof fn lemma_peer_round_trip(name: Seq<char>)
    requires
        encode_utf8(name).len() <= 255,
    ensures
        peer_wire(name) is Ok,
        peer_from_wire(peer_wire(name)->Ok_0) == Ok::<Seq<char>, ParseFailure>(name),
{
    let b = encode_utf8(name);
    let w = seq![b.len() as u8] + b;
    assert(w.subrange(1, 1 + w[0]) =~= b);
    vstd::utf8::encode_utf8_valid_utf8(name);
    vstd::utf8::encode_utf8_decode_utf8(name);
}

/// The header of the chunk that carries `m`.
pub open spec fn header_of(m: MessageView) -> HeaderType {
    match m {
        MessageView::Xacn(_) => HeaderType::Xacn,
        MessageView::Xcon(_) => HeaderType::Xcon,
        MessageView::Xcpy => HeaderType::Xcpy,
        MessageView::Xdis => HeaderType::Xdis,
        MessageView::Xpst(_) => HeaderType::Xpst,
        MessageView::NoMessage => HeaderType::Xver,
    }
}

/// The payload of the chunk that carries `m`.
pub open spec fn payload_of(m: MessageView) -> Seq<u8> {
    match m {
        MessageView::Xacn(n) => peer_wire(n)->Ok_0,
        MessageView::Xcon(n) => peer_wire(n)->Ok_0,
        MessageView::Xpst(c) => clip_wire(c)->Ok_0,
        _ => Seq::empty(),
    }
}

/// Where the parts of an encoded message stand.
proof fn lemma_layout(m: MessageView, v: u32)
    requires
        message_wire(m, v) is Ok,
    ensures
        ({
            let e = message_wire(m, v)->Ok_0;
            let p = payload_of(m);
            &&& e.subrange(0, 4) == tag_of(HeaderType::Xcop)
            &&& e.len() >= 20
            &&& e.subrange(8, 12) == tag_of(HeaderType::Xver)
            &&& be_at4(e, 12) == 4
            &&& (m is NoMessage ==> e.len() == 20)
            &&& (!(m is NoMessage) ==> {
                &&& e.len() == 28 + p.len()
                &&& p.len() <= u32::MAX
                &&& e.subrange(20, 24) == tag_of(header_of(m))
                &&& be_at4(e, 24) == p.len()
                &&& e.subrange(28, e.len() as int) == p
            })
        }),
{
    let e = message_wire(m, v)->Ok_0;
    let p = payload_chunk(m)->Ok_0;
    let q = payload_of(m);
    crate::wire::lemma_be_round_trip(4);
    crate::wire::lemma_be_round_trip(q.len() as u32);
    assert(e == heading(v, p.len() + 12) + p);
    assert(e.subrange(0, 4) =~= tag_of(HeaderType::Xcop));
    assert(e.subrange(8, 12) =~= tag_of(HeaderType::Xver));
    assert(e.subrange(12, 16) =~= be_bytes(4));
    if !(m is NoMessage) {
        assert(p == chunk_bytes(tag_of(header_of(m)), q));
        assert(e.subrange(20, 24) =~= tag_of(header_of(m)));
        assert(e.subrange(24, 28) =~= be_bytes(q.len() as u32));
        assert(e.subrange(28, e.len() as int) =~= q);
    }
}

/// The number written big-endian at `off`, as a natural number.
pub open spec fn be_at4(data: Seq<u8>, off: int) -> nat {
    be_at(data, off) as nat
}

/// A message other than `NoMessage` comes back unchanged from its byte form,
/// whenever it can be encoded.
pub proof fn lemma_message_round_trip(m: MessageView, v: u32)
    requires
        message_wire(m, v) is Ok,
        !(m is NoMessage),
    ensures
        decode(message_wire(m, v)->Ok_0) == Ok::<MessageView, ParseFailure>(m),
{
    let e = message_wire(m, v)->Ok_0;
    let q = payload_of(m);
    lemma_layout(m, v);
    crate::wire::lemma_tag_of(HeaderType::Xcop);
    crate::wire::lemma_tag_of(HeaderType::Xver);
    crate::wire::lemma_tag_of(header_of(m));
    assert(be_at(e, 12) == 4);
    assert(decode_chunks(e, 8) == decode_chunks(e, 20));
    match m {
        MessageView::Xacn(n) => {
            lemma_peer_bytes(n);
            lemma_peer_round_trip(n);
        },
        MessageView::Xcon(n) => {
            lemma_peer_bytes(n);
            lemma_peer_round_trip(n);
        },
        MessageView::Xpst(c) => {
            crate::clipboard::lemma_clipboard_round_trip(c);
        },
        _ => {},
    }
}

proof fn lemma_peer_bytes(n: Seq<char>)
    requires
        peer_wire(n) is Ok,
    ensures
        encode_utf8(n).len() <= 255,
{
}

/// Every strict prefix of an encoded message, the empty one included, is
/// refused by `decode` as too short.
pub proof fn lemma_truncated_message(m: MessageView, v: u32, n: int)
    requires
        message_wire(m, v) is Ok,
        0 <= n < message_wire(m, v)->Ok_0.len(),
    ensures
        decode(message_wire(m, v)->Ok_0.subrange(0, n)) == Err::<MessageView, ParseFailure>(
            ParseFailure::OutOfBounds,
        ),
{
    let e = message_wire(m, v)->Ok_0;
    let t = e.subrange(0, n);
    lemma_layout(m, v);
    crate::wire::lemma_tag_of(HeaderType::Xcop);
    crate::wire::lemma_tag_of(HeaderType::Xver);
    crate::wire::lemma_tag_of(header_of(m));
    if n >= 4 {
        assert(t.subrange(0, 4) =~= e.subrange(0, 4));
    }
    if n >= 12 {
        assert(t.subrange(8, 12) =~= e.subrange(8, 12));
    }
    if n >= 16 {
        assert(be_at(t, 12) == be_at(e, 12));
    }
    if n >= 20 {
        assert(decode_chunks(t, 8) == decode_chunks(t, 20));
        if n >= 24 {
            assert(t.subrange(20, 24) =~= e.subrange(20, 24));
        }
        if n >= 28 {
            assert(be_at(t, 24) == be_at(e, 24));
        }
    }
}

} // verus!
