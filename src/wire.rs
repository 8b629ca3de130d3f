//! Chunk primitives of the wire format.
//!
//! A chunk is a four byte ASCII tag, a four byte big-endian length and that
//! many payload bytes. Reading goes forward through a buffer with a single
//! cursor ([`ReaderOffset`]); every read checks the bounds first and reports
//! `OutOfBounds` instead of indexing past the end. Writing only appends.
use vstd::prelude::*;
use vstd::string::StringSliceAdditionalSpecFns;
use vstd::utf8::{decode_utf8, valid_utf8};

verus! {

pub const HEADER_SIZE: usize = 4;

pub const LENGTH_SIZE: usize = 4;

/// The tags that may stand at the head of a chunk of a message.
#[derive(Debug, PartialEq, Eq, Structural, Clone, Copy)]
pub enum HeaderType {
    Xver,
    Xcop,
    Xacn,
    Xcon,
    Xcpy,
    Xpst,
    Xdis,
}

/// What went wrong while reading, without the diagnostic text.
#[derive(Debug, PartialEq, Eq, Structural, Clone, Copy)]
pub enum ParseFailure {
    InvalidStructure,
    OutOfBounds,
    UnknownHeader,
}

#[derive(Debug)]
pub enum ParseErrors {
    InvalidStructure,
    OutOfBounds,
    UnknownHeader(String),
}

impl ParseErrors {
    pub open spec fn failure(&self) -> ParseFailure {
        match self {
            ParseErrors::InvalidStructure => ParseFailure::InvalidStructure,
            ParseErrors::OutOfBounds => ParseFailure::OutOfBounds,
            ParseErrors::UnknownHeader(_) => ParseFailure::UnknownHeader,
        }
    }
}

#[derive(Debug, PartialEq, Eq, Structural, Clone, Copy)]
pub enum EncodeError {
    TooBig,
    Overflow,
}

/// The forward-only cursor of a reader.
pub struct ReaderOffset {
    pub offset: usize,
}

/// The four bytes of a tag written in ASCII.
pub open spec fn ascii4(a: char, b: char, c: char, d: char) -> Seq<u8> {
    seq![a as u8, b as u8, c as u8, d as u8]
}

pub open spec fn tag_of(h: HeaderType) -> Seq<u8> {
    match h {
        HeaderType::Xver => ascii4('X', 'V', 'E', 'R'),
        HeaderType::Xcop => ascii4('X', 'C', 'O', 'P'),
        HeaderType::Xacn => ascii4('X', 'A', 'C', 'N'),
        HeaderType::Xcon => ascii4('X', 'C', 'O', 'N'),
        HeaderType::Xcpy => ascii4('X', 'C', 'P', 'Y'),
        HeaderType::Xpst => ascii4('X', 'P', 'S', 'T'),
        HeaderType::Xdis => ascii4('X', 'D', 'I', 'S'),
    }
}

/// The header whose tag is `t`, if there is one.
pub open spec fn header_with_tag(t: Seq<u8>) -> Option<HeaderType> {
    if t == tag_of(HeaderType::Xver) {
        Some(HeaderType::Xver)
    } else if t == tag_of(HeaderType::Xcop) {
        Some(HeaderType::Xcop)
    } else if t == tag_of(HeaderType::Xacn) {
        Some(HeaderType::Xacn)
    } else if t == tag_of(HeaderType::Xcon) {
        Some(HeaderType::Xcon)
    } else if t == tag_of(HeaderType::Xcpy) {
        Some(HeaderType::Xcpy)
    } else if t == tag_of(HeaderType::Xpst) {
        Some(HeaderType::Xpst)
    } else if t == tag_of(HeaderType::Xdis) {
        Some(HeaderType::Xdis)
    } else {
        None
    }
}

/// The four big-endian bytes of `v`.
pub open spec fn be_bytes(v: u32) -> Seq<u8> {
    seq![(v >> 24u32) as u8, (v >> 16u32) as u8, (v >> 8u32) as u8, v as u8]
}

/// The number that four big-endian bytes stand for.
pub open spec fn be_value(b0: u8, b1: u8, b2: u8, b3: u8) -> u32 {
    ((b0 as u32) << 24u32) | ((b1 as u32) << 16u32) | ((b2 as u32) << 8u32) | (b3 as u32)
}

/// The number written big-endian at `off` in `data`.
pub open spec fn be_at(data: Seq<u8>, off: int) -> u32 {
    be_value(data[off], data[off + 1], data[off + 2], data[off + 3])
}

pub proof fn lemma_be_round_trip(v: u32)
    ensures
        be_at(be_bytes(v), 0) == v,
{
    assert(be_value((v >> 24u32) as u8, (v >> 16u32) as u8, (v >> 8u32) as u8, v as u8) == v)
        by (bit_vector);
}

/// Bytes below 0x80 are valid UTF-8 whatever their number.
pub proof fn lemma_ascii_valid(b: Seq<u8>)
    requires
        forall|i: int| 0 <= i < b.len() ==> b[i] <= 0x7f,
    ensures
        valid_utf8(b),
{
    assert(valid_utf8(b.subrange(0, 0)));
    vstd::utf8::partial_valid_utf8_extend_ascii_block(b, 0, b.len() as int);
    assert(b.subrange(0, b.len() as int) =~= b);
}

/// Each header's tag is valid UTF-8 and names that header alone.
pub proof fn lemma_tag_of(h: HeaderType)
    ensures
        valid_utf8(tag_of(h)),
        header_with_tag(tag_of(h)) == Some(h),
        tag_of(h).len() == HEADER_SIZE,
{
    lemma_ascii_valid(tag_of(h));
}

/// A chunk on the wire: tag, length, payload.
pub open spec fn chunk_bytes(tag: Seq<u8>, payload: Seq<u8>) -> Seq<u8> {
    tag + be_bytes(payload.len() as u32) + payload
}

/// The chunks of `cs`, one after the other; each is (tag, payload).
pub open spec fn chunks_bytes(cs: Seq<(Seq<u8>, Seq<u8>)>) -> Seq<u8>
    decreases cs.len(),
{
    if cs.len() == 0 {
        Seq::empty()
    } else {
        chunks_bytes(cs.drop_last()) + chunk_bytes(cs.last().0, cs.last().1)
    }
}

/// Reading a tag at `off` as text.
pub open spec fn spec_read_header(data: Seq<u8>, off: int) -> Result<Seq<char>, ParseFailure> {
    if data.len() < off + HEADER_SIZE {
        Err(ParseFailure::OutOfBounds)
    } else if !valid_utf8(data.subrange(off, off + HEADER_SIZE)) {
        Err(ParseFailure::InvalidStructure)
    } else {
        Ok(decode_utf8(data.subrange(off, off + HEADER_SIZE)))
    }
}

/// Reading the tag at `off` and demanding that it be `tag`.
pub open spec fn spec_expect_header(data: Seq<u8>, off: int, tag: Seq<u8>) -> Result<
    (),
    ParseFailure,
> {
    if data.len() < off + HEADER_SIZE {
        Err(ParseFailure::OutOfBounds)
    } else if !valid_utf8(data.subrange(off, off + HEADER_SIZE)) {
        Err(ParseFailure::InvalidStructure)
    } else if data.subrange(off, off + HEADER_SIZE) != tag {
        Err(ParseFailure::UnknownHeader)
    } else {
        Ok(())
    }
}

/// Reading a length at `off`.
pub open spec fn spec_read_size(data: Seq<u8>, off: int) -> Result<nat, ParseFailure> {
    if data.len() < off + LENGTH_SIZE {
        Err(ParseFailure::OutOfBounds)
    } else {
        Ok(be_at(data, off) as nat)
    }
}

/// Reading `n` raw bytes at `off`.
pub open spec fn spec_read_data(data: Seq<u8>, off: int, n: int) -> Result<Seq<u8>, ParseFailure> {
    if data.len() < off + n {
        Err(ParseFailure::OutOfBounds)
    } else {
        Ok(data.subrange(off, off + n))
    }
}

impl HeaderType {
    pub fn to_string(&self) -> (r: &'static str)
        ensures
            r.spec_bytes() == tag_of(*self),
    {
        let s = match self {
            HeaderType::Xver => "XVER",
            HeaderType::Xcop => "XCOP",
            HeaderType::Xacn => "XACN",
            HeaderType::Xcon => "XCON",
            HeaderType::Xcpy => "XCPY",
            HeaderType::Xpst => "XPST",
            HeaderType::Xdis => "XDIS",
        };
        proof {
            reveal_strlit("XVER");
            reveal_strlit("XCOP");
            reveal_strlit("XACN");
            reveal_strlit("XCON");
            reveal_strlit("XCPY");
            reveal_strlit("XPST");
            reveal_strlit("XDIS");
            vstd::string::is_ascii_spec_bytes(s);
            assert(s.spec_bytes() =~= tag_of(*self));
        }
        s
    }

    /// The header named by the text `input`.
    pub fn from_tag(input: &str) -> (r: Result<HeaderType, ParseErrors>)
        ensures
            match header_with_tag(input.spec_bytes()) {
                Some(h) => r == Ok::<HeaderType, ParseErrors>(h),
                None => r matches Err(e) && e.failure() == ParseFailure::UnknownHeader,
            },
    {
        let b = input.as_bytes();
        let all: [HeaderType; 7] = [
            HeaderType::Xver,
            HeaderType::Xcop,
            HeaderType::Xacn,
            HeaderType::Xcon,
            HeaderType::Xcpy,
            HeaderType::Xpst,
            HeaderType::Xdis,
        ];
        let mut i: usize = 0;
        while i < 7
            invariant
                0 <= i <= 7,
                b@ == input.spec_bytes(),
                all@ == seq![
                    HeaderType::Xver,
                    HeaderType::Xcop,
                    HeaderType::Xacn,
                    HeaderType::Xcon,
                    HeaderType::Xcpy,
                    HeaderType::Xpst,
                    HeaderType::Xdis,
                ],
                forall|j: int| 0 <= j < i ==> tag_of(#[trigger] all@[j]) != b@,
            decreases 7 - i,
        {
            let h = all[i];
            if bytes_equal(b, h.to_string().as_bytes()) {
                return Ok(h);
            }
            i = i + 1;
        }
        Err(ParseErrors::UnknownHeader(input.to_owned()))
    }
}

/// Whether two byte strings are equal.
pub fn bytes_equal(a: &[u8], b: &[u8]) -> (r: bool)
    ensures
        r == (a@ == b@),
{
    if a.len() != b.len() {
        return false;
    }
    let mut i: usize = 0;
    while i < a.len()
        invariant
            a@.len() == b@.len(),
            0 <= i <= a@.len(),
            forall|j: int| 0 <= j < i ==> a@[j] == b@[j],
        decreases a@.len() - i,
    {
        if a[i] != b[i] {
            return false;
        }
        i = i + 1;
    }
    assert(a@ =~= b@);
    true
}

/// Relies on `String::from_utf8`: it accepts exactly the valid UTF-8 byte
/// strings and keeps the characters they encode.
#[verifier::external_body]
pub(crate) fn string_from_utf8(bytes: Vec<u8>) -> (r: Option<String>)
    ensures
        r is Some <==> valid_utf8(bytes@),
        r matches Some(s) ==> s@ == decode_utf8(bytes@),
{
    String::from_utf8(bytes).ok()
}

impl ReaderOffset {
    pub fn increase_by(&mut self, val: usize)
        requires
            old(self).offset + val <= usize::MAX,
        ensures
            final(self).offset == old(self).offset + val,
    {
        self.offset += val;
    }
}

pub fn check_offset_bounds(data: &[u8], offset: usize, size: usize) -> (r: Result<(), ParseErrors>)
    ensures
        r is Ok <==> offset + size <= data@.len(),
        r matches Err(e) ==> e.failure() == ParseFailure::OutOfBounds,
        data@.len() <= usize::MAX,
{
    if offset > data.len() || size > data.len() - offset {
        return Err(ParseErrors::OutOfBounds);
    }
    Ok(())
}

/// Copies `size` bytes at `offset`.
fn copy_range(data: &[u8], offset: usize, size: usize) -> (r: Vec<u8>)
    requires
        offset + size <= data@.len(),
    ensures
        r@ == data@.subrange(offset as int, offset + size),
{
    let n = data.len();
    let end = offset + size;
    vstd::slice::slice_to_vec(&data[offset..end])
}

pub fn read_header(data: &[u8], o: &mut ReaderOffset) -> (r: Result<String, ParseErrors>)
    ensures
        match spec_read_header(data@, old(o).offset as int) {
            Ok(s) => r matches Ok(t) && t@ == s && final(o).offset == old(o).offset + HEADER_SIZE,
            Err(f) => r matches Err(e) && e.failure() == f && final(o).offset == old(o).offset,
        },
{
    check_offset_bounds(data, o.offset, HEADER_SIZE)?;
    let bytes = copy_range(data, o.offset, HEADER_SIZE);
    match string_from_utf8(bytes) {
        Some(header) => {
            o.increase_by(HEADER_SIZE);
            Ok(header)
        },
        None => Err(ParseErrors::InvalidStructure),
    }
}

pub fn read_header_expected(data: &[u8], o: &mut ReaderOffset, expected: &str) -> (r: Result<
    (),
    ParseErrors,
>)
    ensures
        match spec_expect_header(data@, old(o).offset as int, expected.spec_bytes()) {
            Ok(_) => r is Ok && final(o).offset == old(o).offset + HEADER_SIZE,
            Err(f) => r matches Err(e) && e.failure() == f,
        },
{
    let ghost start = o.offset as int;
    let header = read_header(data, o)?;
    proof {
        vstd::utf8::decode_utf8_encode_utf8(data@.subrange(start, start + HEADER_SIZE));
    }
    if !bytes_equal(header.as_str().as_bytes(), expected.as_bytes()) {
        return Err(ParseErrors::UnknownHeader(header));
    }
    Ok(())
}

pub fn read_size(data: &[u8], o: &mut ReaderOffset) -> (r: Result<usize, ParseErrors>)
    ensures
        match spec_read_size(data@, old(o).offset as int) {
            Ok(n) => r == Ok::<usize, ParseErrors>(n as usize) && final(o).offset == old(o).offset
                + LENGTH_SIZE,
            Err(f) => r matches Err(e) && e.failure() == f && final(o).offset == old(o).offset,
        },
{
    check_offset_bounds(data, o.offset, LENGTH_SIZE)?;
    let i = o.offset;
    let b0 = data[i];
    let b1 = data[i + 1];
    let b2 = data[i + 2];
    let b3 = data[i + 3];
    let size: u32 = ((b0 as u32) << 24u32) | ((b1 as u32) << 16u32) | ((b2 as u32) << 8u32) | (
    b3 as u32);
    o.increase_by(LENGTH_SIZE);
    Ok(size as usize)
}

pub fn read_data(data: &[u8], o: &mut ReaderOffset, size: usize) -> (r: Result<
    Vec<u8>,
    ParseErrors,
>)
    ensures
        match spec_read_data(data@, old(o).offset as int, size as int) {
            Ok(s) => r matches Ok(v) && v@ == s && final(o).offset == old(o).offset + size,
            Err(f) => r matches Err(e) && e.failure() == f && final(o).offset == old(o).offset,
        },
{
    check_offset_bounds(data, o.offset, size)?;
    let read = copy_range(data, o.offset, size);
    o.increase_by(size);
    Ok(read)
}

/// Appends `data` as it is.
pub fn encode_data_raw(data: &[u8], out: &mut Vec<u8>)
    ensures
        final(out)@ == old(out)@ + data@,
{
    out.extend_from_slice(data);
    assert(final(out)@ =~= old(out)@ + data@);
}

/// Appends the four big-endian bytes of `size`, which must fit in 32 bits.
pub fn encode_size(size: usize, out: &mut Vec<u8>) -> (r: Result<(), EncodeError>)
    ensures
        size <= u32::MAX ==> r is Ok && final(out)@ == old(out)@ + be_bytes(size as u32),
        size > u32::MAX ==> r == Err::<(), EncodeError>(EncodeError::TooBig) && final(out)@
            == old(out)@,
{
    if size > u32::MAX as usize {
        return Err(EncodeError::TooBig);
    }
    let v = size as u32;
    out.push((v >> 24u32) as u8);
    out.push((v >> 16u32) as u8);
    out.push((v >> 8u32) as u8);
    out.push(v as u8);
    assert(final(out)@ =~= old(out)@ + be_bytes(v));
    Ok(())
}

/// Appends the length of `data` and then `data`.
pub fn encode_data(data: &[u8], out: &mut Vec<u8>) -> (r: Result<(), EncodeError>)
    ensures
        data@.len() <= u32::MAX ==> r is Ok && final(out)@ == old(out)@ + be_bytes(
            data@.len() as u32,
        ) + data@,
        data@.len() > u32::MAX ==> r == Err::<(), EncodeError>(EncodeError::TooBig)
            && final(out)@ == old(out)@,
{
    encode_size(data.len(), out)?;
    encode_data_raw(data, out);
    Ok(())
}

/// Appends the bytes of a tag.
pub fn encode_header(header: &str, out: &mut Vec<u8>)
    ensures
        final(out)@ == old(out)@ + header.spec_bytes(),
{
    encode_data_raw(header.as_bytes(), out);
}

/// A chunk to be written: its tag and its payload.
pub struct Chunk<'a> {
    header: &'a str,
    data: &'a [u8],
}

impl<'a> View for Chunk<'a> {
    type V = (Seq<u8>, Seq<u8>);

    closed spec fn view(&self) -> (Seq<u8>, Seq<u8>) {
        (self.header.spec_bytes(), self.data@)
    }
}

impl<'a> Chunk<'a> {
    pub fn new(chunk_header: &'a str, chunk_data: &'a [u8]) -> (r: Self)
        ensures
            r@ == (chunk_header.spec_bytes(), chunk_data@),
    {
        Chunk { header: chunk_header, data: chunk_data }
    }

    pub fn encode_chunk(&self, out: &mut Vec<u8>) -> (r: Result<(), EncodeError>)
        ensures
            self@.1.len() <= u32::MAX ==> r is Ok && final(out)@ == old(out)@ + chunk_bytes(
                self@.0,
                self@.1,
            ),
            self@.1.len() > u32::MAX ==> r == Err::<(), EncodeError>(EncodeError::TooBig),
    {
        encode_header(self.header, out);
        encode_data(self.data, out)?;
        assert(final(out)@ =~= old(out)@ + chunk_bytes(self@.0, self@.1));
        Ok(())
    }
}

/// Whether every payload of `cs` has a length that fits in 32 bits.
pub open spec fn all_fit(cs: Seq<(Seq<u8>, Seq<u8>)>) -> bool {
    forall|i: int| 0 <= i < cs.len() ==> (#[trigger] cs[i]).1.len() <= u32::MAX
}

pub fn encode_chunks(chunks: &Vec<Chunk>, out: &mut Vec<u8>) -> (r: Result<(), EncodeError>)
    ensures
        all_fit(chunks@.map_values(|c: Chunk| c@)) ==> r is Ok && final(out)@ == old(out)@
            + chunks_bytes(chunks@.map_values(|c: Chunk| c@)),
        !all_fit(chunks@.map_values(|c: Chunk| c@)) ==> r == Err::<(), EncodeError>(
            EncodeError::TooBig,
        ),
{
    let ghost cs = chunks@.map_values(|c: Chunk| c@);
    let mut i: usize = 0;
    while i < chunks.len()
        invariant
            0 <= i <= chunks@.len(),
            cs == chunks@.map_values(|c: Chunk| c@),
            all_fit(cs.subrange(0, i as int)),
            out@ == old(out)@ + chunks_bytes(cs.subrange(0, i as int)),
        decreases chunks@.len() - i,
    {
        let ghost before = out@;
        let res = chunks[i].encode_chunk(out);
        if res.is_err() {
            assert(cs[i as int] == chunks@[i as int]@);
            return Err(EncodeError::TooBig);
        }
        proof {
            let next = cs.subrange(0, i + 1);
            assert(next.drop_last() =~= cs.subrange(0, i as int));
            assert(next.last() == cs[i as int]);
            assert(out@ =~= old(out)@ + chunks_bytes(next));
            assert forall|j: int| 0 <= j < next.len() implies (#[trigger] next[j]).1.len()
                <= u32::MAX by {
                if j < i {
                    assert(next[j] == cs.subrange(0, i as int)[j]);
                }
            }
        }
        i = i + 1;
    }
    assert(cs.subrange(0, chunks@.len() as int) =~= cs);
    Ok(())
}

} // verus!
