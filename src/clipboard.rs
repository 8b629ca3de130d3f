//! Clipboard contents and their byte form.
//!
//! Text travels as an `XSTR` chunk around an `XTYP` chunk (the kind of text
//! by name) and an `XDAT` chunk (the bytes); a file as an `XFIL` chunk around
//! an `XFME` chunk (its name) and an `XDAT` chunk (its bytes).
use crate::transferable::Transferable;
use crate::wire::{
    ascii4, be_bytes, bytes_equal, chunk_bytes, read_data, read_header_expected, read_size,
    spec_expect_header, spec_read_data, spec_read_size, string_from_utf8, Chunk, EncodeError,
    ParseErrors, ParseFailure, ReaderOffset, encode_chunks,
};
use vstd::prelude::*;
use vstd::string::StringSliceAdditionalSpecFns;
use vstd::utf8::{decode_utf8, encode_utf8, valid_utf8};

verus! {

/// What went wrong in the platform clipboard.
#[derive(Debug)]
pub enum ClipboardError {
    Init(String),
    Read(String),
    Write(String),
}

/// The kind of a text held in the clipboard.
#[derive(Debug, PartialEq, Eq, Structural, Clone, Copy)]
pub enum StringType {
    Html,
    Utf8Plain,
}

pub type Filename = String;

#[derive(Debug, PartialEq)]
pub enum ClipboardData {
    String((StringType, Vec<u8>)),
    File((Filename, Vec<u8>)),
}

/// The platform clipboard, implemented by the host of the engine.
pub trait Clipboard: Sized + Send + Sync {
    fn init() -> Result<Self, ClipboardError>;

    fn write(&self, data: ClipboardData) -> Result<(), ClipboardError>;

    fn read(&self) -> Result<ClipboardData, ClipboardError>;
}

/// Clipboard contents as plain values.
pub enum ClipboardView {
    Text(StringType, Seq<u8>),
    File(Seq<char>, Seq<u8>),
}

impl View for ClipboardData {
    type V = ClipboardView;

    open spec fn view(&self) -> ClipboardView {
        match self {
            ClipboardData::String((k, b)) => ClipboardView::Text(*k, b@),
            ClipboardData::File((n, b)) => ClipboardView::File(n@, b@),
        }
    }
}

/// The tags of the chunks inside a clipboard payload.
#[derive(Debug, PartialEq, Eq, Structural, Clone, Copy)]
pub enum PayloadTag {
    Xstr,
    Xtyp,
    Xdat,
    Xfil,
    Xfme,
}

pub open spec fn payload_tag(t: PayloadTag) -> Seq<u8> {
    match t {
        PayloadTag::Xstr => ascii4('X', 'S', 'T', 'R'),
        PayloadTag::Xtyp => ascii4('X', 'T', 'Y', 'P'),
        PayloadTag::Xdat => ascii4('X', 'D', 'A', 'T'),
        PayloadTag::Xfil => ascii4('X', 'F', 'I', 'L'),
        PayloadTag::Xfme => ascii4('X', 'F', 'M', 'E'),
    }
}

impl PayloadTag {
    pub fn text(&self) -> (r: &'static str)
        ensures
            r.spec_bytes() == payload_tag(*self),
    {
        let s = match self {
            PayloadTag::Xstr => "XSTR",
            PayloadTag::Xtyp => "XTYP",
            PayloadTag::Xdat => "XDAT",
            PayloadTag::Xfil => "XFIL",
            PayloadTag::Xfme => "XFME",
        };
        proof {
            reveal_strlit("XSTR");
            reveal_strlit("XTYP");
            reveal_strlit("XDAT");
            reveal_strlit("XFIL");
            reveal_strlit("XFME");
            vstd::string::is_ascii_spec_bytes(s);
            assert(s.spec_bytes() =~= payload_tag(*self));
        }
        s
    }
}

/// The name under which a kind of text travels.
pub open spec fn kind_text(k: StringType) -> Seq<char> {
    match k {
        StringType::Html => seq!['H', 'T', 'M', 'L'],
        StringType::Utf8Plain => seq!['U', 'T', 'F', '8', 'P'],
    }
}

pub open spec fn kind_named(t: Seq<char>) -> Option<StringType> {
    if t == kind_text(StringType::Html) {
        Some(StringType::Html)
    } else if t == kind_text(StringType::Utf8Plain) {
        Some(StringType::Utf8Plain)
    } else {
        None
    }
}

impl StringType {
    pub fn to_string(&self) -> (r: String)
        ensures
            r@ == kind_text(*self),
            encode_utf8(r@).len() <= 5,
    {
        let s = match self {
            StringType::Html => "HTML",
            StringType::Utf8Plain => "UTF8P",
        };
        proof {
            reveal_strlit("HTML");
            reveal_strlit("UTF8P");
            vstd::string::is_ascii_spec_bytes(s);
            assert(s@ =~= kind_text(*self));
        }
        s.to_owned()
    }

    /// The kind of text called `input`.
    pub fn from_text(input: &str) -> (r: Option<StringType>)
        ensures
            r == kind_named(input@),
    {
        let html = StringType::Html.to_string();
        let plain = StringType::Utf8Plain.to_string();
        proof {
            vstd::utf8::encode_utf8_decode_utf8(input@);
            vstd::utf8::encode_utf8_decode_utf8(html@);
            vstd::utf8::encode_utf8_decode_utf8(plain@);
        }
        if bytes_equal(input.as_bytes(), html.as_str().as_bytes()) {
            Some(StringType::Html)
        } else if bytes_equal(input.as_bytes(), plain.as_str().as_bytes()) {
            Some(StringType::Utf8Plain)
        } else {
            None
        }
    }
}

/// The byte form of clipboard contents.
pub open spec fn clip_wire(c: ClipboardView) -> Result<Seq<u8>, EncodeError> {
    match c {
        ClipboardView::Text(k, b) => {
            let inner = chunk_bytes(payload_tag(PayloadTag::Xtyp), encode_utf8(kind_text(k)))
                + chunk_bytes(payload_tag(PayloadTag::Xdat), b);
            if b.len() > u32::MAX || inner.len() > u32::MAX {
                Err(EncodeError::TooBig)
            } else {
                Ok(chunk_bytes(payload_tag(PayloadTag::Xstr), inner))
            }
        },
        ClipboardView::File(n, b) => {
            let nb = encode_utf8(n);
            let inner = chunk_bytes(payload_tag(PayloadTag::Xfme), nb) + chunk_bytes(
                payload_tag(PayloadTag::Xdat),
                b,
            );
            if nb.len() > u32::MAX || b.len() > u32::MAX || inner.len() > u32::MAX {
                Err(EncodeError::TooBig)
            } else {
                Ok(chunk_bytes(payload_tag(PayloadTag::Xfil), inner))
            }
        },
    }
}

/// Reading text contents from `d`, whose tag is `XSTR`.
pub open spec fn text_from_wire(d: Seq<u8>) -> Result<ClipboardView, ParseFailure> {
    match spec_read_size(d, 4) {
        Err(f) => Err(f),
        Ok(_) => match spec_expect_header(d, 8, payload_tag(PayloadTag::Xtyp)) {
            Err(f) => Err(f),
            Ok(_) => match spec_read_size(d, 12) {
                Err(f) => Err(f),
                Ok(n1) => match spec_read_data(d, 16, n1 as int) {
                    Err(f) => Err(f),
                    Ok(tb) => if !valid_utf8(tb) {
                        Err(ParseFailure::InvalidStructure)
                    } else {
                        match spec_expect_header(d, 16 + n1 as int, payload_tag(PayloadTag::Xdat)) {
                            Err(f) => Err(f),
                            Ok(_) => match spec_read_size(d, 20 + n1 as int) {
                                Err(f) => Err(f),
                                Ok(n2) => match spec_read_data(d, 24 + n1 as int, n2 as int) {
                                    Err(f) => Err(f),
                                    Ok(b) => match kind_named(decode_utf8(tb)) {
                                        None => Err(ParseFailure::InvalidStructure),
                                        Some(k) => Ok(ClipboardView::Text(k, b)),
                                    },
                                },
                            },
                        }
                    },
                },
            },
        },
    }
}

/// Reading a file from `d`, whose tag is `XFIL`.
pub open spec fn file_from_wire(d: Seq<u8>) -> Result<ClipboardView, ParseFailure> {
    match spec_read_size(d, 4) {
        Err(f) => Err(f),
        Ok(_) => match spec_expect_header(d, 8, payload_tag(PayloadTag::Xfme)) {
            Err(f) => Err(f),
            Ok(_) => match spec_read_size(d, 12) {
                Err(f) => Err(f),
                Ok(n1) => match spec_read_data(d, 16, n1 as int) {
                    Err(f) => Err(f),
                    Ok(nb) => if !valid_utf8(nb) {
                        Err(ParseFailure::InvalidStructure)
                    } else {
                        match spec_expect_header(d, 16 + n1 as int, payload_tag(PayloadTag::Xdat)) {
                            Err(f) => Err(f),
                            Ok(_) => match spec_read_size(d, 20 + n1 as int) {
                                Err(f) => Err(f),
                                Ok(n2) => match spec_read_data(d, 24 + n1 as int, n2 as int) {
                                    Err(f) => Err(f),
                                    Ok(b) => Ok(ClipboardView::File(decode_utf8(nb), b)),
                                },
                            },
                        }
                    },
                },
            },
        },
    }
}

/// Reading clipboard contents from their byte form.
pub open spec fn clip_from_wire(d: Seq<u8>) -> Result<ClipboardView, ParseFailure> {
    if d.len() < 4 {
        Err(ParseFailure::OutOfBounds)
    } else if !valid_utf8(d.subrange(0, 4)) {
        Err(ParseFailure::UnknownHeader)
    } else if d.subrange(0, 4) == payload_tag(PayloadTag::Xstr) {
        text_from_wire(d)
    } else if d.subrange(0, 4) == payload_tag(PayloadTag::Xfil) {
        file_from_wire(d)
    } else {
        Err(ParseFailure::UnknownHeader)
    }
}

proof fn lemma_payload_tag(t: PayloadTag)
    ensures
        valid_utf8(payload_tag(t)),
        payload_tag(t).len() == 4,
        t != PayloadTag::Xstr ==> payload_tag(t) != payload_tag(PayloadTag::Xstr),
{
    crate::wire::lemma_ascii_valid(payload_tag(t));
    if t != PayloadTag::Xstr {
        assert(payload_tag(t)[1] != payload_tag(PayloadTag::Xstr)[1]);
    }
}

/// Clipboard contents come back unchanged from their byte form: text of
/// either kind and files, with or without bytes, whenever every part fits
/// the 32-bit lengths of the format.
pub proof fn lemma_clipboard_round_trip(c: ClipboardView)
    requires
        clip_wire(c) is Ok,
    ensures
        clip_from_wire(clip_wire(c)->Ok_0) == Ok::<ClipboardView, ParseFailure>(c),
{
    let d = clip_wire(c)->Ok_0;
    lemma_payload_tag(PayloadTag::Xstr);
    lemma_payload_tag(PayloadTag::Xtyp);
    lemma_payload_tag(PayloadTag::Xdat);
    lemma_payload_tag(PayloadTag::Xfil);
    lemma_payload_tag(PayloadTag::Xfme);
    let (outer, first, a, b) = match c {
        ClipboardView::Text(k, b) => (PayloadTag::Xstr, PayloadTag::Xtyp, encode_utf8(kind_text(k)), b),
        ClipboardView::File(n, b) => (PayloadTag::Xfil, PayloadTag::Xfme, encode_utf8(n), b),
    };
    let inner = chunk_bytes(payload_tag(first), a) + chunk_bytes(payload_tag(PayloadTag::Xdat), b);
    assert(a.len() <= u32::MAX) by {
        if c is Text {
            assert(inner.len() >= a.len());
        }
    }
    assert(d == chunk_bytes(payload_tag(outer), inner));
    let n1 = a.len() as int;
    crate::wire::lemma_be_round_trip(inner.len() as u32);
    crate::wire::lemma_be_round_trip(a.len() as u32);
    crate::wire::lemma_be_round_trip(b.len() as u32);
    assert(d.subrange(0, 4) =~= payload_tag(outer));
    assert(d.subrange(4, 8) =~= be_bytes(inner.len() as u32));
    assert(d.subrange(8, 12) =~= payload_tag(first));
    assert(d.subrange(12, 16) =~= be_bytes(a.len() as u32));
    assert(d.subrange(16, 16 + n1) =~= a);
    assert(d.subrange(16 + n1, 20 + n1) =~= payload_tag(PayloadTag::Xdat));
    assert(d.subrange(20 + n1, 24 + n1) =~= be_bytes(b.len() as u32));
    assert(d.subrange(24 + n1, 24 + n1 + b.len()) =~= b);
    assert(crate::wire::be_at(d, 12) == crate::wire::be_at(be_bytes(a.len() as u32), 0));
    assert(crate::wire::be_at(d, 20 + n1) == crate::wire::be_at(be_bytes(b.len() as u32), 0));
    match c {
        ClipboardView::Text(k, _) => {
            vstd::utf8::encode_utf8_valid_utf8(kind_text(k));
            vstd::utf8::encode_utf8_decode_utf8(kind_text(k));
            assert(kind_named(kind_text(k)) == Some(k)) by {
                if k == StringType::Utf8Plain {
                    assert(kind_text(k).len() != kind_text(StringType::Html).len());
                }
            }
        },
        ClipboardView::File(n, _) => {
            vstd::utf8::encode_utf8_valid_utf8(n);
            vstd::utf8::encode_utf8_decode_utf8(n);
        },
    }
}

/// Writes a chunk `outer` around a chunk `first` holding `a` and an `XDAT`
/// chunk holding `b`.
fn nested_chunk(outer: PayloadTag, first: PayloadTag, a: &[u8], b: &[u8]) -> (r: Result<
    Vec<u8>,
    EncodeError,
>)
    ensures
        ({
            let inner = chunk_bytes(payload_tag(first), a@) + chunk_bytes(
                payload_tag(PayloadTag::Xdat),
                b@,
            );
            if a@.len() > u32::MAX || b@.len() > u32::MAX || inner.len() > u32::MAX {
                r == Err::<Vec<u8>, EncodeError>(EncodeError::TooBig)
            } else {
                r matches Ok(v) && v@ == chunk_bytes(payload_tag(outer), inner)
            }
        }),
{
    let mut out: Vec<u8> = Vec::new();
    let chunks: Vec<Chunk> = vec![
        Chunk::new(first.text(), a),
        Chunk::new(PayloadTag::Xdat.text(), b),
    ];
    let ghost cs = chunks@.map_values(|c: Chunk| c@);
    proof {
        assert(cs[0] == (payload_tag(first), a@));
        assert(cs[1] == (payload_tag(PayloadTag::Xdat), b@));
        if a@.len() > u32::MAX {
            assert(!(cs[0].1.len() <= u32::MAX));
        }
        if b@.len() > u32::MAX {
            assert(!(cs[1].1.len() <= u32::MAX));
        }
    }
    encode_chunks(&chunks, &mut out)?;
    proof {
        reveal_with_fuel(crate::wire::chunks_bytes, 3);
        assert(cs.len() == 2);
        assert(cs.drop_last().drop_last() =~= Seq::<(Seq<u8>, Seq<u8>)>::empty());
        assert(cs.drop_last().last() == cs[0]);
        assert(out@ =~= chunk_bytes(payload_tag(first), a@) + chunk_bytes(
            payload_tag(PayloadTag::Xdat),
            b@,
        ));
    }
    let mut encoded: Vec<u8> = Vec::new();
    let header_chunk = Chunk::new(outer.text(), out.as_slice());
    header_chunk.encode_chunk(&mut encoded)?;
    assert(encoded@ =~= chunk_bytes(payload_tag(outer), out@));
    Ok(encoded)
}

impl Transferable for ClipboardData {
    open spec fn wire_form(v: ClipboardView) -> Result<Seq<u8>, EncodeError> {
        clip_wire(v)
    }

    open spec fn from_wire(data: Seq<u8>) -> Result<ClipboardView, ParseFailure> {
        clip_from_wire(data)
    }

    fn serialize(&self) -> (r: Result<Vec<u8>, EncodeError>) {
        match self {
            ClipboardData::String((s_type, data)) => {
                let s_type = s_type.to_string();
                nested_chunk(
                    PayloadTag::Xstr,
                    PayloadTag::Xtyp,
                    s_type.as_str().as_bytes(),
                    data.as_slice(),
                )
            },
            ClipboardData::File((filename, data)) => {
                nested_chunk(
                    PayloadTag::Xfil,
                    PayloadTag::Xfme,
                    filename.as_str().as_bytes(),
                    data.as_slice(),
                )
            },
        }
    }

    fn deserialize(data: &[u8]) -> (r: Result<Self, ParseErrors>) {
        let mut o: ReaderOffset = ReaderOffset { offset: 0 };
        let tag = read_data(data, &mut o, 4)?;
        let chunk_header = match string_from_utf8(tag) {
            Some(s) => s,
            None => {
                return Err(ParseErrors::UnknownHeader("clipboard data header".to_owned()));
            },
        };
        proof {
            vstd::utf8::decode_utf8_encode_utf8(data@.subrange(0, 4));
        }
        let head = chunk_header.as_str().as_bytes();
        if bytes_equal(head, PayloadTag::Xstr.text().as_bytes()) {
            let _len = read_size(data, &mut o)?;
            read_header_expected(data, &mut o, PayloadTag::Xtyp.text())?;
            let s_type_len = read_size(data, &mut o)?;
            let type_bytes = read_data(data, &mut o, s_type_len)?;
            let s_type = match string_from_utf8(type_bytes) {
                Some(s) => s,
                None => {
                    return Err(ParseErrors::InvalidStructure);
                },
            };
            let kind = StringType::from_text(s_type.as_str());
            read_header_expected(data, &mut o, PayloadTag::Xdat.text())?;
            let s_data_len = read_size(data, &mut o)?;
            let string_buff = read_data(data, &mut o, s_data_len)?;
            match kind {
                Some(k) => Ok(ClipboardData::String((k, string_buff))),
                None => Err(ParseErrors::InvalidStructure),
            }
        } else if bytes_equal(head, PayloadTag::Xfil.text().as_bytes()) {
            let _len = read_size(data, &mut o)?;
            read_header_expected(data, &mut o, PayloadTag::Xfme.text())?;
            let filename_size = read_size(data, &mut o)?;
            let name_bytes = read_data(data, &mut o, filename_size)?;
            let filename = match string_from_utf8(name_bytes) {
                Some(s) => s,
                None => {
                    return Err(ParseErrors::InvalidStructure);
                },
            };
            read_header_expected(data, &mut o, PayloadTag::Xdat.text())?;
            let file_len = read_size(data, &mut o)?;
            let file_data = read_data(data, &mut o, file_len)?;
            Ok(ClipboardData::File((filename, file_data)))
        } else {
            Err(ParseErrors::UnknownHeader(chunk_header))
        }
    }
}

} // verus!
