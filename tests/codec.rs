use xcop::wire::{
    check_offset_bounds, encode_data, encode_header, encode_size, read_data, read_header,
    read_header_expected, read_size, Chunk, ReaderOffset,
};
use xcop::{
    compose_message, parse_message, ClipboardData, EncodeError, HeaderType, MessageType,
    ParseErrors, PeerData, StringType, Transferable,
};

fn peer(name: &str) -> PeerData {
    PeerData {
        peer_name: name.to_string(),
    }
}

fn all_kinds() -> Vec<MessageType> {
    vec![
        MessageType::Xcon(peer("studio-mac")),
        MessageType::Xacn(peer("Łódź-pc 電脳")),
        MessageType::Xcon(peer("")),
        MessageType::Xcpy,
        MessageType::Xdis,
        MessageType::Xpst(ClipboardData::String((StringType::Utf8Plain, b"hello".to_vec()))),
        MessageType::Xpst(ClipboardData::String((StringType::Html, b"<b>hi</b>".to_vec()))),
        MessageType::Xpst(ClipboardData::String((StringType::Utf8Plain, vec![]))),
        MessageType::Xpst(ClipboardData::File(("notes.txt".to_string(), vec![0, 1, 2, 255]))),
        MessageType::Xpst(ClipboardData::File(("empty".to_string(), vec![]))),
    ]
}

#[test]
fn copy_request_has_exact_bytes() {
    let bytes = compose_message(&MessageType::Xcpy, 1).unwrap();
    let mut expected: Vec<u8> = b"XCOP".to_vec();
    expected.extend_from_slice(&[0, 0, 0, 20]);
    expected.extend_from_slice(b"XVER");
    expected.extend_from_slice(&[0, 0, 0, 4, 0, 0, 0, 1]);
    expected.extend_from_slice(b"XCPY");
    expected.extend_from_slice(&[0, 0, 0, 0]);
    assert_eq!(bytes, expected);
}

#[test]
fn announce_has_exact_bytes() {
    let bytes = compose_message(&MessageType::Xcon(peer("ab")), 0x01020304).unwrap();
    let mut expected: Vec<u8> = b"XCOP".to_vec();
    expected.extend_from_slice(&[0, 0, 0, 23]);
    expected.extend_from_slice(b"XVER");
    expected.extend_from_slice(&[0, 0, 0, 4, 1, 2, 3, 4]);
    expected.extend_from_slice(b"XCON");
    expected.extend_from_slice(&[0, 0, 0, 3, 2, b'a', b'b']);
    assert_eq!(bytes, expected);
}

#[test]
fn every_kind_round_trips() {
    for m in all_kinds() {
        let bytes = compose_message(&m, 1).unwrap();
        let back = parse_message(bytes).unwrap();
        assert_eq!(back, m);
    }
}

#[test]
fn every_truncated_prefix_is_refused() {
    for m in all_kinds() {
        let bytes = compose_message(&m, 1).unwrap();
        for n in 0..bytes.len() {
            let r = parse_message(bytes[..n].to_vec());
            assert!(
                matches!(r, Err(ParseErrors::OutOfBounds)),
                "prefix of {} bytes of {:?} gave {:?}",
                n,
                m,
                r
            );
        }
    }
    assert!(matches!(parse_message(vec![]), Err(ParseErrors::OutOfBounds)));
}

#[test]
fn peer_data_round_trips_multibyte_names() {
    for name in ["", "a", "Łódź", "電脳のマシン", &"é".repeat(127)] {
        let p = peer(name);
        let bytes = p.serialize().unwrap();
        assert_eq!(bytes[0] as usize, name.len());
        assert_eq!(PeerData::deserialize(&bytes).unwrap(), p);
    }
}

#[test]
fn peer_name_of_255_bytes_fits_and_256_overflows() {
    let fits = peer(&"x".repeat(255));
    let bytes = fits.serialize().unwrap();
    assert_eq!(bytes.len(), 256);
    assert_eq!(PeerData::deserialize(&bytes).unwrap(), fits);
    assert_eq!(peer(&"x".repeat(256)).serialize(), Err(EncodeError::Overflow));
    assert_eq!(
        compose_message(&MessageType::Xcon(peer(&"x".repeat(256))), 1),
        Err(EncodeError::Overflow)
    );
}

#[test]
fn peer_data_with_invalid_utf8_is_refused() {
    let r = PeerData::deserialize(&[2, 0xff, 0xfe]);
    assert!(matches!(r, Err(ParseErrors::InvalidStructure)));
    let r = PeerData::deserialize(&[3, b'a']);
    assert!(matches!(r, Err(ParseErrors::OutOfBounds)));
    let r = PeerData::deserialize(&[]);
    assert!(matches!(r, Err(ParseErrors::OutOfBounds)));
}

#[test]
fn clipboard_data_round_trips() {
    let cases = vec![
        ClipboardData::String((StringType::Utf8Plain, b"plain".to_vec())),
        ClipboardData::String((StringType::Html, b"<i>x</i>".to_vec())),
        ClipboardData::String((StringType::Html, vec![])),
        ClipboardData::File(("photo.jpg".to_string(), vec![9; 40])),
        ClipboardData::File(("nothing".to_string(), vec![])),
    ];
    for c in cases {
        let bytes = c.serialize().unwrap();
        assert_eq!(ClipboardData::deserialize(&bytes).unwrap(), c);
    }
}

#[test]
fn clipboard_text_has_exact_bytes() {
    let c = ClipboardData::String((StringType::Html, b"x".to_vec()));
    let mut expected: Vec<u8> = b"XSTR".to_vec();
    expected.extend_from_slice(&[0, 0, 0, 21]);
    expected.extend_from_slice(b"XTYP");
    expected.extend_from_slice(&[0, 0, 0, 4]);
    expected.extend_from_slice(b"HTML");
    expected.extend_from_slice(b"XDAT");
    expected.extend_from_slice(&[0, 0, 0, 1, b'x']);
    assert_eq!(c.serialize().unwrap(), expected);
}

#[test]
fn clipboard_errors_are_reported() {
    let mut bad_kind: Vec<u8> = b"XSTR".to_vec();
    bad_kind.extend_from_slice(&[0, 0, 0, 22]);
    bad_kind.extend_from_slice(b"XTYP");
    bad_kind.extend_from_slice(&[0, 0, 0, 5]);
    bad_kind.extend_from_slice(b"RTFXX");
    bad_kind.extend_from_slice(b"XDAT");
    bad_kind.extend_from_slice(&[0, 0, 0, 1, b'x']);
    assert!(matches!(
        ClipboardData::deserialize(&bad_kind),
        Err(ParseErrors::InvalidStructure)
    ));
    assert!(matches!(
        ClipboardData::deserialize(b"XIMG\0\0\0\0"),
        Err(ParseErrors::UnknownHeader(_))
    ));
    assert!(matches!(
        ClipboardData::deserialize(&[0xff, 0xff, 0xff, 0xff]),
        Err(ParseErrors::UnknownHeader(_))
    ));
    assert!(matches!(
        ClipboardData::deserialize(b"XST"),
        Err(ParseErrors::OutOfBounds)
    ));
    let mut wrong_inner: Vec<u8> = b"XFIL".to_vec();
    wrong_inner.extend_from_slice(&[0, 0, 0, 8]);
    wrong_inner.extend_from_slice(b"XDAT");
    wrong_inner.extend_from_slice(&[0, 0, 0, 0]);
    assert!(matches!(
        ClipboardData::deserialize(&wrong_inner),
        Err(ParseErrors::UnknownHeader(_))
    ));
}

#[test]
fn message_errors_are_reported() {
    let good = compose_message(&MessageType::Xcpy, 1).unwrap();

    let mut wrong_envelope = good.clone();
    wrong_envelope[3] = b'X';
    assert!(matches!(
        parse_message(wrong_envelope),
        Err(ParseErrors::UnknownHeader(_))
    ));

    let mut not_text = good.clone();
    not_text[0] = 0xff;
    assert!(matches!(
        parse_message(not_text),
        Err(ParseErrors::InvalidStructure)
    ));

    let mut unknown_chunk = good.clone();
    unknown_chunk[20..24].copy_from_slice(b"XABC");
    assert!(matches!(
        parse_message(unknown_chunk),
        Err(ParseErrors::UnknownHeader(_))
    ));
}

#[test]
fn first_message_chunk_wins() {
    let mut bytes = compose_message(&MessageType::Xcpy, 1).unwrap();
    bytes.extend_from_slice(b"XDIS");
    bytes.extend_from_slice(&[0, 0, 0, 0]);
    assert_eq!(parse_message(bytes).unwrap(), MessageType::Xcpy);
}

#[test]
fn no_message_encodes_only_the_envelope() {
    let bytes = compose_message(&MessageType::NoMessage, 1).unwrap();
    assert_eq!(bytes.len(), 20);
    assert_eq!(&bytes[4..8], &[0, 0, 0, 12]);
    assert!(matches!(parse_message(bytes), Err(ParseErrors::OutOfBounds)));
}

#[test]
fn reader_primitives_move_the_cursor() {
    let data: Vec<u8> = vec![b'X', b'V', b'E', b'R', 0, 0, 1, 2, 7, 8, 9];
    let mut o = ReaderOffset { offset: 0 };
    assert_eq!(read_header(&data, &mut o).unwrap(), "XVER");
    assert_eq!(o.offset, 4);
    assert_eq!(read_size(&data, &mut o).unwrap(), 258);
    assert_eq!(o.offset, 8);
    assert_eq!(read_data(&data, &mut o, 3).unwrap(), vec![7, 8, 9]);
    assert_eq!(o.offset, 11);
    assert!(matches!(read_data(&data, &mut o, 1), Err(ParseErrors::OutOfBounds)));
    assert_eq!(o.offset, 11);

    let mut o = ReaderOffset { offset: 0 };
    assert!(read_header_expected(&data, &mut o, "XVER").is_ok());
    let mut o = ReaderOffset { offset: 0 };
    assert!(matches!(
        read_header_expected(&data, &mut o, "XCOP"),
        Err(ParseErrors::UnknownHeader(_))
    ));

    assert!(check_offset_bounds(&data, 8, 3).is_ok());
    assert!(matches!(check_offset_bounds(&data, 9, 3), Err(ParseErrors::OutOfBounds)));
    assert!(matches!(
        check_offset_bounds(&data, usize::MAX, 2),
        Err(ParseErrors::OutOfBounds)
    ));
}

#[test]
fn writer_primitives_append() {
    let mut out: Vec<u8> = vec![1];
    encode_header("XDAT", &mut out);
    encode_size(0x0102_0304, &mut out).unwrap();
    encode_data(&[5, 6], &mut out).unwrap();
    assert_eq!(out, vec![1, b'X', b'D', b'A', b'T', 1, 2, 3, 4, 0, 0, 0, 2, 5, 6]);

    let mut chunk_out: Vec<u8> = vec![];
    Chunk::new("XFME", b"a").encode_chunk(&mut chunk_out).unwrap();
    assert_eq!(chunk_out, vec![b'X', b'F', b'M', b'E', 0, 0, 0, 1, b'a']);
}

#[test]
fn encode_size_refuses_lengths_beyond_32_bits() {
    let mut out: Vec<u8> = vec![];
    assert_eq!(encode_size(u32::MAX as usize, &mut out), Ok(()));
    assert_eq!(out, vec![255, 255, 255, 255]);
    if usize::BITS > 32 {
        let mut out: Vec<u8> = vec![];
        assert_eq!(
            encode_size(u32::MAX as usize + 1, &mut out),
            Err(EncodeError::TooBig)
        );
        assert!(out.is_empty());
    }
}

#[test]
fn header_names_match_tags() {
    assert_eq!(HeaderType::Xcop.to_string(), "XCOP");
    assert_eq!(HeaderType::Xdis.to_string(), "XDIS");
    assert_eq!(HeaderType::from_tag("XPST").unwrap(), HeaderType::Xpst);
    assert!(matches!(
        HeaderType::from_tag("XYZW"),
        Err(ParseErrors::UnknownHeader(_))
    ));
    assert_eq!(StringType::Html.to_string(), "HTML");
    assert_eq!(StringType::Utf8Plain.to_string(), "UTF8P");
    assert_eq!(StringType::from_text("UTF8P"), Some(StringType::Utf8Plain));
    assert_eq!(StringType::from_text("utf8p"), None);
}
