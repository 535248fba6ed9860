use fujiformer_io::{
    CelesteMap, CelesteMapReadError, FillersDecodeError, IoError, Lookup, LookupError,
    LookupValue, Node, NodeReadError, NonRleString, Point, Reader, Rect, RleString,
    ScreensDecodeError, Size, StringLength, StringReadError, Value,
};
use fujiformer_io::reader::encode_varint;
use fujiformer_io::CelesteIo;
use fujiformer_io::strings::{encode_lp_string, encode_rle_string};

fn lp(s: &str) -> Vec<u8> {
    encode_lp_string(s)
}

fn u16le(v: u16) -> Vec<u8> {
    vec![(v % 256) as u8, (v / 256) as u8]
}

/// A document with the given lookup entries and raw root-node bytes.
fn doc(name: &str, entries: &[&str], root: &[u8]) -> Vec<u8> {
    let mut out = lp("CELESTE MAP");
    out.extend(lp(name));
    out.extend(u16le(entries.len() as u16));
    for e in entries {
        out.extend(lp(e));
    }
    out.extend(root.to_vec());
    out
}

#[test]
fn varint_round_trip() {
    for v in [0usize, 1, 42, 127, 128, 129, 300, 16383, 16384, 1 << 20, usize::MAX] {
        let bytes = encode_varint(v);
        let mut r = Reader::new(bytes);
        assert_eq!(r.read_varint(), Ok(v));
    }
}

#[test]
fn varint_encoding_bytes() {
    assert_eq!(encode_varint(0), vec![0]);
    assert_eq!(encode_varint(127), vec![127]);
    assert_eq!(encode_varint(128), vec![0x80, 0x01]);
    assert_eq!(encode_varint(300), vec![0xAC, 0x02]);
}

#[test]
fn varint_overlong_accepted() {
    // A redundant continuation byte contributing nothing is accepted.
    let mut r = Reader::new(vec![0x80, 0x00]);
    assert_eq!(r.read_varint(), Ok(0));
    let mut r = Reader::new(vec![0xFF, 0x00]);
    assert_eq!(r.read_varint(), Ok(127));
}

#[test]
fn varint_unexpected_end() {
    let mut r = Reader::new(vec![0x80]);
    assert_eq!(r.read_varint(), Err(IoError::UnexpectedEnd));
    let mut r = Reader::new(vec![]);
    assert_eq!(r.read_varint(), Err(IoError::UnexpectedEnd));
}

#[test]
fn varint_overflow() {
    // Eleven continuation groups of all-ones denote a value past any
    // machine word.
    let mut bytes = vec![0xFFu8; 10];
    bytes.push(0x7F);
    let mut r = Reader::new(bytes);
    assert_eq!(r.read_varint(), Err(IoError::LengthOverflow));
}

#[test]
fn string_length_reads_prefix() {
    let mut bytes = encode_varint(5);
    bytes.push(99);
    let mut r = Reader::new(bytes);
    let l = StringLength::read(&mut r, None).unwrap();
    assert_eq!(l.0, 5);
    assert_eq!(r.read_u8(), Ok(99));
}

#[test]
fn reader_primitives_little_endian() {
    let mut r = Reader::new(vec![0x34, 0x12]);
    assert_eq!(r.read_u16(), Ok(0x1234));
    let mut r = Reader::new(vec![0xFE, 0xFF]);
    assert_eq!(r.read_i16(), Ok(-2));
    let mut r = Reader::new(vec![0x78, 0x56, 0x34, 0x12]);
    assert_eq!(r.read_u32(), Ok(0x12345678));
    let mut r = Reader::new(vec![0x60, 0x79, 0xFE, 0xFF]);
    assert_eq!(r.read_i32(), Ok(-100000));
    let mut r = Reader::new(vec![0, 2]);
    assert_eq!(r.read_bool(), Ok(false));
    assert_eq!(r.read_bool(), Ok(true));
    let mut r = Reader::new(vec![1]);
    assert_eq!(r.read_u16(), Err(IoError::UnexpectedEnd));
}

#[test]
fn lp_string_round_trip() {
    for s in ["", "a", "hello world", "h\u{e9}llo w\u{f6}rld \u{1F600}"] {
        let bytes = encode_lp_string(s);
        let mut r = Reader::new(bytes);
        let got = NonRleString::read(&mut r, None).unwrap();
        assert_eq!(got.0, s);
    }
}

#[test]
fn lp_string_invalid_utf8() {
    let mut bytes = encode_varint(1);
    bytes.push(0xFF);
    let mut r = Reader::new(bytes);
    assert_eq!(
        NonRleString::read(&mut r, None).unwrap_err(),
        StringReadError::Utf
    );
}

#[test]
fn lp_string_truncated() {
    let mut bytes = encode_varint(5);
    bytes.push(b'a');
    let mut r = Reader::new(bytes);
    assert_eq!(
        NonRleString::read(&mut r, None).unwrap_err(),
        StringReadError::Io(IoError::UnexpectedEnd)
    );
}

#[test]
fn rle_string_round_trip() {
    for s in ["", "aaabbbccc", "xyz", "h\u{e9}llo"] {
        let bytes = encode_rle_string(s).unwrap();
        let mut r = Reader::new(bytes);
        let got = RleString::read(&mut r, None).unwrap();
        assert_eq!(got.0, s);
    }
}

#[test]
fn rle_string_expands_pairs() {
    // length 4, then pairs (3, 'a'), (2, 'b').
    let mut bytes = u16le(4);
    bytes.extend([3, b'a', 2, b'b']);
    let mut r = Reader::new(bytes);
    assert_eq!(RleString::read(&mut r, None).unwrap().0, "aaabb");
}

#[test]
fn rle_string_odd_length_drops_dangling_byte() {
    // length 3: one pair is read, the dangling byte stays in the stream.
    let mut bytes = u16le(3);
    bytes.extend([2, b'x', 77]);
    let mut r = Reader::new(bytes);
    assert_eq!(RleString::read(&mut r, None).unwrap().0, "xx");
    assert_eq!(r.read_u8(), Ok(77));
}

#[test]
fn rle_string_too_long_to_encode() {
    let s: String = "a".repeat(40000);
    assert!(encode_rle_string(&s).is_none());
}

#[test]
fn lookup_resolves_in_bounds() {
    let table = Lookup::new(vec!["alpha".to_owned(), "beta".to_owned()]);
    let r = table.as_ref();
    assert_eq!(r.len(), 2);
    assert_eq!(r.get(0), Some("alpha"));
    assert_eq!(r.get(1), Some("beta"));
    assert_eq!(r.get(2), None);
    assert_eq!(r.get(usize::MAX), None);
}

#[test]
fn lookup_value_reads_entry() {
    let table = Lookup::new(vec!["alpha".to_owned(), "beta".to_owned()]);
    let mut r = Reader::new(u16le(1));
    let v = LookupValue::read(&mut r, Some(table.as_ref())).unwrap();
    assert_eq!(v.0, "beta");
}

#[test]
fn lookup_value_out_of_bounds_reports_both() {
    let table = Lookup::new(vec!["alpha".to_owned(), "beta".to_owned()]);
    let mut r = Reader::new(u16le(5));
    assert_eq!(
        LookupValue::read(&mut r, Some(table.as_ref())).unwrap_err(),
        LookupError::OutOfBounds { length: 2, index: 5 }
    );
}

#[test]
fn lookup_value_missing_table() {
    let mut r = Reader::new(u16le(0));
    assert_eq!(
        LookupValue::read(&mut r, None).unwrap_err(),
        LookupError::MissingLookup
    );
}

#[test]
fn value_read_dispatches_on_tag() {
    let table = Lookup::new(vec!["entry".to_owned()]);
    let mut r = Reader::new(vec![0, 1]);
    assert!(matches!(Value::read(&mut r, None).unwrap(), Value::Bool(true)));
    let mut r = Reader::new(vec![1, 200]);
    assert!(matches!(Value::read(&mut r, None).unwrap(), Value::Int(200)));
    let mut r = Reader::new(vec![2, 0xFE, 0xFF]);
    assert!(matches!(Value::read(&mut r, None).unwrap(), Value::Int(-2)));
    let mut r = Reader::new(vec![3, 0x60, 0x79, 0xFE, 0xFF]);
    assert!(matches!(Value::read(&mut r, None).unwrap(), Value::Int(-100000)));
    let mut r = Reader::new(vec![4, 0x00, 0x00, 0x80, 0x3F]);
    match Value::read(&mut r, None).unwrap() {
        Value::Float(bits) => assert_eq!(f32::from_bits(bits), 1.0f32),
        _ => panic!("expected a float"),
    }
    let mut bytes = vec![5];
    bytes.extend(u16le(0));
    let mut r = Reader::new(bytes);
    match Value::read(&mut r, Some(table.as_ref())).unwrap() {
        Value::String(s) => assert_eq!(s, "entry"),
        _ => panic!("expected a string"),
    }
    let mut bytes = vec![6];
    bytes.extend(lp("direct"));
    let mut r = Reader::new(bytes);
    match Value::read(&mut r, None).unwrap() {
        Value::String(s) => assert_eq!(s, "direct"),
        _ => panic!("expected a string"),
    }
    let mut bytes = vec![7];
    bytes.extend(u16le(2));
    bytes.extend([3, b'z']);
    let mut r = Reader::new(bytes);
    match Value::read(&mut r, None).unwrap() {
        Value::String(s) => assert_eq!(s, "zzz"),
        _ => panic!("expected a string"),
    }
}

#[test]
fn value_unknown_tag_reports_byte() {
    let mut r = Reader::new(vec![8, 0, 0]);
    assert_eq!(
        Value::read(&mut r, None).unwrap_err(),
        fujiformer_io::ReadValueError::UnknownValueType(8)
    );
    let mut r = Reader::new(vec![255]);
    assert_eq!(
        Value::read(&mut r, None).unwrap_err(),
        fujiformer_io::ReadValueError::UnknownValueType(255)
    );
}

#[test]
fn value_lookup_tag_without_table() {
    let mut bytes = vec![5];
    bytes.extend(u16le(0));
    let mut r = Reader::new(bytes);
    assert_eq!(
        Value::read(&mut r, None).unwrap_err(),
        fujiformer_io::ReadValueError::LookupError(LookupError::MissingLookup)
    );
}

#[test]
fn value_conversions() {
    assert_eq!(Value::Int(5).to_int(), Ok(5));
    assert_eq!(Value::Int(-1).to_uint().is_err(), true);
    assert_eq!(Value::Int(7).to_uint(), Ok(7));
    assert!(Value::Bool(true).to_int().is_err());
    assert_eq!(Value::String("s".to_owned()).to_text().unwrap(), "s");
    assert!(Value::Int(1).to_text().is_err());
}

/// Raw bytes of a node: a name index, properties, children.
fn node_bytes(name_idx: u16, props: &[(u16, Vec<u8>)], children: &[Vec<u8>]) -> Vec<u8> {
    let mut out = u16le(name_idx);
    out.push(props.len() as u8);
    for (key_idx, value) in props {
        out.extend(u16le(*key_idx));
        out.extend(value.clone());
    }
    out.extend(u16le(children.len() as u16));
    for c in children {
        out.extend(c.clone());
    }
    out
}

fn int_value(v: i32) -> Vec<u8> {
    let mut out = vec![3u8];
    out.extend(v.to_le_bytes().to_vec());
    out
}

fn str_value(s: &str) -> Vec<u8> {
    let mut out = vec![6u8];
    out.extend(lp(s));
    out
}

#[test]
fn node_read_name_props_children() {
    let table = Lookup::new(vec!["root".to_owned(), "key".to_owned(), "kid".to_owned()]);
    let bytes = node_bytes(
        0,
        &[(1, int_value(7)), (1, int_value(9))],
        &[node_bytes(2, &[], &[])],
    );
    let mut r = Reader::new(bytes);
    let node = Node::read(&mut r, Some(table.as_ref())).unwrap();
    assert_eq!(node.name(), "root");
    let props = node.properties();
    assert_eq!(props.len(), 2);
    assert_eq!(props[0].0, "key");
    assert!(matches!(props[0].1, Value::Int(7)));
    assert!(matches!(props[1].1, Value::Int(9)));
    assert_eq!(node.children().len(), 1);
    assert_eq!(node.children()[0].name(), "kid");
}

#[test]
fn node_read_bad_name_lookup() {
    let table = Lookup::new(vec![]);
    let bytes = node_bytes(0, &[], &[]);
    let mut r = Reader::new(bytes);
    assert_eq!(
        Node::read(&mut r, Some(table.as_ref())).unwrap_err(),
        NodeReadError::NameLookupError(LookupError::OutOfBounds { length: 0, index: 0 })
    );
}

#[test]
fn node_read_child_error_is_wrapped() {
    let table = Lookup::new(vec!["root".to_owned()]);
    // One child announced, nothing behind it.
    let bytes = node_bytes(0, &[], &[vec![]]);
    let mut r = Reader::new(bytes);
    let err = Node::read(&mut r, Some(table.as_ref())).unwrap_err();
    assert!(matches!(err, NodeReadError::ChildError(_)));
}

#[test]
fn take_child_with_name_keeps_order() {
    let mut node = Node::new("p".to_owned());
    node.push_child(Node::new("a".to_owned()));
    node.push_child(Node::new("b".to_owned()));
    node.push_child(Node::new("c".to_owned()));
    let taken = node.take_child_with_name("a").unwrap();
    assert_eq!(taken.name(), "a");
    let names: Vec<&str> = node.children().iter().map(|c| c.name()).collect();
    assert_eq!(names, vec!["b", "c"]);
    assert!(node.take_child_with_name("zz").is_none());
}

#[test]
fn unknown_tag_consumes_only_the_tag_byte() {
    let mut r = Reader::new(vec![8, 55]);
    assert!(matches!(
        Value::read(&mut r, None).unwrap_err(),
        fujiformer_io::ReadValueError::UnknownValueType(8)
    ));
    assert_eq!(r.read_u8(), Ok(55));
}

#[test]
fn missing_lookup_consumes_the_index_bytes() {
    let mut bytes = u16le(7);
    bytes.push(55);
    let mut r = Reader::new(bytes);
    assert_eq!(
        LookupValue::read(&mut r, None).unwrap_err(),
        LookupError::MissingLookup
    );
    assert_eq!(r.read_u8(), Ok(55));
}

#[test]
fn minimal_document_decodes() {
    // Magic, name, one lookup entry for the root's name, and a bare root.
    let bytes = doc("Level1", &["Map"], &node_bytes(0, &[], &[]));
    let map = CelesteMap::read(bytes).unwrap();
    assert_eq!(map.name(), "Level1");
    assert_eq!(map.unread().name(), "Map");
    assert_eq!(map.unread().properties().len(), 0);
    assert_eq!(map.unread().children().len(), 0);
    assert_eq!(map.fillers().len(), 0);
    assert_eq!(map.screens().len(), 0);
}

#[test]
fn document_with_zero_lookup_entries_cannot_name_root() {
    let bytes = doc("Level1", &[], &node_bytes(0, &[], &[]));
    assert_eq!(
        CelesteMap::read(bytes).unwrap_err(),
        CelesteMapReadError::RootNodeError(NodeReadError::NameLookupError(
            LookupError::OutOfBounds { length: 0, index: 0 }
        ))
    );
}

fn filler_doc(rect_props: &[(u16, Vec<u8>)]) -> Vec<u8> {
    // Lookup: 0 "Map", 1 "Filler", 2 "rect", 3 "x", 4 "y", 5 "w", 6 "h".
    let rect = node_bytes(2, rect_props, &[]);
    let filler = node_bytes(1, &[], &[rect]);
    let root = node_bytes(0, &[], &[filler]);
    doc(
        "Level1",
        &["Map", "Filler", "rect", "x", "y", "w", "h"],
        &root,
    )
}

#[test]
fn filler_extraction_yields_record_and_consumes_node() {
    let bytes = filler_doc(&[
        (3, int_value(0)),
        (4, int_value(0)),
        (5, int_value(10)),
        (6, int_value(20)),
    ]);
    let map = CelesteMap::read(bytes).unwrap();
    assert_eq!(map.fillers().len(), 1);
    let rect = map.fillers()[0].shape();
    assert_eq!(rect.position().x(), 0);
    assert_eq!(rect.position().y(), 0);
    assert_eq!(rect.size().width(), 10);
    assert_eq!(rect.size().height(), 20);
    // The Filler node is gone from the unread remainder.
    assert_eq!(map.unread().children().len(), 0);
}

#[test]
fn extraction_preserves_remainder_order() {
    // Root children: Filler, then two others; after extraction the
    // remainder keeps the others in source order.
    let rect = node_bytes(
        2,
        &[(3, int_value(0)), (4, int_value(0)), (5, int_value(1)), (6, int_value(1))],
        &[],
    );
    let filler = node_bytes(1, &[], &[rect]);
    let other1 = node_bytes(7, &[], &[]);
    let other2 = node_bytes(8, &[], &[]);
    let root = node_bytes(0, &[], &[filler, other1, other2]);
    let bytes = doc(
        "m",
        &["Map", "Filler", "rect", "x", "y", "w", "h", "one", "two"],
        &root,
    );
    let map = CelesteMap::read(bytes).unwrap();
    assert_eq!(map.fillers().len(), 1);
    let names: Vec<&str> = map.unread().children().iter().map(|c| c.name()).collect();
    assert_eq!(names, vec!["one", "two"]);
}

#[test]
fn filler_missing_height_is_specific() {
    let bytes = filler_doc(&[(3, int_value(0)), (4, int_value(0)), (5, int_value(10))]);
    assert_eq!(
        CelesteMap::read(bytes).unwrap_err(),
        CelesteMapReadError::FillersDecodeError(FillersDecodeError::MissingHeight)
    );
}

#[test]
fn filler_width_not_int_is_specific() {
    let bytes = filler_doc(&[
        (3, int_value(0)),
        (4, int_value(0)),
        (5, str_value("wide")),
        (6, int_value(20)),
    ]);
    assert_eq!(
        CelesteMap::read(bytes).unwrap_err(),
        CelesteMapReadError::FillersDecodeError(FillersDecodeError::WidthNotInt)
    );
}

#[test]
fn filler_negative_width_not_uint() {
    let bytes = filler_doc(&[
        (3, int_value(0)),
        (4, int_value(0)),
        (5, int_value(-1)),
        (6, int_value(20)),
    ]);
    assert_eq!(
        CelesteMap::read(bytes).unwrap_err(),
        CelesteMapReadError::FillersDecodeError(FillersDecodeError::WidthNotInt)
    );
}

#[test]
fn filler_duplicate_key_last_wins() {
    let bytes = filler_doc(&[
        (3, int_value(1)),
        (3, int_value(2)),
        (4, int_value(0)),
        (5, int_value(10)),
        (6, int_value(20)),
    ]);
    let map = CelesteMap::read(bytes).unwrap();
    assert_eq!(map.fillers()[0].shape().position().x(), 2);
}

#[test]
fn wrong_header_is_rejected_first() {
    let mut bytes = lp("WRONG HEADER");
    bytes.extend(lp("Level1"));
    bytes.extend(u16le(0));
    assert_eq!(
        CelesteMap::read(bytes).unwrap_err(),
        CelesteMapReadError::IncorrectHeader
    );
}

#[test]
fn malformed_header_is_distinct() {
    let mut bytes = encode_varint(1);
    bytes.push(0xFF);
    assert_eq!(
        CelesteMap::read(bytes).unwrap_err(),
        CelesteMapReadError::MalformedHeader(StringReadError::Utf)
    );
}

#[test]
fn truncated_document_fails_with_io() {
    assert_eq!(
        CelesteMap::read(vec![]).unwrap_err(),
        CelesteMapReadError::MalformedHeader(StringReadError::Io(IoError::UnexpectedEnd))
    );
}

#[test]
fn externally_supplied_lookup_is_rejected() {
    let table = Lookup::new(vec!["x".to_owned()]);
    let mut r = Reader::new(lp("CELESTE MAP"));
    assert_eq!(
        CelesteMap::read_from(&mut r, Some(table.as_ref())).unwrap_err(),
        CelesteMapReadError::GivenLookup
    );
}

fn screen_doc(level_props: &[(u16, Vec<u8>)]) -> Vec<u8> {
    // Lookup: 0 "Map", 1 "levels", 2 "level", 3 "x", 4 "y",
    // 5 "width", 6 "height", 7 "name", 8 "music".
    let level = node_bytes(2, level_props, &[]);
    let levels = node_bytes(1, &[], &[level]);
    let root = node_bytes(0, &[], &[levels]);
    doc(
        "Level1",
        &["Map", "levels", "level", "x", "y", "width", "height", "name", "music"],
        &root,
    )
}

#[test]
fn screen_extraction_keeps_unmatched_properties() {
    let bytes = screen_doc(&[
        (7, str_value("a1")),
        (3, int_value(5)),
        (4, int_value(-3)),
        (5, int_value(320)),
        (6, int_value(180)),
        (8, str_value("song")),
    ]);
    let map = CelesteMap::read(bytes).unwrap();
    assert_eq!(map.screens().len(), 1);
    let s = &map.screens()[0];
    assert_eq!(s.name(), "a1");
    let rect = s.shape();
    assert_eq!(rect.position().x(), 5);
    assert_eq!(rect.position().y(), -3);
    assert_eq!(rect.size().width(), 320);
    assert_eq!(rect.size().height(), 180);
    // Only the unrecognized property is left on the remainder.
    let kept = s.unread().properties();
    assert_eq!(kept.len(), 1);
    assert_eq!(kept[0].0, "music");
    assert_eq!(map.unread().children().len(), 0);
}

#[test]
fn screen_missing_name_is_specific() {
    let bytes = screen_doc(&[
        (3, int_value(5)),
        (4, int_value(-3)),
        (5, int_value(320)),
        (6, int_value(180)),
    ]);
    assert_eq!(
        CelesteMap::read(bytes).unwrap_err(),
        CelesteMapReadError::ScreensDecodeError(ScreensDecodeError::MissingName)
    );
}

#[test]
fn screen_name_not_string_is_specific() {
    let bytes = screen_doc(&[
        (7, int_value(1)),
        (3, int_value(5)),
        (4, int_value(-3)),
        (5, int_value(320)),
        (6, int_value(180)),
    ]);
    assert_eq!(
        CelesteMap::read(bytes).unwrap_err(),
        CelesteMapReadError::ScreensDecodeError(ScreensDecodeError::NameNotString)
    );
}

#[test]
fn read_fillers_requires_filler_node() {
    let mut map = CelesteMap::new("m".to_owned());
    assert_eq!(
        fujiformer_io::filler::read_fillers(&mut map).unwrap_err(),
        FillersDecodeError::MissingFillerNode
    );
}

#[test]
fn decode_screens_requires_levels_node() {
    let mut map = CelesteMap::new("m".to_owned());
    assert_eq!(
        fujiformer_io::screen::decode_screens(&mut map).unwrap_err(),
        ScreensDecodeError::MissingLevelsNode
    );
}

#[test]
fn geometry_accessors() {
    let rect = Rect::new(Point::new(-4i32, 9i32), Size::new(3u32, 8u32));
    assert_eq!(rect.position().x(), -4);
    assert_eq!(rect.position().y(), 9);
    assert_eq!(rect.size().width(), 3);
    assert_eq!(rect.size().height(), 8);
    let f = fujiformer_io::Filler::new(rect);
    assert_eq!(f.shape().position().x(), -4);
}
