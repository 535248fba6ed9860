//! One input per error variant: every way a decode can fail is hit once.

use fujiformer_io::reader::encode_varint;
use fujiformer_io::strings::encode_lp_string;
use fujiformer_io::{
    CelesteIo, CelesteMap, CelesteMapReadError, FillersDecodeError, IoError, Lookup, LookupError,
    LookupValue, Node, NodeReadError, ReadValueError, Reader, ScreensDecodeError, StringReadError,
    Value,
};

fn lp(s: &str) -> Vec<u8> {
    encode_lp_string(s)
}

fn u16le(v: u16) -> Vec<u8> {
    vec![(v % 256) as u8, (v / 256) as u8]
}

fn node_bytes(name_idx: u16, props: &[(u16, Vec<u8>)], children: &[Vec<u8>]) -> Vec<u8> {
    let mut out = u16le(name_idx);
    out.push(props.len() as u8);
    for (key_idx, value) in props {
        out.extend(u16le(*key_idx));
        out.extend(value.clone());
    }
    out.extend(u16le(children.len() as u16));
    for c in children {
        out.extend(c.clone());
    }
    out
}

fn int_value(v: i32) -> Vec<u8> {
    let mut out = vec![3u8];
    out.extend(v.to_le_bytes().to_vec());
    out
}

fn str_value(s: &str) -> Vec<u8> {
    let mut out = vec![6u8];
    out.extend(lp(s));
    out
}

fn doc(name: &str, entries: &[&str], root: &[u8]) -> Vec<u8> {
    let mut out = lp("CELESTE MAP");
    out.extend(lp(name));
    out.extend(u16le(entries.len() as u16));
    for e in entries {
        out.extend(lp(e));
    }
    out.extend(root.to_vec());
    out
}

fn filler_doc(rect_props: &[(u16, Vec<u8>)]) -> Vec<u8> {
    let rect = node_bytes(2, rect_props, &[]);
    let filler = node_bytes(1, &[], &[rect]);
    let root = node_bytes(0, &[], &[filler]);
    doc("m", &["Map", "Filler", "rect", "x", "y", "w", "h"], &root)
}

fn screen_doc(level_props: &[(u16, Vec<u8>)]) -> Vec<u8> {
    let level = node_bytes(2, level_props, &[]);
    let levels = node_bytes(1, &[], &[level]);
    let root = node_bytes(0, &[], &[levels]);
    doc(
        "m",
        &["Map", "levels", "level", "x", "y", "width", "height", "name"],
        &root,
    )
}

#[test]
fn length_prefix_overflow() {
    // A length past any machine word overflows before the bytes are read.
    let mut bytes = vec![0xFFu8; 10];
    bytes.push(0x7F);
    bytes.push(b'a');
    let mut r = Reader::new(bytes);
    assert_eq!(
        fujiformer_io::NonRleString::read(&mut r, None).unwrap_err(),
        StringReadError::Io(IoError::LengthOverflow)
    );
}

#[test]
fn lookup_io_error() {
    let mut r = Reader::new(vec![0]);
    assert_eq!(
        LookupValue::read(&mut r, None).unwrap_err(),
        LookupError::Io(IoError::UnexpectedEnd)
    );
}

#[test]
fn value_io_error() {
    let mut r = Reader::new(vec![3, 1, 2]);
    assert_eq!(
        Value::read(&mut r, None).unwrap_err(),
        ReadValueError::Io(IoError::UnexpectedEnd)
    );
}

#[test]
fn value_string_error() {
    let mut bytes = vec![6];
    bytes.extend(encode_varint(1));
    bytes.push(0xFF);
    let mut r = Reader::new(bytes);
    assert_eq!(
        Value::read(&mut r, None).unwrap_err(),
        ReadValueError::String(StringReadError::Utf)
    );
}

#[test]
fn node_property_key_lookup_error() {
    let table = Lookup::new(vec!["root".to_owned()]);
    // Name ok, one property whose key index is out of bounds.
    let mut bytes = u16le(0);
    bytes.push(1);
    bytes.extend(u16le(9));
    bytes.extend(int_value(1));
    bytes.extend(u16le(0));
    let mut r = Reader::new(bytes);
    assert_eq!(
        Node::read(&mut r, Some(table.as_ref())).unwrap_err(),
        NodeReadError::PropertyKeyLookupError(LookupError::OutOfBounds { length: 1, index: 9 })
    );
}

#[test]
fn node_property_value_error() {
    let table = Lookup::new(vec!["root".to_owned()]);
    // Name ok, key ok, value tag unknown.
    let mut bytes = u16le(0);
    bytes.push(1);
    bytes.extend(u16le(0));
    bytes.push(42);
    let mut r = Reader::new(bytes);
    assert_eq!(
        Node::read(&mut r, Some(table.as_ref())).unwrap_err(),
        NodeReadError::PropertyValueError(ReadValueError::UnknownValueType(42))
    );
}

#[test]
fn node_io_error_on_counts() {
    let table = Lookup::new(vec!["root".to_owned()]);
    // Name ok, then the stream ends before the property count.
    let bytes = u16le(0);
    let mut r = Reader::new(bytes);
    assert_eq!(
        Node::read(&mut r, Some(table.as_ref())).unwrap_err(),
        NodeReadError::Io(IoError::UnexpectedEnd)
    );
}

#[test]
fn nested_child_error_is_wrapped_per_level() {
    let table = Lookup::new(vec!["root".to_owned()]);
    // A child whose own child is missing: two levels of wrapping.
    let inner = node_bytes(0, &[], &[vec![]]);
    let bytes = node_bytes(0, &[], &[inner]);
    let mut r = Reader::new(bytes);
    match Node::read(&mut r, Some(table.as_ref())).unwrap_err() {
        NodeReadError::ChildError(e) => {
            assert!(matches!(*e, NodeReadError::ChildError(_)));
        },
        other => panic!("expected a wrapped child error, got {:?}", other),
    }
}

#[test]
fn map_name_error_covers_name_and_table_entries() {
    // Valid magic, then the stream ends before the document name.
    let bytes = lp("CELESTE MAP");
    assert_eq!(
        CelesteMap::read(bytes).unwrap_err(),
        CelesteMapReadError::MapNameError(StringReadError::Io(IoError::UnexpectedEnd))
    );
    // Valid magic and name, one announced lookup entry that is absent.
    let mut bytes = lp("CELESTE MAP");
    bytes.extend(lp("m"));
    bytes.extend(u16le(1));
    assert_eq!(
        CelesteMap::read(bytes).unwrap_err(),
        CelesteMapReadError::MapNameError(StringReadError::Io(IoError::UnexpectedEnd))
    );
}

#[test]
fn map_io_error_on_lookup_count() {
    let mut bytes = lp("CELESTE MAP");
    bytes.extend(lp("m"));
    bytes.push(0);
    assert_eq!(
        CelesteMap::read(bytes).unwrap_err(),
        CelesteMapReadError::Io(IoError::UnexpectedEnd)
    );
}

#[test]
fn filler_field_errors_are_specific() {
    let x = (3u16, int_value(1));
    let y = (4u16, int_value(2));
    let w = (5u16, int_value(3));
    let h = (6u16, int_value(4));
    let cases: Vec<(Vec<(u16, Vec<u8>)>, FillersDecodeError)> = vec![
        (vec![y.clone(), w.clone(), h.clone()], FillersDecodeError::MissingX),
        (vec![x.clone(), w.clone(), h.clone()], FillersDecodeError::MissingY),
        (vec![x.clone(), y.clone(), h.clone()], FillersDecodeError::MissingWidth),
        (vec![(3, str_value("s")), y.clone(), w.clone(), h.clone()], FillersDecodeError::XNotInt),
        (vec![x.clone(), (4, str_value("s")), w.clone(), h.clone()], FillersDecodeError::YNotInt),
        (
            vec![x.clone(), y.clone(), w.clone(), (6, str_value("s"))],
            FillersDecodeError::HeightNotInt,
        ),
    ];
    for (props, expected) in cases {
        let bytes = filler_doc(&props);
        assert_eq!(
            CelesteMap::read(bytes).unwrap_err(),
            CelesteMapReadError::FillersDecodeError(expected)
        );
    }
}

#[test]
fn screen_field_errors_are_specific() {
    let nm = (7u16, str_value("a"));
    let x = (3u16, int_value(1));
    let y = (4u16, int_value(2));
    let w = (5u16, int_value(3));
    let h = (6u16, int_value(4));
    let cases: Vec<(Vec<(u16, Vec<u8>)>, ScreensDecodeError)> = vec![
        (vec![nm.clone(), y.clone(), w.clone(), h.clone()], ScreensDecodeError::MissingX),
        (vec![nm.clone(), x.clone(), w.clone(), h.clone()], ScreensDecodeError::MissingY),
        (vec![nm.clone(), x.clone(), y.clone(), h.clone()], ScreensDecodeError::MissingWidth),
        (vec![nm.clone(), x.clone(), y.clone(), w.clone()], ScreensDecodeError::MissingHeight),
        (
            vec![nm.clone(), (3, str_value("s")), y.clone(), w.clone(), h.clone()],
            ScreensDecodeError::XNotInt,
        ),
        (
            vec![nm.clone(), x.clone(), (4, str_value("s")), w.clone(), h.clone()],
            ScreensDecodeError::YNotInt,
        ),
        (
            vec![nm.clone(), x.clone(), y.clone(), (5, str_value("s")), h.clone()],
            ScreensDecodeError::WidthNotInt,
        ),
        (
            vec![nm.clone(), x.clone(), y.clone(), w.clone(), (6, str_value("s"))],
            ScreensDecodeError::HeightNotInt,
        ),
        (
            vec![nm.clone(), x.clone(), y.clone(), w.clone(), (6, int_value(-5))],
            ScreensDecodeError::HeightNotInt,
        ),
    ];
    for (props, expected) in cases {
        let bytes = screen_doc(&props);
        assert_eq!(
            CelesteMap::read(bytes).unwrap_err(),
            CelesteMapReadError::ScreensDecodeError(expected)
        );
    }
}

#[test]
fn screen_conversion_error_kept_until_checks() {
    // A bad value for a recognized key does not abort the walk: a later
    // occurrence of the same key wins.
    let bytes = screen_doc(&[
        (7, str_value("a")),
        (3, str_value("bad")),
        (3, int_value(11)),
        (4, int_value(2)),
        (5, int_value(3)),
        (6, int_value(4)),
    ]);
    let map = CelesteMap::read(bytes).unwrap();
    assert_eq!(map.screens()[0].shape().position().x(), 11);
}

#[test]
fn filler_conversion_error_aborts_immediately() {
    // Unlike screens, a bad value for a recognized filler key fails at
    // once, even when a later occurrence would be fine.
    let bytes = filler_doc(&[
        (3, str_value("bad")),
        (3, int_value(11)),
        (4, int_value(2)),
        (5, int_value(3)),
        (6, int_value(4)),
    ]);
    assert_eq!(
        CelesteMap::read(bytes).unwrap_err(),
        CelesteMapReadError::FillersDecodeError(FillersDecodeError::XNotInt)
    );
}

#[test]
fn trait_read_primitives() {
    let mut r = Reader::new(vec![7, 0x10, 0x00, 5, 6, 7, 8]);
    assert_eq!(<u8 as CelesteIo>::read(&mut r, None), Ok(7));
    assert_eq!(<u16 as CelesteIo>::read(&mut r, None), Ok(16));
    assert_eq!(<u32 as CelesteIo>::read(&mut r, None), Ok(0x08070605));
    let mut r = Reader::new(vec![1, 0xFF, 0xFF, 0xFF, 0xFF, 0xFF, 0xFF, 0xFF, 0xFF, 0xFF]);
    assert_eq!(<bool as CelesteIo>::read(&mut r, None), Ok(true));
    assert_eq!(<i16 as CelesteIo>::read(&mut r, None), Ok(-1));
    assert_eq!(<i32 as CelesteIo>::read(&mut r, None), Ok(-1));
}
