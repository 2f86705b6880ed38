use actix_http::header::{
    bytes_are_text, bytes_are_value, bytes_eq, contains_lowered, copy_bytes, decimal,
    is_value_byte, is_visible_ascii, lower, str_bytes, Header, HeaderMap, HeaderName,
    StandardHeader,
};

#[test]
fn decimal_digits_of_numbers() {
    assert_eq!(decimal(0), b"0".to_vec());
    assert_eq!(decimal(7), b"7".to_vec());
    assert_eq!(decimal(10), b"10".to_vec());
    assert_eq!(decimal(16_384), b"16384".to_vec());
    assert_eq!(decimal(1_000_000_007), b"1000000007".to_vec());
    assert_eq!(decimal(u64::MAX), b"18446744073709551615".to_vec());
}

#[test]
fn bytes_of_header_values() {
    assert!(is_visible_ascii(b' '));
    assert!(is_visible_ascii(b'~'));
    assert!(is_visible_ascii(b'\t'));
    assert!(!is_visible_ascii(127));
    assert!(!is_visible_ascii(31));
    assert!(!is_visible_ascii(200));
    assert!(is_value_byte(200));
    assert!(is_value_byte(b'\t'));
    assert!(!is_value_byte(127));
    assert!(!is_value_byte(b'\n'));
    assert!(bytes_are_text(b"keep-alive, Upgrade"));
    assert!(bytes_are_text(b""));
    assert!(!bytes_are_text(b"caf\xc3\xa9"));
    assert!(bytes_are_value(b"caf\xc3\xa9"));
    assert!(!bytes_are_value(b"a\r\nb"));
}

#[test]
fn lower_case_search() {
    assert_eq!(lower(b'A'), b'a');
    assert_eq!(lower(b'Z'), b'z');
    assert_eq!(lower(b'a'), b'a');
    assert_eq!(lower(b'@'), b'@');
    assert_eq!(lower(b'['), b'[');
    assert!(contains_lowered(b"WebSocket", b"websocket"));
    assert!(contains_lowered(b"keep-alive, Upgrade", b"upgrade"));
    assert!(contains_lowered(b"abc", b""));
    assert!(contains_lowered(b"", b""));
    assert!(!contains_lowered(b"", b"a"));
    assert!(!contains_lowered(b"upgrad", b"upgrade"));
    assert!(!contains_lowered(b"websocket", b"WebSocket"));
    assert!(contains_lowered(b"xxwebsocke websocket", b"websocket"));
}

#[test]
fn byte_helpers() {
    assert!(bytes_eq(b"abc", b"abc"));
    assert!(bytes_eq(b"", b""));
    assert!(!bytes_eq(b"abc", b"abd"));
    assert!(!bytes_eq(b"abc", b"ab"));
    assert_eq!(copy_bytes(b"hello"), b"hello".to_vec());
    assert_eq!(str_bytes("websocket"), b"websocket".to_vec());
    assert_eq!(str_bytes("caf\u{e9}"), vec![b'c', b'a', b'f', 0xc3, 0xa9]);
}

#[test]
fn insert_replaces_and_append_adds() {
    let mut m = HeaderMap::new();
    assert_eq!(m.len(), 0);
    assert_eq!(m.get(StandardHeader::Date), None);
    m.append(HeaderName::Standard(StandardHeader::Upgrade), b"h2c".to_vec());
    m.append(HeaderName::Custom(b"x-a".to_vec()), b"1".to_vec());
    m.append(HeaderName::Standard(StandardHeader::Upgrade), b"websocket".to_vec());
    assert_eq!(m.len(), 3);
    assert_eq!(m.get(StandardHeader::Upgrade), Some(&b"h2c".to_vec()));
    assert_eq!(m.position(StandardHeader::Upgrade), Some(0));
    assert_eq!(m.position(StandardHeader::Origin), None);
    m.insert(StandardHeader::Upgrade, b"tls".to_vec());
    assert_eq!(
        m.entries,
        vec![
            Header { name: HeaderName::Custom(b"x-a".to_vec()), value: b"1".to_vec() },
            Header { name: HeaderName::Standard(StandardHeader::Upgrade), value: b"tls".to_vec() },
        ]
    );
    m.insert(StandardHeader::Origin, b"example.org".to_vec());
    assert_eq!(m.len(), 3);
    assert_eq!(m.get(StandardHeader::Origin), Some(&b"example.org".to_vec()));
    assert_eq!(m.position(StandardHeader::Origin), Some(2));
}

#[test]
fn names_compare_by_kind() {
    let n = HeaderName::Standard(StandardHeader::Date);
    assert!(n.is(StandardHeader::Date));
    assert!(!n.is(StandardHeader::Connection));
    let c = HeaderName::Custom(b"date".to_vec());
    assert!(!c.is(StandardHeader::Date));
    assert_eq!(c.duplicate(), c);
    assert_eq!(n.duplicate(), n);
}

#[test]
fn reversed_vector() {
    assert_eq!(actix_http::seq::reversed(vec![1, 2, 3]), vec![3, 2, 1]);
    assert_eq!(actix_http::seq::reversed(Vec::<String>::new()), Vec::<String>::new());
    assert_eq!(actix_http::seq::reversed(vec!["a".to_string()]), vec!["a".to_string()]);
}
