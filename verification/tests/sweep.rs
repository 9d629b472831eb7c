use axum::http::header::{HeaderMap, HeaderName, HeaderValue};
use request_echo::headers::{collect_headers, decode_header_value, HeaderField};
use request_echo::status::{parse_status_param, select_status};

#[test]
fn every_single_byte_header_value() {
    for b in 0..=255u8 {
        let expected = if b < 128 { (b as char).to_string() } else { String::new() };
        assert_eq!(decode_header_value(&[b]), expected, "byte {}", b);
        let framed = if b < 128 { format!("a{}z", b as char) } else { String::new() };
        assert_eq!(decode_header_value(&[b'a', b, b'z']), framed, "byte {}", b);
    }
}

#[test]
fn every_two_byte_header_value() {
    for first in 0xc0..=0xdfu8 {
        for second in 0..=255u8 {
            let expected = if first >= 0xc2 && (0x80..=0xbf).contains(&second) {
                let scalar = (((first & 0x1f) as u32) << 6) | ((second & 0x3f) as u32);
                char::from_u32(scalar).unwrap().to_string()
            } else {
                String::new()
            };
            assert_eq!(decode_header_value(&[first, second]), expected, "{} {}", first, second);
        }
    }
}

#[test]
fn every_number_as_status() {
    for n in 0..=u16::MAX {
        let expected = if (100..=599).contains(&n) { n } else { 200 };
        assert_eq!(select_status(n), expected, "number {}", n);
    }
}

#[test]
fn every_numeral_is_read_back() {
    for n in 0..=u16::MAX {
        assert_eq!(parse_status_param(Some(&format!("{}", n))), n);
        assert_eq!(parse_status_param(Some(&format!("+{}", n))), n);
        assert_eq!(parse_status_param(Some(&format!("00{}", n))), n);
        assert_eq!(parse_status_param(Some(&format!("-{}", n))), 200);
    }
    for n in 65536..70000u32 {
        assert_eq!(parse_status_param(Some(&format!("{}", n))), 200);
    }
}

#[test]
fn header_lines_taken_from_a_header_map() {
    let mut received = HeaderMap::new();
    received.append(HeaderName::from_bytes(b"X-Test").unwrap(), HeaderValue::from_static("hello"));
    received.append(HeaderName::from_bytes(b"Accept").unwrap(), HeaderValue::from_static("a/b"));
    received.append(HeaderName::from_bytes(b"accept").unwrap(), HeaderValue::from_static("c/d"));
    received.append(
        HeaderName::from_bytes(b"x-raw").unwrap(),
        HeaderValue::from_bytes(&[0x80, 0x41]).unwrap(),
    );
    let fields: Vec<HeaderField> = received
        .iter()
        .map(|(name, value)| HeaderField { name: name.to_string(), value: value.as_bytes().to_vec() })
        .collect();
    let map = collect_headers(&fields);
    assert_eq!(map.len(), 3);
    assert_eq!(map.get(&"x-test".to_string()), Some(&"hello".to_string()));
    assert_eq!(map.get(&"X-Test".to_string()), None);
    assert_eq!(map.get(&"accept".to_string()), Some(&"c/d".to_string()));
    assert_eq!(map.get(&"x-raw".to_string()), Some(&String::new()));
}
