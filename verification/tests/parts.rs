use request_echo::fields::FieldMap;
use request_echo::headers::{collect_headers, decode_header_value, HeaderField};
use request_echo::query::{collect_pairs, parse_query};
use request_echo::status::{parse_status_param, response_status, select_status, DEFAULT_STATUS};

fn listed(map: &FieldMap) -> Vec<(String, String)> {
    let mut out = Vec::new();
    for i in 0..map.len() {
        let (name, value) = map.entry(i);
        out.push((name.clone(), value.clone()));
    }
    out
}

fn text_pair(name: &str, value: &str) -> (String, String) {
    (name.to_string(), value.to_string())
}

fn query(text: &str) -> Vec<(String, String)> {
    listed(&parse_query(Some(&text.to_string())))
}

fn status_from(text: &str) -> u16 {
    select_status(parse_status_param(Some(&text.to_string())))
}

#[test]
fn field_map_starts_empty() {
    let map = FieldMap::new();
    assert_eq!(map.len(), 0);
    assert_eq!(map.get(&"a".to_string()), None);
}

#[test]
fn field_map_insert_then_get() {
    let mut map = FieldMap::new();
    map.insert("a".to_string(), "1".to_string());
    map.insert("b".to_string(), "2".to_string());
    assert_eq!(map.len(), 2);
    assert_eq!(map.get(&"a".to_string()), Some(&"1".to_string()));
    assert_eq!(map.get(&"b".to_string()), Some(&"2".to_string()));
    assert_eq!(map.get(&"c".to_string()), None);
    assert_eq!(map.get(&"A".to_string()), None);
}

#[test]
fn field_map_later_write_replaces_in_place() {
    let mut map = FieldMap::new();
    map.insert("a".to_string(), "1".to_string());
    map.insert("b".to_string(), "2".to_string());
    map.insert("a".to_string(), "3".to_string());
    assert_eq!(listed(&map), vec![text_pair("a", "3"), text_pair("b", "2")]);
    let (name, value) = map.entry(1);
    assert_eq!((name.as_str(), value.as_str()), ("b", "2"));
}

#[test]
fn field_map_empty_name_and_value() {
    let mut map = FieldMap::new();
    map.insert(String::new(), String::new());
    assert_eq!(map.len(), 1);
    assert_eq!(map.get(&String::new()), Some(&String::new()));
}

#[test]
fn collect_pairs_keeps_last_value() {
    let pairs = vec![text_pair("k", "1"), text_pair("j", "x"), text_pair("k", "2")];
    let map = collect_pairs(&pairs);
    assert_eq!(listed(&map), vec![text_pair("k", "2"), text_pair("j", "x")]);
    assert_eq!(listed(&collect_pairs(&Vec::new())), Vec::<(String, String)>::new());
}

#[test]
fn query_absent_is_empty() {
    assert_eq!(parse_query(None).len(), 0);
}

#[test]
fn query_simple_pairs() {
    assert_eq!(query("x=1&y=2"), vec![text_pair("x", "1"), text_pair("y", "2")]);
}

#[test]
fn query_plus_and_percent_are_decoded() {
    assert_eq!(query("a+b=c+d"), vec![text_pair("a b", "c d")]);
    assert_eq!(query("%23first=%25try%25"), vec![text_pair("#first", "%try%")]);
    assert_eq!(query("n=caf%C3%A9"), vec![text_pair("n", "caf\u{e9}")]);
    assert_eq!(query("p=%2B"), vec![text_pair("p", "+")]);
}

#[test]
fn query_bare_key_has_empty_value() {
    assert_eq!(query("flag"), vec![text_pair("flag", "")]);
    assert_eq!(query("flag&x=1"), vec![text_pair("flag", ""), text_pair("x", "1")]);
    assert_eq!(query("k="), vec![text_pair("k", "")]);
}

#[test]
fn query_repeated_key_last_wins() {
    assert_eq!(query("a=1&b=2&a=3"), vec![text_pair("a", "3"), text_pair("b", "2")]);
}

#[test]
fn query_empty_pieces_are_skipped() {
    assert_eq!(query(""), Vec::<(String, String)>::new());
    assert_eq!(query("&&"), Vec::<(String, String)>::new());
    assert_eq!(query("&a=1&&b=2&"), vec![text_pair("a", "1"), text_pair("b", "2")]);
}

#[test]
fn query_value_keeps_later_equal_signs() {
    assert_eq!(query("a=b=c"), vec![text_pair("a", "b=c")]);
    assert_eq!(query("=v"), vec![text_pair("", "v")]);
}

#[test]
fn query_bad_escapes_degrade() {
    assert_eq!(query("a=%zz"), vec![text_pair("a", "%zz")]);
    assert_eq!(query("a=%ff"), vec![text_pair("a", "\u{fffd}")]);
}

#[test]
fn header_text_is_kept() {
    assert_eq!(decode_header_value(b"hello"), "hello");
    assert_eq!(decode_header_value(b"a\tb ~"), "a\tb ~");
    assert_eq!(decode_header_value(b""), "");
}

#[test]
fn header_utf8_is_decoded() {
    assert_eq!(decode_header_value(&[0xc3, 0xa9]), "\u{e9}");
    assert_eq!(decode_header_value("caf\u{e9}".as_bytes()), "caf\u{e9}");
    assert_eq!(decode_header_value(&[0xe2, 0x82, 0xac]), "\u{20ac}");
    assert_eq!(decode_header_value(&[0xf0, 0x9f, 0x98, 0x80]), "\u{1f600}");
    assert_eq!(decode_header_value(&[0x61, 0xc3, 0xa9, 0x62]), "a\u{e9}b");
}

#[test]
fn header_control_bytes_are_text() {
    assert_eq!(decode_header_value(&[0x7f]), "\u{7f}");
    assert_eq!(decode_header_value(&[0x61, 0x0a]), "a\n");
    assert_eq!(decode_header_value(&[0x1f]), "\u{1f}");
    assert_eq!(decode_header_value(&[0x00]), "\u{0}");
}

#[test]
fn header_bytes_that_are_no_text_give_empty() {
    assert_eq!(decode_header_value(&[0xff]), "");
    assert_eq!(decode_header_value(&[0x68, 0x69, 0xff]), "");
    assert_eq!(decode_header_value(&[0xc3, 0x28]), "");
    assert_eq!(decode_header_value(&[0xc3]), "");
    assert_eq!(decode_header_value(&[0xe2, 0x82]), "");
    assert_eq!(decode_header_value(&[0x80]), "");
    assert_eq!(decode_header_value(&[0xc0, 0x80]), "");
    assert_eq!(decode_header_value(&[0xed, 0xa0, 0x80]), "");
    assert_eq!(decode_header_value(&[0xf4, 0x90, 0x80, 0x80]), "");
    assert_eq!(decode_header_value(&[0xc3, 0xa9, 0xff]), "");
}

#[test]
fn headers_repeated_name_last_wins() {
    let fields = vec![
        HeaderField { name: "accept".to_string(), value: b"text/html".to_vec() },
        HeaderField { name: "host".to_string(), value: b"example.test".to_vec() },
        HeaderField { name: "accept".to_string(), value: b"*/*".to_vec() },
    ];
    let map = collect_headers(&fields);
    assert_eq!(listed(&map), vec![text_pair("accept", "*/*"), text_pair("host", "example.test")]);
}

#[test]
fn headers_unreadable_value_is_empty_text() {
    let fields = vec![
        HeaderField { name: "x-raw".to_string(), value: vec![0xc3, 0x28] },
        HeaderField { name: "x-ok".to_string(), value: b"fine".to_vec() },
        HeaderField { name: "x-name".to_string(), value: vec![0xc3, 0xa9] },
    ];
    let map = collect_headers(&fields);
    assert_eq!(
        listed(&map),
        vec![text_pair("x-raw", ""), text_pair("x-ok", "fine"), text_pair("x-name", "\u{e9}")]
    );
    assert_eq!(listed(&collect_headers(&Vec::new())), Vec::<(String, String)>::new());
}

#[test]
fn status_default_is_200() {
    assert_eq!(DEFAULT_STATUS, 200);
    assert_eq!(parse_status_param(None), 200);
}

#[test]
fn status_param_numerals() {
    assert_eq!(parse_status_param(Some(&"404".to_string())), 404);
    assert_eq!(parse_status_param(Some(&"+404".to_string())), 404);
    assert_eq!(parse_status_param(Some(&"0404".to_string())), 404);
    assert_eq!(parse_status_param(Some(&"0".to_string())), 0);
    assert_eq!(parse_status_param(Some(&"65535".to_string())), 65535);
    assert_eq!(parse_status_param(Some(&"9999".to_string())), 9999);
}

#[test]
fn status_param_that_is_no_numeral() {
    assert_eq!(parse_status_param(Some(&"abc".to_string())), 200);
    assert_eq!(parse_status_param(Some(&"".to_string())), 200);
    assert_eq!(parse_status_param(Some(&"+".to_string())), 200);
    assert_eq!(parse_status_param(Some(&"-1".to_string())), 200);
    assert_eq!(parse_status_param(Some(&" 404".to_string())), 200);
    assert_eq!(parse_status_param(Some(&"404 ".to_string())), 200);
    assert_eq!(parse_status_param(Some(&"4_04".to_string())), 200);
    assert_eq!(parse_status_param(Some(&"4.04".to_string())), 200);
    assert_eq!(parse_status_param(Some(&"65536".to_string())), 200);
    assert_eq!(parse_status_param(Some(&"++1".to_string())), 200);
}

#[test]
fn select_status_bounds() {
    assert_eq!(select_status(100), 100);
    assert_eq!(select_status(599), 599);
    assert_eq!(select_status(404), 404);
    assert_eq!(select_status(99), 200);
    assert_eq!(select_status(0), 200);
    assert_eq!(select_status(50), 200);
    assert_eq!(select_status(600), 200);
    assert_eq!(select_status(999), 200);
    assert_eq!(select_status(1000), 200);
    assert_eq!(select_status(9999), 200);
    assert_eq!(select_status(65535), 200);
}

#[test]
fn status_from_text() {
    assert_eq!(status_from("404"), 404);
    assert_eq!(status_from("abc"), 200);
    assert_eq!(status_from("9999"), 200);
    assert_eq!(status_from("99"), 200);
    assert_eq!(status_from("100"), 100);
}

#[test]
fn response_status_reads_the_status_field() {
    let mut map = FieldMap::new();
    assert_eq!(response_status(&map), 200);
    map.insert("Status".to_string(), "404".to_string());
    assert_eq!(response_status(&map), 200);
    map.insert("status".to_string(), "418".to_string());
    assert_eq!(response_status(&map), 418);
    map.insert("status".to_string(), "teapot".to_string());
    assert_eq!(response_status(&map), 200);
}
