//! The form-urlencoded reader against the reference parser, and the strict
//! port parser against the standard library's.

use kansas::form::{find_queue_id, form_decode};
use kansas::text::parse_u16;

/// What the reference parser finds for `queue_id`.
fn reference_find(input: &[u8]) -> Option<String> {
    url::form_urlencoded::parse(input)
        .into_owned()
        .find(|pair| pair.0 == "queue_id")
        .map(|pair| pair.1)
}

fn ours_as_string(input: &[u8]) -> Option<String> {
    find_queue_id(input).map(|v| String::from_utf8_lossy(&v).into_owned())
}

#[test]
fn queue_id_extraction_matches_the_reference_parser() {
    let cases: &[&[u8]] = &[
        b"queue_id=1500:1",
        b"queue_id=1500:1&dont_block=true",
        b"dont_block=true&queue_id=1500:1",
        b"a=b&queue_id=first&queue_id=second",
        b"queue_id=",
        b"queue_id",
        b"&&queue_id=x&&",
        b"queue%5Fid=escaped+key",
        b"queue_id=%31%35%30%30%3a1",
        b"queue_id=a+b+c",
        b"queue_id=100%",
        b"queue_id=100%2",
        b"queue_id=100%fg",
        b"queue_id=%Fa",
        b"QUEUE_ID=upper",
        b"queue_id=tail&",
        b"=queue_id&queue_id=v",
        b"queue_id%3Dnot=shadow&queue_id=real",
        b"",
        b"&",
        b"a=b",
    ];
    for case in cases {
        assert_eq!(
            ours_as_string(case),
            reference_find(case),
            "mismatch on {:?}",
            String::from_utf8_lossy(case)
        );
    }
}

#[test]
fn queue_id_extraction_takes_the_first_pair() {
    assert_eq!(ours_as_string(b"queue_id=one&queue_id=two"), Some("one".to_string()));
}

#[test]
fn plus_and_percent_decoding() {
    assert_eq!(form_decode(b"a+b%21c", 0, 7), b"a b!c".to_vec());
    // An invalid escape stands for itself.
    assert_eq!(form_decode(b"100%", 0, 4), b"100%".to_vec());
    assert_eq!(form_decode(b"%zz", 0, 3), b"%zz".to_vec());
    // A plus inside what would otherwise be an escape breaks the escape.
    assert_eq!(form_decode(b"%2+", 0, 3), b"%2 ".to_vec());
    // Hex digits in either case.
    assert_eq!(form_decode(b"%4A%4a", 0, 6), b"JJ".to_vec());
}

#[test]
fn port_parsing_matches_the_standard_library() {
    let cases: &[&str] = &[
        "9801", "0", "65535", "65536", "070", "+9801", "+", "", " 9801", "9801 ", "-1", "98o1",
        "999999999999999999999", "+0", "65 35",
    ];
    for case in cases {
        assert_eq!(
            parse_u16(case.as_bytes()),
            case.parse::<u16>().ok(),
            "mismatch on {:?}",
            case
        );
    }
}

#[test]
fn port_parsing_rejects_non_ascii() {
    assert_eq!(parse_u16(&[0xC3, 0xA9]), None);
}
