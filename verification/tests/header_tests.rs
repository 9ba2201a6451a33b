use std::collections::HashSet;

use email::{Header, HeaderMap};

static SAMPLE_HEADERS: [(&str, &str); 4] = [
    ("Test", "Value"),
    ("Test", "Value 2"),
    ("Test-2", "Value 3"),
    ("Test-Multiline", "Foo\nBar"),
];

fn make_sample_headers() -> Vec<Header> {
    SAMPLE_HEADERS
        .iter()
        .map(|&(name, value)| Header::new(name.to_string(), value.to_string()))
        .collect()
}

#[test]
fn test_header_to_string() {
    let header = Header::new("Test".to_string(), "Value".to_string());
    assert_eq!(header.to_string(), "Test: Value".to_string());
}

#[test]
fn test_string_get_value() {
    // A header value is opaque pre-folding text: it comes back exactly
    // as it was stored, encoded words included.
    let inputs = vec![
        "Value",
        "=?ISO-8859-1?Q?Test=20text?=",
        "=?ISO-8859-1?Q?Multiple?= =?utf-8?b?ZW5jb2Rpbmdz?=",
        "Some things with =?utf-8?b?ZW5jb2Rpbmdz?=, other things without.",
        "Encoding =?utf-8?q?fail",
    ];

    for input in inputs.into_iter() {
        let header = Header::new("Test".to_string(), input.to_string());
        let string_value = header.get_value();
        assert_eq!(string_value, input);
    }
}

#[test]
fn test_to_header_string() {
    let header = Header::new("Test".to_string(), "Value".to_string());
    let header_value = header.get_value();
    assert_eq!(header_value, "Value");
}

#[test]
fn test_header_map_len() {
    let mut headers = HeaderMap::new();
    for (i, header) in make_sample_headers().into_iter().enumerate() {
        headers.insert(header);
        assert_eq!(headers.len(), i + 1);
    }
}

#[test]
fn test_header_map_iter() {
    let mut headers = HeaderMap::new();
    let mut expected_headers = HashSet::new();
    for header in make_sample_headers().into_iter() {
        headers.insert(header.clone());
        expected_headers.insert(header);
    }

    let mut count = 0;
    // Ensure all the headers returned are expected
    let mut iter = headers.iter();
    while let Some(header) = iter.next() {
        assert!(expected_headers.contains(header));
        count += 1;
    }
    // And that there is the right number of them
    assert_eq!(count, expected_headers.len());
}

#[test]
fn test_replace_positions_first_occurrence() {
    // After replace, find yields exactly one entry, standing where the
    // first former entry of that name stood.
    let mut headers = HeaderMap::new();
    headers.insert(Header::new("A".to_string(), "1".to_string()));
    headers.insert(Header::new("B".to_string(), "2".to_string()));
    headers.insert(Header::new("A".to_string(), "3".to_string()));
    headers.insert(Header::new("C".to_string(), "4".to_string()));

    headers.replace(Header::new("A".to_string(), "9".to_string()));

    assert_eq!(headers.len(), 3);
    let found = headers.find("A").unwrap();
    assert_eq!(found.len(), 1);
    assert_eq!(found[0].get_value(), "9");

    let mut names = Vec::new();
    let mut iter = headers.iter();
    while let Some(h) = iter.next() {
        names.push(h.name.clone());
    }
    assert_eq!(names, vec!["A".to_string(), "B".to_string(), "C".to_string()]);
}

#[test]
fn test_replace_appends_when_absent() {
    let mut headers = HeaderMap::new();
    headers.insert(Header::new("A".to_string(), "1".to_string()));
    headers.replace(Header::new("B".to_string(), "2".to_string()));
    assert_eq!(headers.len(), 2);
    let mut iter = headers.iter();
    assert_eq!(iter.next().unwrap().name, "A");
    assert_eq!(iter.next().unwrap().name, "B");
}

#[test]
fn test_insert_never_shrinks() {
    let mut headers = HeaderMap::new();
    headers.insert(Header::new("X".to_string(), "1".to_string()));
    let before = headers.len();
    headers.insert(Header::new("X".to_string(), "1".to_string()));
    assert_eq!(headers.len(), before + 1);
}

#[test]
fn test_get_returns_last() {
    let mut headers = HeaderMap::new();
    headers.insert(Header::new("X".to_string(), "1".to_string()));
    headers.insert(Header::new("X".to_string(), "2".to_string()));
    let got = headers.get("X".to_string()).unwrap();
    assert_eq!(got.get_value(), "2");
    assert!(headers.get("Y".to_string()).is_none());
    assert!(!headers.is_empty());
}
