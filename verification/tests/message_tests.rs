use email::{Header, MimeContentTypeHeader, MimeMessage, MimeMultipartType};

#[test]
fn test_multipart_type_type_parsing() {
    let tests: Vec<((&str, &str), Option<MimeMultipartType>)> = vec![
        (("multipart", "mixed"), Some(MimeMultipartType::Mixed)),
        (("multipart", "alternative"), Some(MimeMultipartType::Alternative)),
        (("multipart", "digest"), Some(MimeMultipartType::Digest)),
        (("multipart", "parallel"), Some(MimeMultipartType::Parallel)),
        // Test fallback on multipart/mixed
        (("multipart", "potato"), Some(MimeMultipartType::Mixed)),
        // Test failure state
        (("text", "plain"), None),
    ];

    for ((major_type, minor_type), result) in tests.into_iter() {
        assert_eq!(
            MimeMultipartType::from_content_type((major_type.to_string(), minor_type.to_string())),
            result
        );
    }
}

#[test]
fn test_multipart_type_to_content_type() {
    let multipart = "multipart".to_string();

    assert_eq!(
        MimeMultipartType::Mixed.to_content_type(),
        (multipart.clone(), "mixed".to_string())
    );
    assert_eq!(
        MimeMultipartType::Alternative.to_content_type(),
        (multipart.clone(), "alternative".to_string())
    );
    assert_eq!(
        MimeMultipartType::Digest.to_content_type(),
        (multipart.clone(), "digest".to_string())
    );
    assert_eq!(
        MimeMultipartType::Parallel.to_content_type(),
        (multipart.clone(), "parallel".to_string())
    );
}

#[test]
fn test_boundary_generation() {
    let message = MimeMessage::new("Body".to_string());
    // This is random, so we can only really check that it's the expected length
    assert_eq!(message.boundary.len(), 30);
    assert!(message.boundary.chars().all(|c| c.is_ascii_alphanumeric()));
}

#[test]
fn test_content_type_header_value() {
    let header = MimeContentTypeHeader {
        content_type: ("multipart".to_string(), "mixed".to_string()),
        params: vec![
            ("charset".to_string(), "utf-8".to_string()),
            ("boundary".to_string(), "abc".to_string()),
        ],
    };
    assert_eq!(header.to_header(), "multipart/mixed; charset=utf-8; boundary=abc");
}

#[test]
fn test_update_headers_writes_content_type() {
    let child = MimeMessage::new("Inner".to_string());
    let mut message = MimeMessage::new_with_boundary(
        "Outer".to_string(),
        MimeMultipartType::Alternative,
        vec![child],
        "frontier".to_string(),
    );
    let ct = message.headers.get("Content-Type".to_string()).unwrap();
    assert_eq!(ct.get_value(), "multipart/alternative; boundary=frontier");
    // normalization is explicit: a stale type is rewritten on the next call
    message.message_type = Some(MimeMultipartType::Digest);
    message.update_headers();
    let ct = message.headers.get("Content-Type".to_string()).unwrap();
    assert_eq!(ct.get_value(), "multipart/digest; boundary=frontier");
    assert_eq!(message.headers.len(), 1);
}

#[test]
fn test_multipart_render_nested() {
    let inner = MimeMessage::new_with_boundary(
        "Leaf".to_string(),
        MimeMultipartType::Alternative,
        vec![MimeMessage::new("Deep".to_string())],
        "in".to_string(),
    );
    let outer = MimeMessage::new_with_boundary(
        "Top".to_string(),
        MimeMultipartType::Mixed,
        vec![inner],
        "out".to_string(),
    );
    assert_eq!(
        outer.as_string(),
        "Content-Type: multipart/mixed; boundary=out\r\n\
         \r\n\
         Top\r\n\
         --out\r\n\
         Content-Type: multipart/alternative; boundary=in\r\n\
         \r\n\
         Leaf\r\n\
         --in\r\n\
         \r\n\
         Deep\r\n\
         \r\n\
         --in--\r\n\
         \r\n\
         --out--\r\n"
    );
}

#[test]
fn test_render_single_blank_line() {
    // A non-multipart rendering holds exactly one blank CRLF line, the
    // separator between the header block and the body.
    let mut message = MimeMessage::new("Hello\r\nWorld".to_string());
    message.headers.insert(Header::new("Subject".to_string(), "Hi".to_string()));
    let rendered = message.as_string();
    assert_eq!(rendered, "Subject: Hi\r\n\r\nHello\r\nWorld\r\n");
    let chars: Vec<char> = rendered.chars().collect();
    let mut blanks = 0;
    for p in 0..chars.len().saturating_sub(1) {
        let here = chars[p] == '\r' && chars[p + 1] == '\n';
        let after_break = p == 0 || (p >= 2 && chars[p - 2] == '\r' && chars[p - 1] == '\n');
        if here && after_break {
            blanks += 1;
        }
    }
    assert_eq!(blanks, 1);
}

#[test]
fn test_as_string_without_headers() {
    let message = MimeMessage::new("Only body".to_string());
    assert_eq!(message.as_string_without_headers(), "Only body\r\n");
    assert_eq!(message.as_string(), "\r\nOnly body\r\n");
}
