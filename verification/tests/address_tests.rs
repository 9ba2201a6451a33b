use email::{Address, Header, Mailbox};

#[test]
fn test_address_to_string() {
    let addr = Mailbox::new("foo@example.org".to_string());
    assert_eq!(addr.to_string(), "<foo@example.org>".to_string());

    let name_addr = Mailbox::new_with_name("Joe Blogs".to_string(), "foo@example.org".to_string());
    assert_eq!(name_addr.to_string(), "Joe Blogs <foo@example.org>");
}

#[test]
fn test_address_from_string() {
    let addr = Mailbox::from_str("\"Joe Blogs\" <joe@example.org>").unwrap();
    assert_eq!(addr.name.unwrap(), "Joe Blogs".to_string());
    assert_eq!(addr.address, "joe@example.org".to_string());

    assert!(Mailbox::from_str("Not an address").is_err());
}

#[test]
fn test_address_group_to_string() {
    let addr = Address::new_group("undisclosed recipients".to_string(), vec![]);
    assert_eq!(addr.to_string(), "undisclosed recipients: ;".to_string());

    let addr = Address::new_group(
        "group test".to_string(),
        vec![
            Mailbox::new("joe@example.org".to_string()),
            Mailbox::new_with_name("John Doe".to_string(), "john@example.org".to_string()),
        ],
    );
    assert_eq!(
        addr.to_string(),
        "group test: <joe@example.org>, John Doe <john@example.org>;".to_string()
    );
}

#[test]
fn test_to_header_generation() {
    let addresses = vec![
        Address::new_mailbox_with_name("Joe Blogs".to_string(), "joe@example.org".to_string()),
        Address::new_mailbox_with_name("John Doe".to_string(), "john@example.org".to_string()),
    ];

    let header = Header::new_with_value("From:".to_string(), &addresses).unwrap();
    assert_eq!(
        header.get_value(),
        "Joe Blogs <joe@example.org>, John Doe <john@example.org>",
    );
}

#[test]
fn test_to_header_line_wrap() {
    let addresses = vec![
        Address::new_mailbox_with_name("Joe Blogs".to_string(), "joe@example.org".to_string()),
        Address::new_mailbox_with_name("John Doe".to_string(), "john@example.org".to_string()),
        Address::new_mailbox_with_name(
            "Mr Black".to_string(),
            "mafia_black@example.org".to_string(),
        ),
    ];

    let header = Header::new_with_value("To".to_string(), &addresses).unwrap();
    assert_eq!(
        &header.to_string()[..],
        "To: Joe Blogs <joe@example.org>, John Doe <john@example.org>, \r\n\tMr Black <mafia_black@example.org>"
    );
}

#[test]
fn test_to_header_empty() {
    let header = Header::new_with_value("To".to_string(), &vec![]);
    assert!(header.is_err());
    assert!(matches!(header, Err(email::AddressFoldingError::EmtpyHeader)));
}

#[test]
fn test_escape_email_address() {
    let display_name = "\u{e4} space";
    let addr = "x@y.org";

    assert!(!display_name.is_ascii());

    let s = Address::new_mailbox_with_name(display_name.to_string(), addr.to_string()).to_string();

    println!("{}", s);

    assert_eq!(s, "=?utf-8?q?=C3=A4_space?= <x@y.org>");
}

#[test]
fn test_address_parse_single() {
    let addr = Address::from_str("John Doe <john@doe.com>").unwrap();
    match addr {
        Address::Mailbox(m) => {
            assert_eq!(m.name.unwrap(), "John Doe");
            assert_eq!(m.address, "john@doe.com");
        }
        Address::Group(_, _) => panic!("expected a mailbox"),
    }
}

#[test]
fn test_to_folded_header_continuation_lines() {
    // Every continuation line begins right after CRLF and a tab, with
    // a whole address rendering: a break never splits one rendering.
    let addresses = vec![
        Address::new_mailbox_with_name("Joe Blogs".to_string(), "joe@example.org".to_string()),
        Address::new_mailbox_with_name("John Doe".to_string(), "john@example.org".to_string()),
        Address::new_mailbox_with_name(
            "Mr Black".to_string(),
            "mafia_black@example.org".to_string(),
        ),
        Address::new_mailbox_with_name(
            "Mrs White".to_string(),
            "chapel_white@example.org".to_string(),
        ),
    ];
    let folded = email::to_folded_header(4, &addresses).unwrap();
    let renderings: Vec<String> = addresses.iter().map(|a| a.to_string()).collect();
    for part in folded.split("\r\n\t") {
        for piece in part.trim_end_matches(", ").split(", ") {
            assert!(renderings.iter().any(|r| r == piece));
        }
    }
    let unfolded = folded.replace("\r\n\t", "");
    assert_eq!(unfolded, renderings.join(", "));
}

#[test]
fn test_to_folded_header_singleton() {
    let addresses = vec![Address::new_mailbox("joe@example.org".to_string())];
    let folded = email::to_folded_header(4, &addresses).unwrap();
    assert_eq!(folded, "<joe@example.org>");
}
