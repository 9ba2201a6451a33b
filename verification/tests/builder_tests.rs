use email::email::{EmailAddress, Envelope};
use email::{EmailBuilder, Error, Header, Mailbox};
use time::OffsetDateTime;
use time::format_description::well_known::Rfc2822;

fn local_now() -> OffsetDateTime {
    OffsetDateTime::now_local().unwrap_or_else(|_| OffsetDateTime::now_utc())
}

fn rfc2822(date: &OffsetDateTime) -> String {
    date.format(&Rfc2822).unwrap()
}

#[test]
fn test_multiple_from() {
    let email_builder = EmailBuilder::new();
    let date_now = local_now();
    let email = email_builder
        .to(Mailbox::new("anna@example.com".to_string()))
        .from(Mailbox::new("dieter@example.com".to_string()))
        .from(Mailbox::new("joachim@example.com".to_string()))
        .date(&date_now)
        .subject("Invitation")
        .body("We invite you!")
        .build()
        .unwrap();

    let id = email.message_id.to_string();
    assert_eq!(
        email.message_to_string().unwrap(),
        format!(
            "Date: {}\r\nSubject: Invitation\r\nSender: \
             <dieter@example.com>\r\nTo: <anna@example.com>\r\nFrom: \
             <dieter@example.com>, <joachim@example.com>\r\nMIME-Version: \
             1.0\r\nMessage-ID: <{}.lettre@localhost>\r\n\r\nWe invite you!\r\n",
            rfc2822(&date_now),
            id
        )
    );
}

#[test]
fn test_email_builder() {
    let email_builder = EmailBuilder::new();
    let date_now = local_now();

    let email = email_builder
        .to(Mailbox::new("user@localhost".to_string()))
        .from(Mailbox::new("user@localhost".to_string()))
        .cc(Mailbox::new_with_name("Alias".to_string(), "cc@localhost".to_string()))
        .bcc(Mailbox::new("bcc@localhost".to_string()))
        .reply_to(Mailbox::new("reply@localhost".to_string()))
        .in_reply_to("original".to_string())
        .sender(Mailbox::new("sender@localhost".to_string()))
        .body("Hello World!")
        .date(&date_now)
        .subject("Hello")
        .header(Header::new("X-test".to_string(), "value".to_string()))
        .build()
        .unwrap();

    let id = email.message_id.to_string();
    assert_eq!(
        email.message_to_string().unwrap(),
        format!(
            "Date: {}\r\nSubject: Hello\r\nX-test: value\r\nSender: \
             <sender@localhost>\r\nTo: <user@localhost>\r\nFrom: \
             <user@localhost>\r\nCc: Alias <cc@localhost>\r\n\
             Reply-To: <reply@localhost>\r\nIn-Reply-To: original\r\n\
             MIME-Version: 1.0\r\nMessage-ID: \
             <{}.lettre@localhost>\r\n\r\nHello World!\r\n",
            rfc2822(&date_now),
            id
        )
    );
}

#[test]
fn test_line_endings() {
    let email_builder = EmailBuilder::new();
    let date_now = local_now();

    let email = email_builder
        .to(Mailbox::new("user@localhost".to_string()))
        .from(Mailbox::new("user@localhost".to_string()))
        .cc(Mailbox::new_with_name("Alias".to_string(), "cc@localhost".to_string()))
        .bcc(Mailbox::new("bcc@localhost".to_string()))
        .reply_to(Mailbox::new("reply@localhost".to_string()))
        .in_reply_to("original".to_string())
        .sender(Mailbox::new("sender@localhost".to_string()))
        .date(&date_now)
        .subject("Hello")
        .header(Header::new("X-test".to_string(), "value".to_string()))
        .body("hello\nworld\rwhat is happening\r\nabc\n")
        .build()
        .unwrap();

    let id = email.message_id.to_string();
    assert_eq!(
        email.message_to_string().unwrap(),
        format!(
            "Date: {}\r\nSubject: Hello\r\nX-test: value\r\nSender: \
             <sender@localhost>\r\nTo: <user@localhost>\r\nFrom: \
             <user@localhost>\r\nCc: Alias <cc@localhost>\r\n\
             Reply-To: <reply@localhost>\r\nIn-Reply-To: original\r\n\
             MIME-Version: 1.0\r\nMessage-ID: \
             <{}.lettre@localhost>\r\n\
             \r\n\
             hello\r\n\
             world\r\n\
             what is happening\r\n\
             abc\r\n\
             \r\n",
            rfc2822(&date_now),
            id
        )
    );
}

#[test]
fn test_custom_message_id() {
    let email_builder = EmailBuilder::new();
    let date_now = local_now();

    let email = email_builder
        .to(Mailbox::new("user@localhost".to_string()))
        .from(Mailbox::new("user@localhost".to_string()))
        .cc(Mailbox::new_with_name("Alias".to_string(), "cc@localhost".to_string()))
        .bcc(Mailbox::new("bcc@localhost".to_string()))
        .reply_to(Mailbox::new("reply@localhost".to_string()))
        .in_reply_to("original".to_string())
        .sender(Mailbox::new("sender@localhost".to_string()))
        .body("Hello World!")
        .date(&date_now)
        .subject("Hello")
        .header(Header::new("X-test".to_string(), "value".to_string()))
        .message_id("my-shiny-id")
        .build()
        .unwrap();

    assert_eq!(
        email.message_to_string().unwrap(),
        format!(
            "Date: {}\r\nSubject: Hello\r\nX-test: value\r\nMessage-ID: \
             my-shiny-id\r\nSender: <sender@localhost>\r\nTo: <user@localhost>\r\nFrom: \
             <user@localhost>\r\nCc: Alias <cc@localhost>\r\nReply-To: \
             <reply@localhost>\r\nIn-Reply-To: original\r\nMIME-Version: 1.0\r\n\r\nHello \
             World!\r\n",
            rfc2822(&date_now)
        )
    );
}

#[test]
fn test_replace_header() {
    let email_builder = EmailBuilder::new();
    let date_now = local_now();

    let email = email_builder
        .to(Mailbox::new("user@localhost".to_string()))
        .from(Mailbox::new("user@localhost".to_string()))
        .header(Header::new("Content-Type".to_string(), "hello".to_string()))
        .replace_header(Header::new("Content-Type".to_string(), "world".to_string()))
        .body("Hello World!")
        .build()
        .unwrap();

    let id = email.message_id.to_string();
    assert_eq!(
        email.message_to_string().unwrap(),
        format!(
            "Content-Type: world\r\n\
             To: <user@localhost>\r\n\
             From: <user@localhost>\r\n\
             Date: {}\r\n\
             MIME-Version: 1.0\r\n\
             Message-ID: <{}.lettre@localhost>\r\n\r\n\
             Hello World!\r\n",
            rfc2822(&date_now),
            id,
        )
    );
}

#[test]
fn test_email_builder_body() {
    let date_now = local_now();
    let email_builder = EmailBuilder::new()
        .text("TestTest")
        .subject("A Subject")
        .to(Mailbox::new("user@localhost".to_string()))
        .date(&date_now);

    let body_res = email_builder.build_body();
    assert_eq!(body_res.is_ok(), true);

    let string_res = std::string::String::from_utf8(body_res.unwrap());
    assert_eq!(string_res.is_ok(), true);
    assert!(string_res.unwrap().starts_with("Subject: A Subject"));
}

#[test]
fn test_email_sendable() {
    let email_builder = EmailBuilder::new();
    let date_now = local_now();

    let email = email_builder
        .to(Mailbox::new("user@localhost".to_string()))
        .from(Mailbox::new("user@localhost".to_string()))
        .cc(Mailbox::new_with_name("Alias".to_string(), "cc@localhost".to_string()))
        .bcc(Mailbox::new("bcc@localhost".to_string()))
        .reply_to(Mailbox::new("reply@localhost".to_string()))
        .sender(Mailbox::new("sender@localhost".to_string()))
        .body("Hello World!")
        .date(&date_now)
        .subject("Hello")
        .header(Header::new("X-test".to_string(), "value".to_string()))
        .build()
        .unwrap();

    assert_eq!(
        email.envelope.from().unwrap().to_string(),
        "sender@localhost".to_string()
    );
    assert_eq!(
        email.envelope.to(),
        vec![
            EmailAddress::new("user@localhost".to_string()).unwrap(),
            EmailAddress::new("cc@localhost".to_string()).unwrap(),
            EmailAddress::new("bcc@localhost".to_string()).unwrap(),
        ]
        .as_slice()
    );
}

#[test]
fn test_build_without_recipients_fails() {
    // A derived envelope with an empty forward path is refused; no
    // empty address-list header is ever emitted.
    let r = EmailBuilder::new()
        .from(Mailbox::new("user@localhost".to_string()))
        .body("Hello")
        .build();
    assert!(r.is_err());
    assert!(matches!(r, Err(Error::Envelope(email::email::EnvelopeError::MissingTo))));
}

#[test]
fn test_build_without_sender_fails() {
    let r = EmailBuilder::new()
        .to(Mailbox::new("user@localhost".to_string()))
        .body("Hello")
        .build();
    assert!(r.is_err());
    assert!(matches!(r, Err(Error::Envelope(email::email::EnvelopeError::MissingFrom))));
}

#[test]
fn test_build_with_unparseable_recipient_fails() {
    let r = EmailBuilder::new()
        .to(Mailbox::new("not an address at all".to_string()))
        .from(Mailbox::new("user@localhost".to_string()))
        .body("Hello")
        .build();
    assert!(matches!(r, Err(Error::Address(_))));
}

#[test]
fn test_explicit_envelope_is_kept() {
    let envelope = Envelope::new(
        Some(EmailAddress::new("reverse@localhost".to_string()).unwrap()),
        vec![EmailAddress::new("forward@localhost".to_string()).unwrap()],
    )
    .unwrap();
    let email = EmailBuilder::new()
        .from(Mailbox::new("user@localhost".to_string()))
        .envelope(envelope)
        .body("Hello")
        .build()
        .unwrap();
    assert_eq!(email.envelope.from().unwrap().to_string(), "reverse@localhost");
    assert_eq!(email.envelope.to().len(), 1);
    assert_eq!(email.envelope.to()[0].to_string(), "forward@localhost");
}

#[test]
fn test_envelope_requires_recipients() {
    let r = Envelope::new(Some(EmailAddress::new("a@localhost".to_string()).unwrap()), vec![]);
    assert!(r.is_err());
}

#[test]
fn test_email_address_validation() {
    assert!(EmailAddress::new("joe@example.org".to_string()).is_ok());
    assert!(EmailAddress::new("user@localhost".to_string()).is_ok());
    assert!(EmailAddress::new("plainly wrong".to_string()).is_err());
}

#[test]
fn test_generated_message_id_is_uuid_shaped() {
    let email = EmailBuilder::new()
        .to(Mailbox::new("user@localhost".to_string()))
        .from(Mailbox::new("user@localhost".to_string()))
        .body("Hello")
        .build()
        .unwrap();
    assert_eq!(email.message_id.len(), 36);
    let id = email.message_id.clone();
    let rendered = email.message_to_string().unwrap();
    assert!(rendered.contains(&format!("Message-ID: <{}.lettre@localhost>", id)));
}

#[test]
fn test_attachment_body() {
    let builder = EmailBuilder::new()
        .to(Mailbox::new("user@localhost".to_string()))
        .from(Mailbox::new("user@localhost".to_string()))
        .attachment(b"Hello", "test.txt", &mime::TEXT_PLAIN)
        .unwrap();
    let body = String::from_utf8(builder.build_body().unwrap()).unwrap();
    assert!(body.contains("Content-Disposition: attachment; filename=\"test.txt\""));
    assert!(body.contains("Content-Type: text/plain"));
    assert!(body.contains("Content-Transfer-Encoding: base64"));
    assert!(body.contains("SGVsbG8="));
    assert!(body.contains("Content-Type: multipart/mixed; boundary="));
}

#[test]
fn test_alternative_parts() {
    let body = String::from_utf8(
        EmailBuilder::new()
            .alternative("<p>Hi</p>", "Hi")
            .build_body()
            .unwrap(),
    )
    .unwrap();
    assert!(body.contains("Content-Type: multipart/mixed; boundary="));
    assert!(body.contains("Content-Type: multipart/alternative; boundary="));
    assert!(body.contains("Content-Type: text/plain; charset=utf-8\r\n\r\nHi\r\n"));
    assert!(body.contains("Content-Type: text/html; charset=utf-8\r\n\r\n<p>Hi</p>\r\n"));
}

#[test]
fn test_builder_starts_blank() {
    let builder = email::email::Email::builder();
    assert!(builder.get_header("Subject".to_string()).is_none());
}
