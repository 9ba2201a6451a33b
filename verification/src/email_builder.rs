//! Staged construction of a whole email: a part builder for MIME nodes
//! and an email builder that assembles headers, envelope and message.

use vstd::prelude::*;
use vstd::string::StrSliceExecFns;
use vstd::string::StringExecFns;
use vstd::utf8::encode_utf8;

use crate::address::{Address, AddressView, Mailbox, MailboxView, addrparse_view};
use crate::address::{spec_folded_addr_list, spec_render_mailbox};
use crate::email::{Email, EmailAddress, Envelope, EnvelopeError, EnvelopeView, MessageId};
use crate::header::{Header, HeaderView, entries_named, spec_replace};
use crate::message::{
    BOUNDARY_LENGTH, MimeMessage, MimeMultipartType, spec_ct_header, spec_effective_type,
    spec_headers_block, spec_message_body, spec_opt_params_view,
};

verus! {

/// Declares mime::Mime so that signatures may carry it; its values
/// stay opaque.
#[verifier::external_type_specification]
#[verifier::external_body]
pub struct ExMime(mime::Mime);

/// Declares time::OffsetDateTime so that signatures may carry it; its
/// values stay opaque.
#[verifier::external_type_specification]
#[verifier::external_body]
pub struct ExOffsetDateTime(time::OffsetDateTime);

/// Declares the error time returns when the local offset cannot be
/// read.
#[verifier::external_type_specification]
#[verifier::external_body]
pub struct ExIndeterminateOffset(time::error::IndeterminateOffset);

/// Declares the error time returns when a date cannot be formatted.
#[verifier::external_type_specification]
#[verifier::external_body]
pub struct ExTimeFormatError(time::error::Format);

/// Declares std::io::Error for the builder's IO error variant.
#[verifier::external_type_specification]
#[verifier::external_body]
pub struct ExIoError(std::io::Error);

/// Relies on mime's Display implementation to render the given MIME
/// type as text.
#[verifier::external_body]
fn mime_to_string(m: &mime::Mime) -> (r: String) {
    m.to_string()
}

/// Relies on mime::TEXT_PLAIN_UTF_8: its source text is exactly this.
#[verifier::external_body]
fn text_plain_utf8() -> (r: String)
    ensures
        r@ == "text/plain; charset=utf-8"@,
{
    mime::TEXT_PLAIN_UTF_8.to_string()
}

/// Relies on mime::TEXT_HTML_UTF_8: its source text is exactly this.
#[verifier::external_body]
fn text_html_utf8() -> (r: String)
    ensures
        r@ == "text/html; charset=utf-8"@,
{
    mime::TEXT_HTML_UTF_8.to_string()
}

/// What base64::encode returns for the given bytes: standard alphabet,
/// padded, a function of the bytes alone.
pub uninterp spec fn base64_of(b: Seq<u8>) -> Seq<char>;

/// Relies on base64::encode with the standard configuration.
#[verifier::external_body]
fn base64_encode(body: &[u8]) -> (r: String)
    ensures
        r@ == base64_of(body@),
{
    base64::encode(body)
}

/// Relies on time::OffsetDateTime::now_local: the current date and time
/// in the local offset, refused when that offset cannot be determined
/// soundly.
#[verifier::external_body]
fn now_local() -> (r: Result<time::OffsetDateTime, time::error::IndeterminateOffset>) {
    time::OffsetDateTime::now_local()
}

/// Relies on time::OffsetDateTime::now_utc: the current date and time
/// in UTC.
#[verifier::external_body]
fn now_utc() -> (r: time::OffsetDateTime) {
    time::OffsetDateTime::now_utc()
}

/// Relies on OffsetDateTime::format with the well-known RFC 2822
/// description, which renders `Day, DD Mon YYYY HH:MM:SS ±ZZZZ` and
/// refuses only years outside 1900-9999 and offsets carrying seconds.
#[verifier::external_body]
fn format_rfc2822(d: &time::OffsetDateTime) -> (r: Result<String, time::error::Format>) {
    d.format(&time::format_description::well_known::Rfc2822)
}

/// Relies on uuid::Uuid::new_v4 and its Display implementation: a fresh
/// random identifier in the 36-character hyphenated form.
#[verifier::external_body]
fn fresh_uuid() -> (r: String)
    ensures
        r@.len() == 36,
{
    uuid::Uuid::new_v4().to_string()
}

/// The current moment as an RFC 2822 date line, from the local clock
/// when the local offset can be read, else from UTC.
fn synthesize_date() -> (r: String) {
    let moment = match now_local() {
        Ok(t) => t,
        Err(_) => now_utc(),
    };
    match format_rfc2822(&moment) {
        Ok(s) => s,
        Err(_) => String::new(),
    }
}

/// Text with every line break normalized to CRLF: a lone carriage
/// return, a lone line feed, and a CRLF pair each become one CRLF.
pub open spec fn spec_normalize_newlines(s: Seq<char>) -> Seq<char>
    decreases s.len(),
{
    if s.len() == 0 {
        Seq::empty()
    } else if s[0] == '\r' {
        "\r\n"@ + spec_normalize_newlines(
            if s.len() > 1 && s[1] == '\n' {
                s.skip(2)
            } else {
                s.skip(1)
            },
        )
    } else if s[0] == '\n' {
        "\r\n"@ + spec_normalize_newlines(s.skip(1))
    } else {
        seq![s[0]] + spec_normalize_newlines(s.skip(1))
    }
}

/// Rewrites every line break of `s` to CRLF.
fn normalize_newlines(s: &str) -> (r: String)
    ensures
        r@ == spec_normalize_newlines(s@),
{
    let n = s.unicode_len();
    let mut out = String::new();
    proof {
        assert(s@.skip(0) =~= s@);
        assert(out@ + spec_normalize_newlines(s@) =~= spec_normalize_newlines(s@));
    }
    let mut i: usize = 0;
    while i < n
        invariant
            n == s@.len(),
            i <= n,
            out@ + spec_normalize_newlines(s@.skip(i as int)) == spec_normalize_newlines(s@),
        decreases n - i,
    {
        let ghost suf = s@.skip(i as int);
        let ghost prev = out@;
        proof {
            assert(suf.len() == n - i);
            assert(suf[0] == s@[i as int]);
            assert(suf.skip(1) =~= s@.skip(i + 1));
            if suf.len() > 1 {
                assert(suf[1] == s@[i + 1]);
                assert(suf.skip(2) =~= s@.skip(i + 2));
            }
        }
        let c = s.get_char(i);
        if c == '\r' {
            out.append("\r\n");
            if i + 1 < n && s.get_char(i + 1) == '\n' {
                proof {
                    assert(out@ + spec_normalize_newlines(s@.skip(i + 2)) =~= prev
                        + spec_normalize_newlines(suf));
                }
                i = i + 2;
            } else {
                proof {
                    assert(out@ + spec_normalize_newlines(s@.skip(i + 1)) =~= prev
                        + spec_normalize_newlines(suf));
                }
                i = i + 1;
            }
        } else if c == '\n' {
            out.append("\r\n");
            proof {
                assert(out@ + spec_normalize_newlines(s@.skip(i + 1)) =~= prev
                    + spec_normalize_newlines(suf));
            }
            i = i + 1;
        } else {
            out.push(c);
            proof {
                assert(out@ =~= prev + seq![suf[0]]);
                assert(out@ + spec_normalize_newlines(s@.skip(i + 1)) =~= prev
                    + spec_normalize_newlines(suf));
            }
            i = i + 1;
        }
    }
    proof {
        assert(s@.skip(n as int) =~= Seq::<char>::empty());
        assert(spec_normalize_newlines(Seq::<char>::empty()) == Seq::<char>::empty());
        assert(out@ + Seq::<char>::empty() =~= out@);
    }
    out
}

/// A part node that carries no headers, text, type or children yet,
/// only a fresh boundary.
pub open spec fn spec_blank_part(m: MimeMessage) -> bool {
    &&& m.headers@ == Seq::<HeaderView>::empty()
    &&& m.body@ == Seq::<char>::empty()
    &&& m.message_type is None
    &&& m.message_type_params is None
    &&& m.children@ == Seq::<MimeMessage>::empty()
    &&& m.boundary@.len() == BOUNDARY_LENGTH
}

/// How `update_headers` (and so `build`) rewrites a node: content
/// fields stay, the type defaults to Mixed for a node with children,
/// and for a multipart node the Content-Type header is recomputed.
pub open spec fn spec_normalized(pre: MimeMessage, post: MimeMessage) -> bool {
    &&& post.body == pre.body
    &&& post.children == pre.children
    &&& post.boundary == pre.boundary
    &&& post.message_type_params == pre.message_type_params
    &&& post.message_type == spec_effective_type(pre)
    &&& match spec_effective_type(pre) {
        Some(t) => post.headers@ == spec_replace(
            pre.headers@,
            spec_ct_header(t, spec_opt_params_view(pre.message_type_params), pre.boundary@),
        ),
        None => post.headers@ == pre.headers@,
    }
}

/// Builds a `MimeMessage` structure.
#[derive(PartialEq, Eq, Debug)]
pub struct PartBuilder {
    /// Message.
    message: MimeMessage,
}

impl View for PartBuilder {
    type V = MimeMessage;

    closed spec fn view(&self) -> MimeMessage {
        self.message
    }
}

impl PartBuilder {
    /// Creates a new empty part.
    pub fn new() -> (r: PartBuilder)
        ensures
            spec_blank_part(r@),
    {
        PartBuilder { message: MimeMessage::new_blank_message() }
    }

    /// Adds a generic header.
    pub fn header(self, header: Header) -> (r: PartBuilder)
        ensures
            r@.headers@ == self@.headers@.push(header@),
            r@.body == self@.body,
            r@.message_type == self@.message_type,
            r@.message_type_params == self@.message_type_params,
            r@.children == self@.children,
            r@.boundary == self@.boundary,
    {
        let mut s = self;
        s.message.headers.insert(header);
        s
    }

    /// Get the latest header with this name.
    pub fn get_header(&self, header: String) -> (r: Option<&Header>)
        ensures
            match r {
                Some(h) => {
                    &&& entries_named(self@.headers@, header@).len() > 0
                    &&& h@ == entries_named(self@.headers@, header@).last()
                },
                None => entries_named(self@.headers@, header@).len() == 0,
            },
    {
        self.message.headers.get(header)
    }

    /// Replaces an existing header, or inserts it.
    pub fn replace_header(self, header: Header) -> (r: PartBuilder)
        ensures
            r@.headers@ == spec_replace(self@.headers@, header@),
            r@.body == self@.body,
            r@.message_type == self@.message_type,
            r@.message_type_params == self@.message_type_params,
            r@.children == self@.children,
            r@.boundary == self@.boundary,
    {
        let mut s = self;
        s.message.headers.replace(header);
        s
    }

    /// Sets the body, normalizing its line breaks to CRLF.
    pub fn body(self, body: &str) -> (r: PartBuilder)
        ensures
            r@.body@ == spec_normalize_newlines(body@),
            r@.headers@ == self@.headers@,
            r@.message_type == self@.message_type,
            r@.message_type_params == self@.message_type_params,
            r@.children == self@.children,
            r@.boundary == self@.boundary,
    {
        let mut s = self;
        s.message.body = normalize_newlines(body);
        s
    }

    /// Defines a `MimeMultipartType` value.
    pub fn message_type(self, mime_type: MimeMultipartType) -> (r: PartBuilder)
        ensures
            r@.message_type == Some(mime_type),
            r@.headers@ == self@.headers@,
            r@.body == self@.body,
            r@.message_type_params == self@.message_type_params,
            r@.children == self@.children,
            r@.boundary == self@.boundary,
    {
        let mut s = self;
        s.message.message_type = Some(mime_type);
        s
    }

    /// Adds a `Content-Type` header with the given MIME type.
    pub fn content_type(self, content_type: &mime::Mime) -> (r: PartBuilder)
        ensures
            exists|v: Seq<char>|
                r@.headers@ == self@.headers@.push(
                    HeaderView { name: "Content-Type"@, value: v },
                ),
            r@.body == self@.body,
            r@.message_type == self@.message_type,
            r@.message_type_params == self@.message_type_params,
            r@.children == self@.children,
            r@.boundary == self@.boundary,
    {
        let value = mime_to_string(content_type);
        let ghost v = value@;
        let ghost before = self@.headers@;
        let r = self.header(Header::new("Content-Type".to_owned(), value));
        proof {
            assert(r@.headers@ == before.push(HeaderView { name: "Content-Type"@, value: v }));
        }
        r
    }

    /// Adds a child part.
    pub fn child(self, child: MimeMessage) -> (r: PartBuilder)
        ensures
            r@.children@ == self@.children@.push(child),
            r@.headers@ == self@.headers@,
            r@.body == self@.body,
            r@.message_type == self@.message_type,
            r@.message_type_params == self@.message_type_params,
            r@.boundary == self@.boundary,
    {
        let mut s = self;
        s.message.children.push(child);
        s
    }

    /// Gets the built `MimeMessage`, with its headers normalized.
    pub fn build(self) -> (r: MimeMessage)
        ensures
            spec_normalized(self@, r),
    {
        let mut s = self;
        s.message.update_headers();
        s.message
    }
}

/// A fresh builder around the given part: every list empty, nothing
/// set.
pub open spec fn spec_new_builder(message: MimeMessage) -> EmailBuilderView {
    EmailBuilderView {
        message,
        to: Seq::empty(),
        from: Seq::empty(),
        cc: Seq::empty(),
        bcc: Seq::empty(),
        reply_to: Seq::empty(),
        in_reply_to: Seq::empty(),
        references: Seq::empty(),
        sender: None,
        envelope: None,
        date_issued: false,
        message_id: None,
    }
}

/// The mathematical content of an `EmailBuilder`.
pub struct EmailBuilderView {
    pub message: MimeMessage,
    pub to: Seq<AddressView>,
    pub from: Seq<AddressView>,
    pub cc: Seq<AddressView>,
    pub bcc: Seq<AddressView>,
    pub reply_to: Seq<AddressView>,
    pub in_reply_to: Seq<Seq<char>>,
    pub references: Seq<Seq<char>>,
    pub sender: Option<MailboxView>,
    pub envelope: Option<EnvelopeView>,
    pub date_issued: bool,
    pub message_id: Option<Seq<char>>,
}

/// An enum of all error kinds.
#[derive(Debug)]
pub enum Error {
    /// Envelope error.
    Envelope(EnvelopeError),
    /// Address error.
    Address(mailparse::MailParseError),
    /// Unparseable filename for attachment.
    CannotParseFilename,
    /// IO error.
    Io(std::io::Error),
}

/// Builds an `Email` structure.
#[derive(Debug)]
pub struct EmailBuilder {
    /// Message.
    message: PartBuilder,
    /// The recipients' addresses for the mail header.
    to: Vec<Address>,
    /// The sender addresses for the mail header.
    from: Vec<Address>,
    /// The Cc addresses for the mail header.
    cc: Vec<Address>,
    /// The Bcc addresses for the mail header.
    bcc: Vec<Address>,
    /// The Reply-To addresses for the mail header.
    reply_to: Vec<Address>,
    /// The In-Reply-To ids for the mail header.
    in_reply_to: Vec<MessageId>,
    /// The References ids for the mail header.
    references: Vec<MessageId>,
    /// The sender address for the mail header.
    sender: Option<Mailbox>,
    /// The envelope.
    envelope: Option<Envelope>,
    /// Date issued.
    date_issued: bool,
    /// Message-ID.
    message_id: Option<String>,
}

impl View for EmailBuilder {
    type V = EmailBuilderView;

    closed spec fn view(&self) -> EmailBuilderView {
        EmailBuilderView {
            message: self.message@,
            to: self.to.deep_view(),
            from: self.from.deep_view(),
            cc: self.cc.deep_view(),
            bcc: self.bcc.deep_view(),
            reply_to: self.reply_to.deep_view(),
            in_reply_to: self.in_reply_to.deep_view(),
            references: self.references.deep_view(),
            sender: match self.sender {
                Some(m) => Some(m@),
                None => None,
            },
            envelope: match self.envelope {
                Some(e) => Some(e@),
                None => None,
            },
            date_issued: self.date_issued,
            message_id: match self.message_id {
                Some(s) => Some(s@),
                None => None,
            },
        }
    }
}

impl EmailBuilder {
    /// Creates a new empty email.
    pub fn new() -> (r: EmailBuilder)
        ensures
            r@ == spec_new_builder(r@.message),
            spec_blank_part(r@.message),
    {
        let r = EmailBuilder {
            message: PartBuilder::new(),
            to: vec![],
            from: vec![],
            cc: vec![],
            bcc: vec![],
            reply_to: vec![],
            in_reply_to: vec![],
            references: vec![],
            sender: None,
            envelope: None,
            date_issued: false,
            message_id: None,
        };
        proof {
            assert(r.to.deep_view() =~= Seq::<AddressView>::empty());
            assert(r.from.deep_view() =~= Seq::<AddressView>::empty());
            assert(r.cc.deep_view() =~= Seq::<AddressView>::empty());
            assert(r.bcc.deep_view() =~= Seq::<AddressView>::empty());
            assert(r.reply_to.deep_view() =~= Seq::<AddressView>::empty());
            assert(r.in_reply_to.deep_view() =~= Seq::<Seq<char>>::empty());
            assert(r.references.deep_view() =~= Seq::<Seq<char>>::empty());
        }
        r
    }

    /// Sets the email body, normalizing its line breaks to CRLF.
    pub fn body(self, body: &str) -> (r: EmailBuilder)
        ensures
            r@.message.body@ == spec_normalize_newlines(body@),
            r@.message.headers@ == self@.message.headers@,
            r@.message.message_type == self@.message.message_type,
            r@.message.message_type_params == self@.message.message_type_params,
            r@.message.children == self@.message.children,
            r@.message.boundary == self@.message.boundary,
            spec_same_lists(self@, r@),
    {
        let mut s = self;
        s.message = s.message.body(body);
        s
    }

    /// Add a generic header.
    pub fn header(self, header: Header) -> (r: EmailBuilder)
        ensures
            r@.message.headers@ == self@.message.headers@.push(header@),
            spec_same_message_but_headers(self@, r@),
            spec_same_lists(self@, r@),
    {
        let mut s = self;
        s.message = s.message.header(header);
        s
    }

    /// Get the latest header with this name.
    pub fn get_header(&self, header: String) -> (r: Option<&Header>)
        ensures
            match r {
                Some(h) => {
                    &&& entries_named(self@.message.headers@, header@).len() > 0
                    &&& h@ == entries_named(self@.message.headers@, header@).last()
                },
                None => entries_named(self@.message.headers@, header@).len() == 0,
            },
    {
        self.message.get_header(header)
    }

    /// Replaces an existing header, or inserts it.
    pub fn replace_header(self, header: Header) -> (r: EmailBuilder)
        ensures
            r@.message.headers@ == spec_replace(self@.message.headers@, header@),
            spec_same_message_but_headers(self@, r@),
            spec_same_lists(self@, r@),
    {
        let mut s = self;
        s.message = s.message.replace_header(header);
        s
    }

    /// Adds a `From` address for the mail header.
    pub fn from(self, address: Mailbox) -> (r: EmailBuilder)
        ensures
            r@ == (EmailBuilderView {
                from: self@.from.push(AddressView::Mailbox(address@)),
                ..self@
            }),
    {
        let ghost a = address@;
        let mut s = self;
        s.from.push(Address::Mailbox(address));
        proof {
            assert(s.from.deep_view() =~= self@.from.push(AddressView::Mailbox(a)));
        }
        s
    }

    /// Adds a `To` address for the mail header.
    pub fn to(self, address: Mailbox) -> (r: EmailBuilder)
        ensures
            r@ == (EmailBuilderView { to: self@.to.push(AddressView::Mailbox(address@)), ..self@ }),
    {
        let ghost a = address@;
        let mut s = self;
        s.to.push(Address::Mailbox(address));
        proof {
            assert(s.to.deep_view() =~= self@.to.push(AddressView::Mailbox(a)));
        }
        s
    }

    /// Adds a `Cc` address for the mail header.
    pub fn cc(self, address: Mailbox) -> (r: EmailBuilder)
        ensures
            r@ == (EmailBuilderView { cc: self@.cc.push(AddressView::Mailbox(address@)), ..self@ }),
    {
        let ghost a = address@;
        let mut s = self;
        s.cc.push(Address::Mailbox(address));
        proof {
            assert(s.cc.deep_view() =~= self@.cc.push(AddressView::Mailbox(a)));
        }
        s
    }

    /// Adds a `Bcc` address: it joins the envelope, not the headers.
    pub fn bcc(self, address: Mailbox) -> (r: EmailBuilder)
        ensures
            r@ == (EmailBuilderView {
                bcc: self@.bcc.push(AddressView::Mailbox(address@)),
                ..self@
            }),
    {
        let ghost a = address@;
        let mut s = self;
        s.bcc.push(Address::Mailbox(address));
        proof {
            assert(s.bcc.deep_view() =~= self@.bcc.push(AddressView::Mailbox(a)));
        }
        s
    }

    /// Adds a `Reply-To` address for the mail header.
    pub fn reply_to(self, address: Mailbox) -> (r: EmailBuilder)
        ensures
            r@ == (EmailBuilderView {
                reply_to: self@.reply_to.push(AddressView::Mailbox(address@)),
                ..self@
            }),
    {
        let ghost a = address@;
        let mut s = self;
        s.reply_to.push(Address::Mailbox(address));
        proof {
            assert(s.reply_to.deep_view() =~= self@.reply_to.push(AddressView::Mailbox(a)));
        }
        s
    }

    /// Adds an `In-Reply-To` id.
    pub fn in_reply_to(self, message_id: MessageId) -> (r: EmailBuilder)
        ensures
            r@ == (EmailBuilderView {
                in_reply_to: self@.in_reply_to.push(message_id@),
                ..self@
            }),
    {
        let ghost idv = message_id@;
        let mut s = self;
        s.in_reply_to.push(message_id);
        proof {
            assert(s.in_reply_to.deep_view() =~= self@.in_reply_to.push(idv));
        }
        s
    }

    /// Adds a `References` id.
    pub fn references(self, message_id: MessageId) -> (r: EmailBuilder)
        ensures
            r@ == (EmailBuilderView {
                references: self@.references.push(message_id@),
                ..self@
            }),
    {
        let ghost idv = message_id@;
        let mut s = self;
        s.references.push(message_id);
        proof {
            assert(s.references.deep_view() =~= self@.references.push(idv));
        }
        s
    }

    /// Sets the `Sender` mailbox.
    pub fn sender(self, address: Mailbox) -> (r: EmailBuilder)
        ensures
            r@ == (EmailBuilderView { sender: Some(address@), ..self@ }),
    {
        let mut s = self;
        s.sender = Some(address);
        s
    }

    /// Adds a `Subject` header.
    pub fn subject(self, subject: &str) -> (r: EmailBuilder)
        ensures
            r@.message.headers@ == self@.message.headers@.push(
                HeaderView { name: "Subject"@, value: subject@ },
            ),
            spec_same_message_but_headers(self@, r@),
            spec_same_lists(self@, r@),
    {
        self.header(Header::new("Subject".to_owned(), subject.to_owned()))
    }

    /// Adds a `Date` header with the given date, rendered by the
    /// wall-clock formatter.
    pub fn date(self, date: &time::OffsetDateTime) -> (r: EmailBuilder)
        ensures
            exists|v: Seq<char>|
                r@.message.headers@ == self@.message.headers@.push(
                    HeaderView { name: "Date"@, value: v },
                ),
            spec_same_message_but_headers(self@, r@),
            r@ == (EmailBuilderView { message: r@.message, date_issued: true, ..self@ }),
    {
        let value = match format_rfc2822(date) {
            Ok(s) => s,
            Err(_) => String::new(),
        };
        let ghost v = value@;
        let mut s = self.header(Header::new("Date".to_owned(), value));
        s.date_issued = true;
        proof {
            assert(s@.message.headers@ == self@.message.headers@.push(
                HeaderView { name: "Date"@, value: v },
            ));
        }
        s
    }

    /// Set the message type.
    pub fn message_type(self, message_type: MimeMultipartType) -> (r: EmailBuilder)
        ensures
            r@.message.message_type == Some(message_type),
            r@.message.headers@ == self@.message.headers@,
            r@.message.body == self@.message.body,
            r@.message.message_type_params == self@.message.message_type_params,
            r@.message.children == self@.message.children,
            r@.message.boundary == self@.message.boundary,
            spec_same_lists(self@, r@),
    {
        let mut s = self;
        s.message = s.message.message_type(message_type);
        s
    }

    /// Adds a child part.
    pub fn child(self, child: MimeMessage) -> (r: EmailBuilder)
        ensures
            r@.message.children@ == self@.message.children@.push(child),
            r@.message.headers@ == self@.message.headers@,
            r@.message.body == self@.message.body,
            r@.message.message_type == self@.message.message_type,
            r@.message.message_type_params == self@.message.message_type_params,
            r@.message.boundary == self@.message.boundary,
            spec_same_lists(self@, r@),
    {
        let mut s = self;
        s.message = s.message.child(child);
        s
    }

    /// Sets the `Message-ID` header and records the id.
    pub fn message_id(self, id: &str) -> (r: EmailBuilder)
        ensures
            r@.message.headers@ == self@.message.headers@.push(
                HeaderView { name: "Message-ID"@, value: id@ },
            ),
            spec_same_message_but_headers(self@, r@),
            r@ == (EmailBuilderView { message: r@.message, message_id: Some(id@), ..self@ }),
    {
        let mut s = self.header(Header::new("Message-ID".to_owned(), id.to_owned()));
        s.message_id = Some(id.to_owned());
        s
    }

    /// Sets the envelope for manual destination control.
    ///
    /// If this function is not called, the envelope will be calculated
    /// from the "to", "cc" and "bcc" addresses you set.
    pub fn envelope(self, envelope: Envelope) -> (r: EmailBuilder)
        ensures
            r@ == (EmailBuilderView { envelope: Some(envelope@), ..self@ }),
    {
        let mut s = self;
        s.envelope = Some(envelope);
        s
    }
}

/// The part-tree fields of two builder views agree except for the
/// headers of the root part.
pub open spec fn spec_same_message_but_headers(a: EmailBuilderView, b: EmailBuilderView) -> bool {
    &&& b.message.body == a.message.body
    &&& b.message.message_type == a.message.message_type
    &&& b.message.message_type_params == a.message.message_type_params
    &&& b.message.children == a.message.children
    &&& b.message.boundary == a.message.boundary
}

/// Everything outside the part tree agrees between two builder views.
pub open spec fn spec_same_lists(a: EmailBuilderView, b: EmailBuilderView) -> bool {
    b == (EmailBuilderView { message: b.message, ..a })
}


/// Whether the parser reads `s` as exactly one address.
pub open spec fn spec_parses_single(s: Seq<char>) -> bool {
    addrparse_view(s) matches Some(l) && l.len() == 1
}

/// The addresses of a run of mailboxes, in order.
pub open spec fn spec_mailbox_addrs(ms: Seq<MailboxView>) -> Seq<Seq<char>> {
    Seq::new(ms.len(), |i: int| ms[i].address)
}

/// The address strings a list of addresses contributes to the envelope:
/// a mailbox its own address, a group the addresses of its members.
pub open spec fn spec_flatten_addresses(l: Seq<AddressView>) -> Seq<Seq<char>>
    decreases l.len(),
{
    if l.len() == 0 {
        Seq::empty()
    } else {
        (match l[0] {
            AddressView::Mailbox(m) => seq![m.address],
            AddressView::Group(_, ms) => spec_mailbox_addrs(ms),
        }) + spec_flatten_addresses(l.drop_first())
    }
}

/// Every address of the run parses as exactly one address.
pub open spec fn spec_all_parse(rs: Seq<Seq<char>>) -> bool {
    forall|k: int| 0 <= k < rs.len() ==> spec_parses_single(#[trigger] rs[k])
}

/// The forward path a builder derives: To, then Cc, then Bcc, groups
/// expanded to their members.
pub open spec fn spec_recipients(b: EmailBuilderView) -> Seq<Seq<char>> {
    spec_flatten_addresses(b.to) + spec_flatten_addresses(b.cc) + spec_flatten_addresses(b.bcc)
}

/// The first From entry that is a plain mailbox, if any.
pub open spec fn spec_first_from_mailbox(from: Seq<AddressView>) -> Option<MailboxView>
    decreases from.len(),
{
    if from.len() == 0 {
        None
    } else {
        match from[0] {
            AddressView::Mailbox(m) => Some(m),
            AddressView::Group(_, _) => spec_first_from_mailbox(from.drop_first()),
        }
    }
}

/// The sender a build works with: the one set explicitly, or, when two
/// or more From entries stand and none was set, the first From entry
/// that is a plain mailbox.
pub open spec fn spec_effective_sender(b: EmailBuilderView) -> Option<MailboxView> {
    if b.from.len() >= 2 && b.sender is None {
        spec_first_from_mailbox(b.from)
    } else {
        b.sender
    }
}

/// Two or more From entries, none a plain mailbox, and no explicit
/// sender: the one case where no sender can be inferred.
pub open spec fn spec_sender_gap(b: EmailBuilderView) -> bool {
    b.from.len() >= 2 && b.sender is None && spec_first_from_mailbox(b.from) is None
}

/// The reverse path a build derives: the effective sender's address,
/// else the first From entry's address (the first member's for a
/// group), else nothing.
pub open spec fn spec_reverse_src(b: EmailBuilderView) -> Option<Seq<char>> {
    match spec_effective_sender(b) {
        Some(m) => Some(m.address),
        None => if b.from.len() == 0 {
            None
        } else {
            match b.from[0] {
                AddressView::Mailbox(m) => Some(m.address),
                AddressView::Group(_, ms) => if ms.len() > 0 {
                    Some(ms[0].address)
                } else {
                    None
                },
            }
        },
    }
}

/// The envelope a finished build carries: the one supplied, or the one
/// derived from the recipient lists and the reverse path.
pub open spec fn spec_built_envelope(b: EmailBuilderView) -> EnvelopeView {
    match b.envelope {
        Some(e) => e,
        None => EnvelopeView { forward: spec_recipients(b), reverse: spec_reverse_src(b) },
    }
}

/// Message ids joined by single spaces.
pub open spec fn spec_join_ids(ids: Seq<Seq<char>>) -> Seq<char>
    decreases ids.len(),
{
    if ids.len() == 0 {
        Seq::empty()
    } else if ids.len() == 1 {
        ids[0]
    } else {
        spec_join_ids(ids.drop_last()) + " "@ + ids.last()
    }
}

/// An address-list header: the list folded from the column just past
/// `name: `.
pub open spec fn spec_addr_list_header(name: Seq<char>, addrs: Seq<AddressView>) -> HeaderView {
    HeaderView { name, value: spec_folded_addr_list(addrs, name.len() as int + 2) }
}

/// The `Sender` header a build appends, when a sender stands.
pub open spec fn spec_sender_segment(b: EmailBuilderView) -> Seq<HeaderView> {
    match spec_effective_sender(b) {
        Some(m) => seq![HeaderView { name: "Sender"@, value: spec_render_mailbox(m) }],
        None => Seq::<HeaderView>::empty(),
    }
}

/// The address-list header for `name`, when `addrs` is not empty.
pub open spec fn spec_list_segment(name: Seq<char>, addrs: Seq<AddressView>) -> Seq<HeaderView> {
    if addrs.len() > 0 {
        seq![spec_addr_list_header(name, addrs)]
    } else {
        Seq::<HeaderView>::empty()
    }
}

/// The `From` header a build appends: the caller's list, or one
/// synthesized from the envelope's reverse path.
pub open spec fn spec_from_segment(b: EmailBuilderView, env: EnvelopeView) -> Seq<HeaderView> {
    if b.from.len() > 0 {
        seq![spec_addr_list_header("From"@, b.from)]
    } else {
        seq![
            spec_addr_list_header(
                "From"@,
                seq![AddressView::Mailbox(MailboxView { name: None, address: env.reverse->0 })],
            ),
        ]
    }
}

/// The space-joined id header for `name`, when `ids` is not empty.
pub open spec fn spec_ids_segment(name: Seq<char>, ids: Seq<Seq<char>>) -> Seq<HeaderView> {
    if ids.len() > 0 {
        seq![HeaderView { name, value: spec_join_ids(ids) }]
    } else {
        Seq::<HeaderView>::empty()
    }
}

/// The `Date` header a build appends, when none was issued.
pub open spec fn spec_date_segment(b: EmailBuilderView, date: Seq<char>) -> Seq<HeaderView> {
    if !b.date_issued {
        seq![HeaderView { name: "Date"@, value: date }]
    } else {
        Seq::<HeaderView>::empty()
    }
}

/// The `Message-ID` header a build appends, when none was set.
pub open spec fn spec_msgid_segment(b: EmailBuilderView, id: Seq<char>) -> Seq<HeaderView> {
    if b.message_id is None {
        seq![HeaderView { name: "Message-ID"@, value: "<"@ + id + ".lettre@localhost>"@ }]
    } else {
        Seq::<HeaderView>::empty()
    }
}

/// The address headers a build appends, in order: Sender, To, From
/// (synthesized from the reverse path when no From entry stands), Cc
/// and Reply-To.
pub open spec fn spec_address_headers(b: EmailBuilderView, env: EnvelopeView) -> Seq<HeaderView> {
    spec_sender_segment(b) + spec_list_segment("To"@, b.to) + spec_from_segment(b, env)
        + spec_list_segment("Cc"@, b.cc) + spec_list_segment("Reply-To"@, b.reply_to)
}

/// The trailing headers a build appends, in order: In-Reply-To,
/// References, Date (when none was issued), MIME-Version, and
/// Message-ID (when none was set).
pub open spec fn spec_tail_headers(
    b: EmailBuilderView,
    date: Seq<char>,
    id: Seq<char>,
) -> Seq<HeaderView> {
    spec_ids_segment("In-Reply-To"@, b.in_reply_to) + spec_ids_segment("References"@, b.references)
        + spec_date_segment(b, date) + seq![HeaderView { name: "MIME-Version"@, value: "1.0"@ }]
        + spec_msgid_segment(b, id)
}

/// The headers a build appends after the caller's own, in order:
/// Sender, To, From (synthesized from the reverse path when no From
/// entry stands), Cc, Reply-To, In-Reply-To, References, Date (when
/// none was issued), MIME-Version, and Message-ID (when none was set).
pub open spec fn spec_appended_headers(
    b: EmailBuilderView,
    env: EnvelopeView,
    date: Seq<char>,
    id: Seq<char>,
) -> Seq<HeaderView> {
    spec_address_headers(b, env) + spec_tail_headers(b, date, id)
}

/// When a build succeeds: the sender can be resolved; a derived
/// envelope needs recipients that all parse, a parsing reverse path
/// and at least one recipient; and a From header can always be
/// produced.
pub open spec fn spec_build_ok(b: EmailBuilderView) -> bool {
    &&& !spec_sender_gap(b)
    &&& (b.envelope is None ==> {
        &&& spec_all_parse(spec_recipients(b))
        &&& spec_reverse_src(b) is Some
        &&& spec_parses_single(spec_reverse_src(b)->0)
        &&& spec_recipients(b).len() > 0
    })
    &&& (b.from.len() > 0 || spec_built_envelope(b).reverse is Some)
}

/// Everything a finished build promises, given the date line and the
/// fresh id it was handed: exactly when it succeeds, which error it
/// reports otherwise, and for a success the envelope, the recorded
/// message id, and the rendered message down to the last character.
pub open spec fn spec_build_outcome(
    b: EmailBuilderView,
    date: Seq<char>,
    id: Seq<char>,
    r: Result<Email, Error>,
) -> bool {
    &&& (r is Ok <==> spec_build_ok(b))
    &&& (r matches Ok(email) ==> {
        let env = spec_built_envelope(b);
        let hs = b.message.headers@ + spec_appended_headers(b, env, date, id);
        let final_hs = match spec_effective_type(b.message) {
            Some(t) => spec_replace(
                hs,
                spec_ct_header(
                    t,
                    spec_opt_params_view(b.message.message_type_params),
                    b.message.boundary@,
                ),
            ),
            None => hs,
        };
        &&& email.envelope@ == env
        &&& email.message_id@ == (match b.message_id {
            Some(m) => m,
            None => id,
        })
        &&& email.message@ == encode_utf8(
            spec_headers_block(final_hs) + "\r\n"@ + spec_message_body(b.message),
        )
    })
    &&& (r matches Err(e) ==> {
        if spec_sender_gap(b) {
            e == Error::Envelope(EnvelopeError::MissingFrom)
        } else if b.envelope is None && !spec_all_parse(spec_recipients(b)) {
            e is Address
        } else if b.envelope is None && spec_reverse_src(b) is None {
            e == Error::Envelope(EnvelopeError::MissingFrom)
        } else if b.envelope is None && !spec_parses_single(spec_reverse_src(b)->0) {
            e is Address
        } else if b.envelope is None && spec_recipients(b).len() == 0 {
            e == Error::Envelope(EnvelopeError::MissingTo)
        } else {
            e == Error::Envelope(EnvelopeError::MissingFrom)
        }
    })
}

/// The first From entry that is a plain mailbox, scanned in order.
fn first_mailbox(list: &Vec<Address>) -> (r: Option<Mailbox>)
    ensures
        match r {
            Some(m) => spec_first_from_mailbox(list.deep_view()) == Some(m@),
            None => spec_first_from_mailbox(list.deep_view()) is None,
        },
{
    let ghost dv = list.deep_view();
    let n = list.len();
    proof {
        assert(dv.skip(0) =~= dv);
    }
    let mut i: usize = 0;
    while i < n
        invariant
            n == dv.len(),
            n == list@.len(),
            dv == list.deep_view(),
            i <= n,
            spec_first_from_mailbox(dv) == spec_first_from_mailbox(dv.skip(i as int)),
        decreases n - i,
    {
        proof {
            let suf = dv.skip(i as int);
            assert(suf[0] == dv[i as int]);
            assert(dv[i as int] == list@[i as int]@);
            assert(suf.drop_first() =~= dv.skip(i + 1));
        }
        match &list[i] {
            Address::Mailbox(m) => {
                return Some(m.duplicate());
            },
            Address::Group(_, _) => {},
        }
        i = i + 1;
    }
    proof {
        assert(dv.skip(n as int) =~= Seq::<AddressView>::empty());
    }
    None
}

/// Joins message ids with single spaces.
fn join_spaces(v: &Vec<String>) -> (r: String)
    ensures
        r@ == spec_join_ids(v.deep_view()),
{
    let ghost dv = v.deep_view();
    let mut out = String::new();
    let n = v.len();
    let mut i: usize = 0;
    while i < n
        invariant
            n == dv.len(),
            n == v@.len(),
            dv == v.deep_view(),
            i <= n,
            out@ == spec_join_ids(dv.take(i as int)),
        decreases n - i,
    {
        if i > 0 {
            out.append(" ");
        }
        out.append(v[i].as_str());
        proof {
            let t1 = dv.take(i + 1);
            assert(t1.drop_last() =~= dv.take(i as int));
            assert(t1.last() == dv[i as int]);
            assert(dv[i as int] == v@[i as int]@);
            if i == 0 {
                assert(t1.len() == 1);
                assert(out@ =~= spec_join_ids(t1));
            } else {
                assert(out@ =~= spec_join_ids(t1));
            }
        }
        i = i + 1;
    }
    proof {
        assert(dv.take(n as int) =~= dv);
    }
    out
}

/// Validates each address a list contributes to the envelope, in order,
/// and appends it to `out`; stops at the first address the parser
/// refuses.
fn flatten_into(list: &Vec<Address>, out: &mut Vec<EmailAddress>) -> (r: Result<
    (),
    mailparse::MailParseError,
>)
    ensures
        r is Ok <==> spec_all_parse(spec_flatten_addresses(list.deep_view())),
        r is Ok ==> final(out).deep_view() == old(out).deep_view() + spec_flatten_addresses(
            list.deep_view(),
        ),
{
    let ghost dv = list.deep_view();
    let ghost base = old(out).deep_view();
    let ghost whole = spec_flatten_addresses(dv);
    let n = list.len();
    proof {
        assert(dv.skip(0) =~= dv);
        assert(base + whole =~= out.deep_view() + whole);
    }
    let mut i: usize = 0;
    while i < n
        invariant
            n == dv.len(),
            n == list@.len(),
            dv == list.deep_view(),
            whole == spec_flatten_addresses(dv),
            i <= n,
            base.len() <= out.deep_view().len(),
            base + whole == out.deep_view() + spec_flatten_addresses(dv.skip(i as int)),
            forall|k: int|
                base.len() <= k < out.deep_view().len() ==> spec_parses_single(
                    #[trigger] out.deep_view()[k],
                ),
        decreases n - i,
    {
        let ghost suf = dv.skip(i as int);
        proof {
            assert(suf[0] == dv[i as int]);
            assert(dv[i as int] == list@[i as int]@);
            assert(suf.drop_first() =~= dv.skip(i + 1));
        }
        match &list[i] {
            Address::Mailbox(m) => {
                proof {
                    assert(spec_flatten_addresses(suf) == seq![m.address@]
                        + spec_flatten_addresses(dv.skip(i + 1)));
                }
                match Address::from_str(m.address.as_str()) {
                    Ok(_) => {},
                    Err(e) => {
                        proof {
                            let done = out.deep_view().len() - base.len();
                            assert((base + whole).len() == base.len() + whole.len());
                            assert((out.deep_view() + spec_flatten_addresses(suf)).len()
                                == out.deep_view().len() + spec_flatten_addresses(suf).len());
                            assert(whole.len() == done + spec_flatten_addresses(suf).len());
                            assert(spec_flatten_addresses(suf).len() >= 1);
                            assert(0 <= done < whole.len());
                            assert((base + whole)[base.len() + done] == whole[done]);
                            assert((out.deep_view() + spec_flatten_addresses(suf))[out.deep_view().len() as int]
                                == spec_flatten_addresses(suf)[0]);
                            assert(whole[done] == m.address@);
                            assert(!spec_parses_single(whole[done]));
                            assert(!spec_all_parse(whole));
                            assert(spec_flatten_addresses(list.deep_view()) == whole);
                        }
                        return Err(e);
                    },
                }
                let ghost prev = out.deep_view();
                out.push(EmailAddress::new_unchecked(m.address.clone()));
                proof {
                    assert(out.deep_view() =~= prev.push(m.address@));
                    assert(out.deep_view() + spec_flatten_addresses(dv.skip(i + 1)) =~= prev
                        + spec_flatten_addresses(suf));
                }
            },
            Address::Group(_, ms) => {
                let ghost msdv = ms.deep_view();
                let ghost addrs = spec_mailbox_addrs(msdv);
                proof {
                    assert(spec_flatten_addresses(suf) == addrs + spec_flatten_addresses(
                        dv.skip(i + 1),
                    ));
                    assert(addrs.skip(0) =~= addrs);
                    assert(out.deep_view() + (addrs.skip(0) + spec_flatten_addresses(
                        dv.skip(i + 1),
                    )) =~= out.deep_view() + spec_flatten_addresses(suf));
                }
                let mn = ms.len();
                let mut j: usize = 0;
                while j < mn
                    invariant
                        mn == msdv.len(),
                        mn == ms@.len(),
                        msdv == ms.deep_view(),
                        addrs == spec_mailbox_addrs(msdv),
                        dv == list.deep_view(),
                        whole == spec_flatten_addresses(dv),
                        j <= mn,
                        base.len() <= out.deep_view().len(),
                        base + whole == out.deep_view() + (addrs.skip(j as int)
                            + spec_flatten_addresses(dv.skip(i + 1))),
                        forall|k: int|
                            base.len() <= k < out.deep_view().len() ==> spec_parses_single(
                                #[trigger] out.deep_view()[k],
                            ),
                    decreases mn - j,
                {
                    proof {
                        assert(addrs.skip(j as int)[0] == addrs[j as int]);
                        assert(addrs[j as int] == msdv[j as int].address);
                        assert(msdv[j as int] == ms@[j as int]@);
                        assert(addrs.skip(j as int).drop_first() =~= addrs.skip(j + 1));
                    }
                    match Address::from_str(ms[j].address.as_str()) {
                        Ok(_) => {},
                        Err(e) => {
                            proof {
                                let done = out.deep_view().len() - base.len();
                                let tail = addrs.skip(j as int) + spec_flatten_addresses(
                                    dv.skip(i + 1),
                                );
                                assert((base + whole).len() == base.len() + whole.len());
                                assert((out.deep_view() + tail).len() == out.deep_view().len()
                                    + tail.len());
                                assert(whole.len() == done + tail.len());
                                assert(addrs.skip(j as int).len() >= 1);
                                assert(tail.len() >= 1);
                                assert(0 <= done < whole.len());
                                assert((base + whole)[base.len() + done] == whole[done]);
                                assert((out.deep_view() + tail)[out.deep_view().len() as int]
                                    == tail[0]);
                                assert(tail[0] == addrs[j as int]);
                                assert(whole[done] == ms@[j as int]@.address);
                                assert(!spec_parses_single(whole[done]));
                                assert(!spec_all_parse(whole));
                                assert(spec_flatten_addresses(list.deep_view()) == whole);
                            }
                            return Err(e);
                        },
                    }
                    let ghost prev = out.deep_view();
                    out.push(EmailAddress::new_unchecked(ms[j].address.clone()));
                    proof {
                        assert(out.deep_view() =~= prev.push(msdv[j as int].address));
                        assert(out.deep_view() + (addrs.skip(j + 1) + spec_flatten_addresses(
                            dv.skip(i + 1),
                        )) =~= prev + (addrs.skip(j as int) + spec_flatten_addresses(
                            dv.skip(i + 1),
                        )));
                    }
                    j = j + 1;
                }
                proof {
                    assert(addrs.skip(mn as int) =~= Seq::<Seq<char>>::empty());
                    assert(addrs.skip(mn as int) + spec_flatten_addresses(dv.skip(i + 1)) =~=
                        spec_flatten_addresses(dv.skip(i + 1)));
                }
            },
        }
        i = i + 1;
    }
    proof {
        assert(dv.skip(n as int) =~= Seq::<AddressView>::empty());
        assert(spec_flatten_addresses(dv.skip(n as int)) == Seq::<Seq<char>>::empty());
        assert(out.deep_view() + Seq::<Seq<char>>::empty() =~= out.deep_view());
        assert(out.deep_view() =~= base + whole);
        assert forall|k: int| 0 <= k < whole.len() implies spec_parses_single(
            #[trigger] whole[k],
        ) by {
            assert(whole[k] == out.deep_view()[base.len() + k]);
        }
    }
    Ok(())
}


/// A part holding one body and exactly one Content-Type header.
pub open spec fn spec_simple_part(m: MimeMessage, body: Seq<char>, ct: Seq<char>) -> bool {
    &&& m.headers@ == seq![HeaderView { name: "Content-Type"@, value: ct }]
    &&& m.body@ == body
    &&& m.message_type is None
    &&& m.message_type_params is None
    &&& m.children@.len() == 0
    &&& m.boundary@.len() == BOUNDARY_LENGTH
}

/// A multipart/alternative part holding a plain-text child and an HTML
/// child, in that order.
pub open spec fn spec_alternative_part(m: MimeMessage, html: Seq<char>, text: Seq<char>) -> bool {
    &&& m.message_type == Some(MimeMultipartType::Alternative)
    &&& m.message_type_params is None
    &&& m.body@ == Seq::<char>::empty()
    &&& m.children@.len() == 2
    &&& spec_simple_part(m.children@[0], spec_normalize_newlines(text), "text/plain; charset=utf-8"@)
    &&& spec_simple_part(m.children@[1], spec_normalize_newlines(html), "text/html; charset=utf-8"@)
    &&& m.boundary@.len() == BOUNDARY_LENGTH
    &&& m.headers@ == seq![spec_ct_header(MimeMultipartType::Alternative, Seq::empty(), m.boundary@)]
}

/// An attachment part: the base64 text of the bytes as its body, under
/// a Content-Disposition naming the file, the caller's Content-Type
/// rendering, and a base64 Content-Transfer-Encoding.
pub open spec fn spec_attachment_part(
    m: MimeMessage,
    body: Seq<u8>,
    filename: Seq<char>,
    ctv: Seq<char>,
) -> bool {
    &&& m.body@ == spec_normalize_newlines(base64_of(body))
    &&& m.headers@ == seq![
        HeaderView {
            name: "Content-Disposition"@,
            value: "attachment; filename=\""@ + filename + "\""@,
        },
        HeaderView { name: "Content-Type"@, value: ctv },
        HeaderView { name: "Content-Transfer-Encoding"@, value: "base64"@ },
    ]
    &&& m.message_type is None
    &&& m.message_type_params is None
    &&& m.children@.len() == 0
    &&& m.boundary@.len() == BOUNDARY_LENGTH
}

/// Splitting a run of addresses splits what parses.
pub proof fn lemma_all_parse_concat(a: Seq<Seq<char>>, c: Seq<Seq<char>>)
    ensures
        spec_all_parse(a + c) <==> (spec_all_parse(a) && spec_all_parse(c)),
{
    assert((a + c).len() == a.len() + c.len());
    if spec_all_parse(a + c) {
        assert forall|k: int| 0 <= k < a.len() implies spec_parses_single(#[trigger] a[k]) by {
            assert(a[k] == (a + c)[k]);
        }
        assert forall|k: int| 0 <= k < c.len() implies spec_parses_single(#[trigger] c[k]) by {
            assert(c[k] == (a + c)[a.len() + k]);
        }
    }
    if spec_all_parse(a) && spec_all_parse(c) {
        assert forall|k: int| 0 <= k < (a + c).len() implies spec_parses_single(
            #[trigger] (a + c)[k],
        ) by {
            if k < a.len() {
                assert((a + c)[k] == a[k]);
            } else {
                assert((a + c)[k] == c[k - a.len()]);
            }
        }
    }
}

impl EmailBuilder {
    /// Adds a plain-text child part holding `body`.
    pub fn text(self, body: &str) -> (r: EmailBuilder)
        ensures
            r@.message.children@.len() == self@.message.children@.len() + 1,
            r@.message.children@.drop_last() == self@.message.children@,
            spec_simple_part(
                r@.message.children@.last(),
                spec_normalize_newlines(body@),
                "text/plain; charset=utf-8"@,
            ),
            r@.message.headers@ == self@.message.headers@,
            r@.message.body == self@.message.body,
            r@.message.message_type == self@.message.message_type,
            r@.message.message_type_params == self@.message.message_type_params,
            r@.message.boundary == self@.message.boundary,
            spec_same_lists(self@, r@),
    {
        let part = PartBuilder::new().body(body).header(
            Header::new("Content-Type".to_owned(), text_plain_utf8()),
        ).build();
        proof {
            assert(part.headers@ =~= seq![
                HeaderView { name: "Content-Type"@, value: "text/plain; charset=utf-8"@ },
            ]);
        }
        let r = self.child(part);
        proof {
            assert(r@.message.children@.drop_last() =~= self@.message.children@);
        }
        r
    }

    /// Adds an HTML child part holding `body`.
    pub fn html(self, body: &str) -> (r: EmailBuilder)
        ensures
            r@.message.children@.len() == self@.message.children@.len() + 1,
            r@.message.children@.drop_last() == self@.message.children@,
            spec_simple_part(
                r@.message.children@.last(),
                spec_normalize_newlines(body@),
                "text/html; charset=utf-8"@,
            ),
            r@.message.headers@ == self@.message.headers@,
            r@.message.body == self@.message.body,
            r@.message.message_type == self@.message.message_type,
            r@.message.message_type_params == self@.message.message_type_params,
            r@.message.boundary == self@.message.boundary,
            spec_same_lists(self@, r@),
    {
        let part = PartBuilder::new().body(body).header(
            Header::new("Content-Type".to_owned(), text_html_utf8()),
        ).build();
        proof {
            assert(part.headers@ =~= seq![
                HeaderView { name: "Content-Type"@, value: "text/html; charset=utf-8"@ },
            ]);
        }
        let r = self.child(part);
        proof {
            assert(r@.message.children@.drop_last() =~= self@.message.children@);
        }
        r
    }

    /// Sets the email content to a multipart/alternative child holding
    /// the plain-text and HTML renderings of the same content, and
    /// marks the whole message multipart/mixed.
    pub fn alternative(self, body_html: &str, body_text: &str) -> (r: EmailBuilder)
        ensures
            r@.message.message_type == Some(MimeMultipartType::Mixed),
            r@.message.children@.len() == self@.message.children@.len() + 1,
            r@.message.children@.drop_last() == self@.message.children@,
            spec_alternative_part(r@.message.children@.last(), body_html@, body_text@),
            r@.message.headers@ == self@.message.headers@,
            r@.message.body == self@.message.body,
            r@.message.message_type_params == self@.message.message_type_params,
            r@.message.boundary == self@.message.boundary,
            spec_same_lists(self@, r@),
    {
        let text = PartBuilder::new().body(body_text).header(
            Header::new("Content-Type".to_owned(), text_plain_utf8()),
        ).build();
        proof {
            assert(text.headers@ =~= seq![
                HeaderView { name: "Content-Type"@, value: "text/plain; charset=utf-8"@ },
            ]);
        }
        let html = PartBuilder::new().body(body_html).header(
            Header::new("Content-Type".to_owned(), text_html_utf8()),
        ).build();
        proof {
            assert(html.headers@ =~= seq![
                HeaderView { name: "Content-Type"@, value: "text/html; charset=utf-8"@ },
            ]);
        }
        let alternate = PartBuilder::new().message_type(MimeMultipartType::Alternative).child(
            text,
        ).child(html);
        let ghost pre = alternate@;
        let alternate_part = alternate.build();
        proof {
            assert(pre.children@ =~= seq![text, html]);
            assert(spec_effective_type(pre) == Some(MimeMultipartType::Alternative));
            assert(spec_opt_params_view(pre.message_type_params) =~= Seq::<
                (Seq<char>, Seq<char>),
            >::empty());
            assert(alternate_part.headers@ =~= seq![
                spec_ct_header(
                    MimeMultipartType::Alternative,
                    Seq::empty(),
                    alternate_part.boundary@,
                ),
            ]);
            assert(alternate_part.children@[0] == text);
            assert(alternate_part.children@[1] == html);
        }
        let r = self.message_type(MimeMultipartType::Mixed).child(alternate_part);
        proof {
            assert(r@.message.children@.drop_last() =~= self@.message.children@);
        }
        r
    }

    /// Adds an attachment: the bytes go in base64 into a child part
    /// under the given filename and content type, and the whole message
    /// becomes multipart/mixed.
    pub fn attachment(self, body: &[u8], filename: &str, content_type: &mime::Mime) -> (r: Result<
        EmailBuilder,
        Error,
    >)
        ensures
            r is Ok,
            r matches Ok(eb) ==> {
                &&& eb@.message.message_type == Some(MimeMultipartType::Mixed)
                &&& eb@.message.children@.len() == self@.message.children@.len() + 1
                &&& eb@.message.children@.drop_last() == self@.message.children@
                &&& exists|ctv: Seq<char>|
                    #[trigger] spec_attachment_part(
                        eb@.message.children@.last(),
                        body@,
                        filename@,
                        ctv,
                    )
                &&& eb@.message.headers@ == self@.message.headers@
                &&& eb@.message.body == self@.message.body
                &&& eb@.message.message_type_params == self@.message.message_type_params
                &&& eb@.message.boundary == self@.message.boundary
                &&& spec_same_lists(self@, eb@)
            },
    {
        let encoded_body = base64_encode(body);
        let mut disposition = "attachment; filename=\"".to_owned();
        disposition.append(filename);
        disposition.append("\"");
        let ghost dispv = disposition@;
        let ct_value = mime_to_string(content_type);
        let ghost ctv = ct_value@;
        let content = PartBuilder::new().body(encoded_body.as_str()).header(
            Header::new("Content-Disposition".to_owned(), disposition),
        ).header(Header::new("Content-Type".to_owned(), ct_value)).header(
            Header::new("Content-Transfer-Encoding".to_owned(), "base64".to_owned()),
        ).build();
        proof {
            assert(content.headers@ =~= seq![
                HeaderView { name: "Content-Disposition"@, value: dispv },
                HeaderView { name: "Content-Type"@, value: ctv },
                HeaderView { name: "Content-Transfer-Encoding"@, value: "base64"@ },
            ]);
        }
        let r = self.message_type(MimeMultipartType::Mixed).child(content);
        proof {
            assert(r@.message.children@.drop_last() =~= self@.message.children@);
            assert(spec_attachment_part(r@.message.children@.last(), body@, filename@, ctv));
        }
        Ok(r)
    }

    /// Only builds the body: the part tree normalized and rendered,
    /// with none of the assembled headers. This can be used to encrypt
    /// or sign using S/MIME.
    pub fn build_body(self) -> (r: Result<Vec<u8>, Error>)
        ensures
            r is Ok,
            r matches Ok(v) ==> v@ == encode_utf8(
                spec_headers_block(
                    match spec_effective_type(self@.message) {
                        Some(t) => spec_replace(
                            self@.message.headers@,
                            spec_ct_header(
                                t,
                                spec_opt_params_view(self@.message.message_type_params),
                                self@.message.boundary@,
                            ),
                        ),
                        None => self@.message.headers@,
                    },
                ) + "\r\n"@ + spec_message_body(self@.message),
            ),
    {
        let ghost b = self@;
        let built = self.message.build();
        proof {
            crate::message::lemma_body_ignores_headers(built, b.message);
        }
        let message_string = built.as_string();
        let bytes = vstd::slice::slice_to_vec(message_string.as_str().as_bytes());
        Ok(bytes)
    }

    /// Assembles the email with the given date line and fresh message
    /// id: infers the sender, derives the envelope when none was
    /// supplied, appends the address, date, MIME-Version and Message-ID
    /// headers, normalizes the tree and renders the message.
    #[verifier::rlimit(100)]
    pub fn build_with(self, date_value: String, fresh_id: String) -> (r: Result<Email, Error>)
        ensures
            spec_build_outcome(self@, date_value@, fresh_id@, r),
    {
        let ghost b = self@;
        let EmailBuilder {
            message,
            to,
            from,
            cc,
            bcc,
            reply_to,
            in_reply_to,
            references,
            sender,
            envelope,
            date_issued,
            message_id,
        } = self;
        // If there are multiple addresses in From, a Sender is
        // required; infer it from the first plain-mailbox entry.
        let effective_sender: Option<Mailbox> = if from.len() >= 2 && sender.is_none() {
            match first_mailbox(&from) {
                Some(m) => Some(m),
                None => {
                    return Err(Error::Envelope(EnvelopeError::MissingFrom));
                },
            }
        } else {
            match &sender {
                Some(m) => Some(m.duplicate()),
                None => None,
            }
        };
        proof {
            assert(!spec_sender_gap(b));
            assert(match effective_sender {
                Some(m) => spec_effective_sender(b) == Some(m@),
                None => spec_effective_sender(b) is None,
            });
        }
        // Calculate the envelope.
        let envelope: Envelope = match envelope {
            Some(e) => {
                proof {
                    assert(e@ == spec_built_envelope(b));
                }
                e
            },
            None => {
                match derive_envelope(&to, &cc, &bcc, &from, &effective_sender, Ghost(b)) {
                    Ok(env) => env,
                    Err(e) => {
                        return Err(e);
                    },
                }
            },
        };
        // Append the assembled headers in their fixed order.
        let message = match append_address_headers(
            message,
            &to,
            &from,
            &cc,
            &reply_to,
            &effective_sender,
            &envelope,
            Ghost(b),
        ) {
            Ok(m) => m,
            Err(e) => {
                return Err(e);
            },
        };
        let ghost datev = date_value@;
        let ghost idv = fresh_id@;
        let (message, message_id_final) = append_tail_headers(
            message,
            &in_reply_to,
            &references,
            date_issued,
            date_value,
            message_id,
            fresh_id,
            Ghost(b),
        );
        proof {
            assert(message@.headers@ =~= b.message.headers@ + spec_appended_headers(
                b,
                spec_built_envelope(b),
                datev,
                idv,
            ));
        }
        let built = message.build();
        proof {
            crate::message::lemma_body_ignores_headers(built, b.message);
            assert(spec_effective_type(message@) == spec_effective_type(b.message));
        }
        let message_string = built.as_string();
        let bytes = vstd::slice::slice_to_vec(message_string.as_str().as_bytes());
        proof {
            assert(spec_build_ok(b));
        }
        Ok(Email { message: bytes, envelope, message_id: message_id_final })
    }

    /// Builds the Email: like `build_with`, with the date line read
    /// from the clock and a fresh random message id.
    pub fn build(self) -> (r: Result<Email, Error>)
        ensures
            exists|date: Seq<char>, id: Seq<char>|
                #[trigger] spec_build_outcome(self@, date, id, r) && id.len() == 36,
    {
        let ghost b = self@;
        let date = synthesize_date();
        let id = fresh_uuid();
        let ghost datev = date@;
        let ghost idv = id@;
        let r = self.build_with(date, id);
        proof {
            assert(spec_build_outcome(b, datev, idv, r));
        }
        r
    }
}


/// Derives the transport envelope of a build: validates every To, Cc
/// and Bcc address, then the reverse path, and packs them.
fn derive_envelope(
    to: &Vec<Address>,
    cc: &Vec<Address>,
    bcc: &Vec<Address>,
    from: &Vec<Address>,
    effective_sender: &Option<Mailbox>,
    Ghost(b): Ghost<EmailBuilderView>,
) -> (r: Result<Envelope, Error>)
    requires
        to.deep_view() == b.to,
        cc.deep_view() == b.cc,
        bcc.deep_view() == b.bcc,
        from.deep_view() == b.from,
        match *effective_sender {
            Some(m) => spec_effective_sender(b) == Some(m@),
            None => spec_effective_sender(b) is None,
        },
        b.envelope is None,
    ensures
        r is Ok <==> {
            &&& spec_all_parse(spec_recipients(b))
            &&& spec_reverse_src(b) is Some
            &&& spec_parses_single(spec_reverse_src(b)->0)
            &&& spec_recipients(b).len() > 0
        },
        r matches Ok(env) ==> env@ == spec_built_envelope(b),
        r matches Err(e) ==> {
            if !spec_all_parse(spec_recipients(b)) {
                e is Address
            } else if spec_reverse_src(b) is None {
                e == Error::Envelope(EnvelopeError::MissingFrom)
            } else if !spec_parses_single(spec_reverse_src(b)->0) {
                e is Address
            } else {
                e == Error::Envelope(EnvelopeError::MissingTo)
            }
        },
{
    proof {
        lemma_all_parse_concat(spec_flatten_addresses(b.to), spec_flatten_addresses(b.cc));
        lemma_all_parse_concat(
            spec_flatten_addresses(b.to) + spec_flatten_addresses(b.cc),
            spec_flatten_addresses(b.bcc),
        );
    }
    // Every receiver in To, Cc and Bcc joins the forward path.
    let mut fwd: Vec<EmailAddress> = Vec::new();
    proof {
        assert(fwd.deep_view() =~= Seq::<Seq<char>>::empty());
    }
    match flatten_into(to, &mut fwd) {
        Ok(_) => {},
        Err(e) => {
            return Err(Error::Address(e));
        },
    }
    proof {
        assert(fwd.deep_view() =~= spec_flatten_addresses(b.to));
    }
    match flatten_into(cc, &mut fwd) {
        Ok(_) => {},
        Err(e) => {
            return Err(Error::Address(e));
        },
    }
    match flatten_into(bcc, &mut fwd) {
        Ok(_) => {},
        Err(e) => {
            return Err(Error::Address(e));
        },
    }
    proof {
        assert(fwd.deep_view() =~= spec_recipients(b));
        assert(spec_all_parse(spec_recipients(b)));
    }
    // The reverse path: the sender if any, else the first From entry's
    // address.
    let rev_string: String = match effective_sender {
        Some(m) => m.address.clone(),
        None => {
            if from.len() == 0 {
                return Err(Error::Envelope(EnvelopeError::MissingFrom));
            }
            proof {
                assert(b.from[0] == from@[0]@);
            }
            match &from[0] {
                Address::Mailbox(m2) => m2.address.clone(),
                Address::Group(_, ms) => {
                    if ms.len() == 0 {
                        return Err(Error::Envelope(EnvelopeError::MissingFrom));
                    }
                    proof {
                        assert(ms.deep_view()[0] == ms@[0]@);
                    }
                    ms[0].address.clone()
                },
            }
        },
    };
    proof {
        assert(spec_reverse_src(b) == Some(rev_string@));
    }
    match Address::from_str(rev_string.as_str()) {
        Ok(_) => {},
        Err(e) => {
            return Err(Error::Address(e));
        },
    }
    match Envelope::new(Some(EmailAddress::new_unchecked(rev_string)), fwd) {
        Ok(env) => {
            proof {
                assert(env@.forward == spec_recipients(b));
                assert(env@ == spec_built_envelope(b));
            }
            Ok(env)
        },
        Err(enverr) => {
            proof {
                assert(spec_recipients(b).len() == 0);
                assert(enverr == EnvelopeError::MissingTo);
            }
            Err(Error::Envelope(enverr))
        },
    }
}

/// Appends the address headers of a build onto the root part, in their
/// fixed order: Sender, To, From, Cc, Reply-To.
fn append_address_headers(
    message: PartBuilder,
    to: &Vec<Address>,
    from: &Vec<Address>,
    cc: &Vec<Address>,
    reply_to: &Vec<Address>,
    effective_sender: &Option<Mailbox>,
    envelope: &Envelope,
    Ghost(b): Ghost<EmailBuilderView>,
) -> (r: Result<PartBuilder, Error>)
    requires
        to.deep_view() == b.to,
        from.deep_view() == b.from,
        cc.deep_view() == b.cc,
        reply_to.deep_view() == b.reply_to,
        match *effective_sender {
            Some(m) => spec_effective_sender(b) == Some(m@),
            None => spec_effective_sender(b) is None,
        },
        envelope@ == spec_built_envelope(b),
    ensures
        r is Ok <==> (b.from.len() > 0 || spec_built_envelope(b).reverse is Some),
        r matches Ok(p) ==> {
            &&& p@.headers@ == message@.headers@ + spec_address_headers(b, spec_built_envelope(b))
            &&& p@.body == message@.body
            &&& p@.message_type == message@.message_type
            &&& p@.message_type_params == message@.message_type_params
            &&& p@.children == message@.children
            &&& p@.boundary == message@.boundary
        },
        r matches Err(e) ==> {
            &&& e == Error::Envelope(EnvelopeError::MissingFrom)
            &&& b.from.len() == 0
            &&& spec_built_envelope(b).reverse is None
        },
{
    let ghost env = spec_built_envelope(b);
    let mut message = message;
    let ghost base = message@.headers@;
    // The sender header, if any.
    match effective_sender {
        Some(sm) => {
            let line = sm.to_string();
            message = message.header(Header::new("Sender".to_owned(), line));
        },
        None => {},
    }
    let ghost acc1 = spec_sender_segment(b);
    proof {
        assert(message@.headers@ =~= base + acc1);
    }
    if to.len() > 0 {
        proof {
            reveal_strlit("To");
        }
        match Header::new_with_value("To".to_owned(), to) {
            Ok(h) => {
                proof {
                    assert(h@ == spec_addr_list_header("To"@, b.to));
                }
                message = message.header(h);
            },
            Err(_) => {
                proof {
                    assert(false);
                }
            },
        }
    }
    let ghost acc2 = acc1 + spec_list_segment("To"@, b.to);
    proof {
        assert(message@.headers@ =~= base + acc2);
    }
    if from.len() > 0 {
        proof {
            reveal_strlit("From");
        }
        match Header::new_with_value("From".to_owned(), from) {
            Ok(h) => {
                proof {
                    assert(h@ == spec_addr_list_header("From"@, b.from));
                }
                message = message.header(h);
            },
            Err(_) => {
                proof {
                    assert(false);
                }
            },
        }
    } else {
        match envelope.from() {
            Some(addr) => {
                let from_vec: Vec<Address> = vec![Address::new_mailbox(addr.to_string())];
                let ghost synth = seq![
                    AddressView::Mailbox(MailboxView { name: None, address: env.reverse->0 }),
                ];
                proof {
                    reveal_strlit("From");
                    assert(from_vec.deep_view() =~= synth);
                }
                match Header::new_with_value("From".to_owned(), &from_vec) {
                    Ok(h) => {
                        proof {
                            assert(h@ == spec_addr_list_header("From"@, synth));
                        }
                        message = message.header(h);
                    },
                    Err(_) => {
                        proof {
                            assert(false);
                        }
                    },
                }
            },
            None => {
                return Err(Error::Envelope(EnvelopeError::MissingFrom));
            },
        }
    }
    let ghost acc3 = acc2 + spec_from_segment(b, env);
    proof {
        assert(message@.headers@ =~= base + acc3);
    }
    if cc.len() > 0 {
        proof {
            reveal_strlit("Cc");
        }
        match Header::new_with_value("Cc".to_owned(), cc) {
            Ok(h) => {
                proof {
                    assert(h@ == spec_addr_list_header("Cc"@, b.cc));
                }
                message = message.header(h);
            },
            Err(_) => {
                proof {
                    assert(false);
                }
            },
        }
    }
    let ghost acc4 = acc3 + spec_list_segment("Cc"@, b.cc);
    proof {
        assert(message@.headers@ =~= base + acc4);
    }
    if reply_to.len() > 0 {
        proof {
            reveal_strlit("Reply-To");
        }
        match Header::new_with_value("Reply-To".to_owned(), reply_to) {
            Ok(h) => {
                proof {
                    assert(h@ == spec_addr_list_header("Reply-To"@, b.reply_to));
                }
                message = message.header(h);
            },
            Err(_) => {
                proof {
                    assert(false);
                }
            },
        }
    }
    proof {
        assert(message@.headers@ =~= base + (acc4 + spec_list_segment("Reply-To"@, b.reply_to)));
        assert(acc4 + spec_list_segment("Reply-To"@, b.reply_to) == spec_address_headers(b, env));
    }
    Ok(message)
}

/// Appends the trailing headers of a build onto the root part, in
/// their fixed order — In-Reply-To, References, Date, MIME-Version,
/// Message-ID — and settles the message id.
fn append_tail_headers(
    message: PartBuilder,
    in_reply_to: &Vec<String>,
    references: &Vec<String>,
    date_issued: bool,
    date_value: String,
    message_id: Option<String>,
    fresh_id: String,
    Ghost(b): Ghost<EmailBuilderView>,
) -> (r: (PartBuilder, String))
    requires
        in_reply_to.deep_view() == b.in_reply_to,
        references.deep_view() == b.references,
        date_issued == b.date_issued,
        match message_id {
            Some(s) => b.message_id == Some(s@),
            None => b.message_id is None,
        },
    ensures
        r.0@.headers@ == message@.headers@ + spec_tail_headers(b, date_value@, fresh_id@),
        r.0@.body == message@.body,
        r.0@.message_type == message@.message_type,
        r.0@.message_type_params == message@.message_type_params,
        r.0@.children == message@.children,
        r.0@.boundary == message@.boundary,
        r.1@ == (match b.message_id {
            Some(m) => m,
            None => fresh_id@,
        }),
{
    let mut message = message;
    let ghost base = message@.headers@;
    if in_reply_to.len() > 0 {
        let joined = join_spaces(in_reply_to);
        message = message.header(Header::new("In-Reply-To".to_owned(), joined));
    }
    let ghost acc1 = spec_ids_segment("In-Reply-To"@, b.in_reply_to);
    proof {
        assert(message@.headers@ =~= base + acc1);
    }
    if references.len() > 0 {
        let joined = join_spaces(references);
        message = message.header(Header::new("References".to_owned(), joined));
    }
    let ghost acc2 = acc1 + spec_ids_segment("References"@, b.references);
    proof {
        assert(message@.headers@ =~= base + acc2);
    }
    if !date_issued {
        message = message.header(Header::new("Date".to_owned(), date_value));
    }
    let ghost acc3 = acc2 + spec_date_segment(b, date_value@);
    proof {
        assert(message@.headers@ =~= base + acc3);
    }
    message = message.header(Header::new("MIME-Version".to_owned(), "1.0".to_owned()));
    let ghost acc4 = acc3 + seq![HeaderView { name: "MIME-Version"@, value: "1.0"@ }];
    proof {
        assert(message@.headers@ =~= base + acc4);
    }
    let message_id_final: String = match message_id {
        Some(id0) => id0,
        None => {
            let mut decorated = "<".to_owned();
            decorated.append(fresh_id.as_str());
            decorated.append(".lettre@localhost>");
            let ghost dv = decorated@;
            message = message.header(Header::new("Message-ID".to_owned(), decorated));
            proof {
                assert(dv =~= "<"@ + fresh_id@ + ".lettre@localhost>"@);
            }
            fresh_id
        },
    };
    proof {
        assert(message@.headers@ =~= base + (acc4 + spec_msgid_segment(b, fresh_id@)));
        assert(acc4 + spec_msgid_segment(b, fresh_id@) == spec_tail_headers(
            b,
            date_value@,
            fresh_id@,
        ));
    }
    (message, message_id_final)
}

/// The law of sender inference: a builder with two or more From entries
/// and no explicit Sender synthesizes its sender from the first
/// plain-mailbox From entry — the appended `Sender` header stands
/// first and renders that mailbox, and the derived reverse path is that
/// mailbox's address.
pub proof fn lemma_sender_inference(
    b: EmailBuilderView,
    env: EnvelopeView,
    date: Seq<char>,
    id: Seq<char>,
)
    requires
        b.from.len() >= 2,
        b.sender is None,
        spec_first_from_mailbox(b.from) matches Some(m),
    ensures
        spec_effective_sender(b) == spec_first_from_mailbox(b.from),
        spec_appended_headers(b, env, date, id)[0] == (HeaderView {
            name: "Sender"@,
            value: spec_render_mailbox(spec_first_from_mailbox(b.from)->0),
        }),
        spec_reverse_src(b) == Some(spec_first_from_mailbox(b.from)->0.address),
{
    let m = spec_first_from_mailbox(b.from)->0;
    let s1 = spec_sender_segment(b);
    assert(s1 == seq![HeaderView { name: "Sender"@, value: spec_render_mailbox(m) }]);
    assert(s1.len() == 1);
    assert(spec_appended_headers(b, env, date, id)[0] == s1[0]);
}

} // verus!
