//! The MIME message tree: multipart types, message nodes, header
//! normalization and the recursive serializer.

use vstd::prelude::*;
use vstd::string::StrSliceExecFns;
use vstd::string::StringExecFns;

use rand::Rng;

use crate::header::{Header, HeaderMap, HeaderView, spec_replace};
use crate::mimeheader::{
    MimeContentType, MimeContentTypeHeader, spec_content_type_value, spec_params_view,
};
use crate::rfc5322::{Rfc5322Builder, lemma_fold_clean_line, spec_crlf_free, spec_fold};
use crate::strings::str_eq;

verus! {

/// The length of a generated multipart boundary token.
pub const BOUNDARY_LENGTH: usize = 30;

/// Marks the type of a multipart message.
#[derive(Eq, PartialEq, Debug, Clone, Copy)]
pub enum MimeMultipartType {
    /// Entries which are independent, as defined by RFC 2046
    /// Section 5.1.3. This value is the default.
    Mixed,
    /// Entries which are interchangeable, such that the system can
    /// choose whichever is "best" for its use, as defined by RFC 2046
    /// Section 5.1.4.
    Alternative,
    /// Entries which are (typically) a collection of messages, as
    /// defined by RFC 2046 Section 5.1.5.
    Digest,
    /// Two entries, the first of which explains the decryption process
    /// for the second body part, as defined by RFC 1847 Section 2.2.
    Encrypted,
    /// Entry order does not matter, and could be displayed
    /// simultaneously, as defined by RFC 2046 Section 5.1.6.
    Parallel,
    /// Two entries, the first of which is the content, the second a
    /// digital signature of the first, as defined by RFC 1847
    /// Section 2.1.
    Signed,
}

/// The minor type under `multipart/` that each multipart type renders
/// to.
pub open spec fn spec_multipart_minor(t: MimeMultipartType) -> Seq<char> {
    match t {
        MimeMultipartType::Mixed => "mixed"@,
        MimeMultipartType::Alternative => "alternative"@,
        MimeMultipartType::Digest => "digest"@,
        MimeMultipartType::Encrypted => "encrypted"@,
        MimeMultipartType::Parallel => "parallel"@,
        MimeMultipartType::Signed => "signed"@,
    }
}

/// The multipart type a major/minor pair maps back to: unknown minors
/// under `multipart/` fall back to `Mixed`, other majors to nothing.
pub open spec fn spec_multipart_from_ct(major: Seq<char>, minor: Seq<char>) -> Option<
    MimeMultipartType,
> {
    if major == "multipart"@ {
        if minor == "alternative"@ {
            Some(MimeMultipartType::Alternative)
        } else if minor == "digest"@ {
            Some(MimeMultipartType::Digest)
        } else if minor == "encrypted"@ {
            Some(MimeMultipartType::Encrypted)
        } else if minor == "parallel"@ {
            Some(MimeMultipartType::Parallel)
        } else if minor == "signed"@ {
            Some(MimeMultipartType::Signed)
        } else {
            Some(MimeMultipartType::Mixed)
        }
    } else {
        None
    }
}

impl MimeMultipartType {
    /// Returns the appropriate `MimeMultipartType` for the given
    /// MimeContentType.
    pub fn from_content_type(ct: MimeContentType) -> (r: Option<MimeMultipartType>)
        ensures
            r == spec_multipart_from_ct(ct.0@, ct.1@),
    {
        let (major, minor) = ct;
        if !str_eq(major.as_str(), "multipart") {
            return None;
        }
        if str_eq(minor.as_str(), "alternative") {
            Some(MimeMultipartType::Alternative)
        } else if str_eq(minor.as_str(), "digest") {
            Some(MimeMultipartType::Digest)
        } else if str_eq(minor.as_str(), "encrypted") {
            Some(MimeMultipartType::Encrypted)
        } else if str_eq(minor.as_str(), "parallel") {
            Some(MimeMultipartType::Parallel)
        } else if str_eq(minor.as_str(), "signed") {
            Some(MimeMultipartType::Signed)
        } else {
            Some(MimeMultipartType::Mixed)
        }
    }

    /// Returns a MimeContentType that represents this multipart type.
    pub fn to_content_type(self) -> (r: MimeContentType)
        ensures
            r.0@ == "multipart"@,
            r.1@ == spec_multipart_minor(self),
    {
        let multipart = "multipart".to_owned();
        match self {
            MimeMultipartType::Mixed => (multipart, "mixed".to_owned()),
            MimeMultipartType::Alternative => (multipart, "alternative".to_owned()),
            MimeMultipartType::Digest => (multipart, "digest".to_owned()),
            MimeMultipartType::Encrypted => (multipart, "encrypted".to_owned()),
            MimeMultipartType::Parallel => (multipart, "parallel".to_owned()),
            MimeMultipartType::Signed => (multipart, "signed".to_owned()),
        }
    }
}

/// A character a generated boundary may carry: an ASCII letter or
/// digit.
pub open spec fn spec_is_boundary_char(c: char) -> bool {
    ('a' <= c <= 'z') || ('A' <= c <= 'Z') || ('0' <= c <= '9')
}

/// Relies on `String::push`: appends the given character to the end of
/// the string.
pub assume_specification[ String::push ](s: &mut String, ch: char)
    ensures
        final(s)@ == old(s)@.push(ch),
;

/// Relies on rand's thread-local generator sampling the `Alphanumeric`
/// distribution: every sampled byte is an ASCII letter or digit,
/// whatever the generator returns.
#[verifier::external_body]
fn sample_alphanumeric() -> (c: char)
    ensures
        spec_is_boundary_char(c),
{
    char::from(rand::thread_rng().sample(rand::distributions::Alphanumeric))
}

/// A fresh boundary token: `BOUNDARY_LENGTH` random alphanumeric
/// characters.
fn random_boundary() -> (r: String)
    ensures
        r@.len() == BOUNDARY_LENGTH,
        forall|i: int| 0 <= i < r@.len() ==> spec_is_boundary_char(#[trigger] r@[i]),
{
    let mut s = String::new();
    let mut i: usize = 0;
    while i < BOUNDARY_LENGTH
        invariant
            s@.len() == i,
            i <= BOUNDARY_LENGTH,
            forall|j: int| 0 <= j < s@.len() ==> spec_is_boundary_char(#[trigger] s@[j]),
        decreases BOUNDARY_LENGTH - i,
    {
        let c = sample_alphanumeric();
        s.push(c);
        i = i + 1;
    }
    s
}

/// Represents a MIME message.
#[derive(Eq, PartialEq, Debug)]
pub struct MimeMessage {
    /// The headers for this message.
    pub headers: HeaderMap,
    /// The content of this message.
    ///
    /// Keep in mind that this is the undecoded form, so it may be
    /// quoted-printable or base64 encoded.
    pub body: String,
    /// The MIME multipart message type of this message, or `None` if
    /// the message is not a multipart message.
    pub message_type: Option<MimeMultipartType>,
    /// Any additional parameters of the MIME multipart header, not
    /// including the boundary, in rendering order.
    pub message_type_params: Option<Vec<(String, String)>>,
    /// The sub-messages of this message.
    pub children: Vec<MimeMessage>,
    /// The boundary used for MIME multipart messages.
    ///
    /// This will always be set, even if the message only has a single
    /// part.
    pub boundary: String,
}

/// The parameters a node carries, or none.
pub open spec fn spec_opt_params_view(p: Option<Vec<(String, String)>>) -> Seq<
    (Seq<char>, Seq<char>),
> {
    match p {
        Some(v) => spec_params_view(v@),
        None => Seq::empty(),
    }
}

/// The Content-Type header a node's normalization writes: the multipart
/// major/minor pair, the extra parameters first, the boundary last.
pub open spec fn spec_ct_header(
    t: MimeMultipartType,
    params: Seq<(Seq<char>, Seq<char>)>,
    boundary: Seq<char>,
) -> HeaderView {
    HeaderView {
        name: "Content-Type"@,
        value: spec_content_type_value(
            "multipart"@,
            spec_multipart_minor(t),
            params.push(("boundary"@, boundary)),
        ),
    }
}

/// The multipart type a node has after normalization: `Mixed` is the
/// default for a node with children and no declared type.
pub open spec fn spec_effective_type(m: MimeMessage) -> Option<MimeMultipartType> {
    if m.children@.len() > 0 && m.message_type is None {
        Some(MimeMultipartType::Mixed)
    } else {
        m.message_type
    }
}

/// The header block of a rendering: each header folded, followed by
/// CRLF.
pub open spec fn spec_headers_block(hs: Seq<HeaderView>) -> Seq<char>
    decreases hs.len(),
{
    if hs.len() == 0 {
        Seq::empty()
    } else {
        spec_fold(hs[0].name + ": "@ + hs[0].value) + "\r\n"@ + spec_headers_block(hs.drop_first())
    }
}

/// The full rendering of a node: its header block, a blank line, then
/// its body part.
pub open spec fn spec_render(m: MimeMessage) -> Seq<char>
    decreases m, 1int,
{
    spec_headers_block(m.headers@) + "\r\n"@ + spec_message_body(m)
}

/// The body part of a rendering: the body text and CRLF, and for a node
/// with children each child behind a `--boundary` line and a final
/// `--boundary--` terminator.
pub open spec fn spec_message_body(m: MimeMessage) -> Seq<char>
    decreases m, 0int,
{
    m.body@ + "\r\n"@ + if m.children@.len() > 0 {
        spec_render_parts(m.children@, m.boundary@) + "--"@ + m.boundary@ + "--\r\n"@
    } else {
        Seq::empty()
    }
}

/// The renderings of the children in order, each one introduced by
/// `--boundary` and followed by CRLF.
pub open spec fn spec_render_parts(children: Seq<MimeMessage>, boundary: Seq<char>) -> Seq<char>
    decreases children, 0int,
{
    if children.len() == 0 {
        Seq::empty()
    } else {
        "--"@ + boundary + "\r\n"@ + spec_render(children[0]) + "\r\n"@ + spec_render_parts(
            children.subrange(1, children.len() as int),
            boundary,
        )
    }
}


/// A header whose name and value carry no line breaks of their own.
pub open spec fn spec_header_text_clean(h: HeaderView) -> bool {
    spec_crlf_free(h.name) && spec_crlf_free(h.value)
}

/// A body whose line breaks are proper CRLF pairs, with no empty lines:
/// it is non-empty, does not begin or end with a break, and no two
/// breaks are adjacent.
pub open spec fn spec_body_clean(t: Seq<char>) -> bool {
    &&& t.len() > 0
    &&& t[0] != '\r' && t[0] != '\n'
    &&& forall|i: int|
        0 <= i < t.len() ==> {
            &&& ((#[trigger] t[i]) == '\r' ==> i + 1 < t.len() && t[i + 1] == '\n')
            &&& (t[i] == '\n' ==> i >= 1 && t[i - 1] == '\r')
        }
    &&& !(t.len() >= 2 && t[t.len() - 2] == '\r' && t[t.len() - 1] == '\n')
    &&& forall|i: int| 0 <= i && i + 2 < t.len() ==> !((#[trigger] t[i]) == '\r' && t[i + 2] == '\r')
}

/// A blank line stands at `p`: a CRLF that begins the text or follows
/// another CRLF at once, so the line it ends is empty.
pub open spec fn spec_blank_line_at(s: Seq<char>, p: int) -> bool {
    &&& 0 <= p && p + 1 < s.len()
    &&& s[p] == '\r' && s[p + 1] == '\n'
    &&& (p == 0 || (p >= 2 && s[p - 2] == '\r' && s[p - 1] == '\n'))
}

/// The discipline a rendered header block keeps: every carriage return
/// is part of a CRLF, no CRLF ends an empty line, the block ends with
/// CRLF when it is not empty, and it never begins with a break.
pub open spec fn spec_block_clean(t: Seq<char>) -> bool {
    &&& forall|j: int|
        0 <= j < t.len() ==> ((#[trigger] t[j]) == '\r' ==> j + 1 < t.len() && t[j + 1] == '\n')
    &&& forall|j: int| 0 <= j < t.len() ==> ((#[trigger] t[j]) == '\n' ==> j >= 1 && t[j - 1] == '\r')
    &&& forall|j: int|
        0 <= j < t.len() ==> !((#[trigger] t[j]) == '\r' && (j == 0 || (j >= 2 && t[j - 2] == '\r'
            && t[j - 1] == '\n')))
    &&& (t.len() > 0 ==> t.len() >= 2 && t[t.len() - 1] == '\n' && t[t.len() - 2] == '\r')
    &&& (t.len() > 0 ==> t[0] != '\r' && t[0] != '\n')
}

/// A block of clean headers renders to clean text.
pub proof fn lemma_headers_block_clean(hs: Seq<HeaderView>)
    requires
        forall|k: int| 0 <= k < hs.len() ==> spec_header_text_clean(#[trigger] hs[k]),
    ensures
        spec_block_clean(spec_headers_block(hs)),
        spec_headers_block(hs).len() == 0 <==> hs.len() == 0,
    decreases hs.len(),
{
    reveal_strlit(": ");
    reveal_strlit("\r\n");
    if hs.len() == 0 {
    } else {
        let line = hs[0].name + ": "@ + hs[0].value;
        assert((": "@).len() == 2);
        assert((": "@)[0] == ':');
        assert((": "@)[1] == ' ');
        assert(spec_crlf_free(line)) by {
            assert forall|i: int| 0 <= i < line.len() implies (#[trigger] line[i]) != '\r'
                && line[i] != '\n' by {
                let nl = hs[0].name.len() as int;
                if i < nl {
                    assert(line[i] == hs[0].name[i]);
                } else if i < nl + 2 {
                    assert(line[i] == (": "@)[i - nl]);
                } else {
                    assert(line[i] == hs[0].value[i - nl - 2]);
                }
            }
        }
        assert(line.len() > 0);
        lemma_fold_clean_line(line);
        lemma_headers_block_clean(hs.drop_first());
        let l = spec_fold(line);
        let rest = spec_headers_block(hs.drop_first());
        let t = spec_headers_block(hs);
        assert(t == l + "\r\n"@ + rest);
        let ll = l.len();
        assert(("\r\n"@).len() == 2);
        assert(("\r\n"@)[0] == '\r');
        assert(("\r\n"@)[1] == '\n');
        assert(t.len() == ll + 2 + rest.len());
        // the last character of a folded line is never a line feed
        assert(l[ll - 1] != '\n') by {
            if l[ll - 1] == '\n' {
                assert(ll >= 2 && l[ll - 2] == '\r');
                assert(ll - 2 + 2 < ll);
            }
        }
        assert forall|j: int| 0 <= j < t.len() implies ((#[trigger] t[j]) == '\r' ==> j + 1
            < t.len() && t[j + 1] == '\n') by {
            if j < ll {
                assert(t[j] == l[j]);
                if l[j] == '\r' {
                    assert(t[j + 1] == l[j + 1]);
                }
            } else if j == ll {
                assert(t[j + 1] == '\n');
            } else if j == ll + 1 {
                assert(t[j] == '\n');
            } else {
                let j2 = j - ll - 2;
                assert(t[j] == rest[j2]);
                if rest[j2] == '\r' {
                    assert(j2 + 1 < rest.len());
                    assert(t[j + 1] == rest[j2 + 1]);
                }
            }
        }
        assert forall|j: int| 0 <= j < t.len() implies ((#[trigger] t[j]) == '\n' ==> j >= 1 && t[j
            - 1] == '\r') by {
            if j < ll {
                assert(t[j] == l[j]);
                if l[j] == '\n' {
                    assert(t[j - 1] == l[j - 1]);
                }
            } else if j == ll {
                assert(t[j] == '\r');
            } else if j == ll + 1 {
                assert(t[j - 1] == '\r');
            } else {
                let j2 = j - ll - 2;
                assert(t[j] == rest[j2]);
                if rest[j2] == '\n' {
                    assert(j2 >= 1);
                    assert(t[j - 1] == rest[j2 - 1]);
                }
            }
        }
        assert forall|j: int| 0 <= j < t.len() implies !((#[trigger] t[j]) == '\r' && (j == 0 || (j
            >= 2 && t[j - 2] == '\r' && t[j - 1] == '\n'))) by {
            if j < ll {
                assert(t[j] == l[j]);
                if l[j] == '\r' {
                    if j == 0 {
                        assert(l[0] == line[0]);
                    } else if j >= 2 {
                        assert(t[j - 2] == l[j - 2]);
                        assert(t[j - 1] == l[j - 1]);
                        if l[j - 2] == '\r' && l[j - 1] == '\n' {
                            assert(l[j - 2 + 2] == '\t');
                        }
                    }
                }
            } else if j == ll {
                if j >= 2 {
                    assert(t[j - 1] == l[ll - 1]);
                    assert(t[j - 1] != '\n');
                }
            } else if j == ll + 1 {
                assert(t[j] == '\n');
            } else {
                let j2 = j - ll - 2;
                assert(t[j] == rest[j2]);
                if rest[j2] == '\r' {
                    if j2 == 0 {
                        assert(rest[0] != '\r');
                        assert(false);
                    } else if j2 == 1 {
                        assert(t[j - 2] == '\n');
                    } else {
                        assert(t[j - 2] == rest[j2 - 2]);
                        assert(t[j - 1] == rest[j2 - 1]);
                    }
                }
            }
        }
        if rest.len() == 0 {
            assert(t[t.len() - 1] == '\n');
            assert(t[t.len() - 2] == '\r');
        } else {
            assert(t[t.len() - 1] == rest[rest.len() - 1]);
            assert(t[t.len() - 2] == rest[rest.len() - 2]);
        }
        assert(t[0] == l[0]);
        assert(l[0] == line[0]);
        assert(line[0] != '\r' && line[0] != '\n');
    }
}

/// The law of the blank separator: a non-multipart node with clean
/// headers and a clean body renders with exactly one blank CRLF line —
/// the one that separates the header block from the body — and none
/// anywhere else.
pub proof fn lemma_single_blank_line(m: MimeMessage)
    requires
        m.children@.len() == 0,
        forall|k: int| 0 <= k < m.headers@.len() ==> spec_header_text_clean(#[trigger] m.headers@[k]),
        spec_body_clean(m.body@),
    ensures
        forall|p: int|
            #[trigger] spec_blank_line_at(spec_render(m), p) <==> p == spec_headers_block(
                m.headers@,
            ).len(),
{
    reveal_strlit("\r\n");
    let hb = spec_headers_block(m.headers@);
    let body = m.body@;
    let hl = hb.len() as int;
    let bl = body.len() as int;
    lemma_headers_block_clean(m.headers@);
    let r = spec_render(m);
    assert(spec_message_body(m) =~= body + "\r\n"@);
    assert(r == hb + "\r\n"@ + (body + "\r\n"@));
    assert(("\r\n"@).len() == 2);
    assert(("\r\n"@)[0] == '\r');
    assert(("\r\n"@)[1] == '\n');
    assert(r.len() == hl + 2 + bl + 2);
    assert(r[hl] == '\r');
    assert(r[hl + 1] == '\n');
    assert(spec_blank_line_at(r, hl)) by {
        if hl > 0 {
            assert(r[hl - 1] == hb[hl - 1]);
            assert(r[hl - 2] == hb[hl - 2]);
            assert(hb[hl - 1] == '\n' && hb[hl - 2] == '\r');
        }
    }
    assert forall|p: int| #[trigger] spec_blank_line_at(r, p) implies p == hl by {
        if p < hl {
            assert(r[p] == hb[p]);
            if p + 1 < hl {
                assert(r[p + 1] == hb[p + 1]);
            }
            assert(hb[p] == '\r');
            assert(p + 1 < hl);
            if p == 0 {
                assert(hb[0] != '\r');
                assert(false);
            } else {
                assert(p >= 2);
                assert(p - 2 < hl && p - 1 < hl);
                assert(r[p - 2] == hb[p - 2]);
                assert(r[p - 1] == hb[p - 1]);
                assert(hb[p - 2] == '\r' && hb[p - 1] == '\n');
                assert(false);
            }
        } else if p == hl {
        } else if p == hl + 1 {
            assert(r[p] == '\n');
            assert(false);
        } else if p < hl + 2 + bl {
            let q = p - hl - 2;
            assert(r[p] == body[q]);
            assert(body[q] == '\r');
            if q == 0 {
                assert(body[0] != '\r');
                assert(false);
            } else if q == 1 {
                assert(p - 2 == hl + 1);
                assert(r[p - 2] == '\n');
                assert(false);
            } else {
                assert(r[p - 2] == body[q - 2]);
                assert(r[p - 1] == body[q - 1]);
                assert(body[q - 2] == '\r');
                assert(!(body[q - 2] == '\r' && body[q - 2 + 2] == '\r'));
                assert(false);
            }
        } else if p == hl + 2 + bl {
            if bl >= 2 {
                assert(r[p - 2] == body[bl - 2]);
                assert(r[p - 1] == body[bl - 1]);
                assert(body[bl - 2] == '\r' && body[bl - 1] == '\n');
                assert(false);
            } else {
                assert(bl == 1);
                assert(p - 2 == hl + 1);
                assert(r[p - 2] == '\n');
                assert(false);
            }
        } else {
            assert(p + 1 >= r.len());
            assert(false);
        }
    }
}

/// The body part of a rendering reads only the body text, the
/// children and the boundary: nodes that agree there render the same
/// body part, whatever their headers.
pub proof fn lemma_body_ignores_headers(a: MimeMessage, b: MimeMessage)
    requires
        a.body == b.body,
        a.children == b.children,
        a.boundary == b.boundary,
    ensures
        spec_message_body(a) == spec_message_body(b),
{
    assert(a.children@ == b.children@);
}

impl MimeMessage {
    /// A message with no headers, no body, no children and a fresh
    /// random boundary.
    pub fn new_blank_message() -> (r: MimeMessage)
        ensures
            r.headers@ == Seq::<HeaderView>::empty(),
            r.body@ == Seq::<char>::empty(),
            r.message_type is None,
            r.message_type_params is None,
            r.children@ == Seq::<MimeMessage>::empty(),
            r.boundary@.len() == BOUNDARY_LENGTH,
            forall|i: int|
                0 <= i < r.boundary@.len() ==> spec_is_boundary_char(#[trigger] r.boundary@[i]),
    {
        let r = MimeMessage {
            headers: HeaderMap::new(),
            body: String::new(),
            message_type: None,
            message_type_params: None,
            children: Vec::new(),
            boundary: random_boundary(),
        };
        proof {
            assert(r.children@ =~= Seq::<MimeMessage>::empty());
        }
        r
    }

    /// A plain message holding only `body`.
    pub fn new(body: String) -> (r: MimeMessage)
        ensures
            r.headers@ == Seq::<HeaderView>::empty(),
            r.body@ == body@,
            r.message_type is None,
            r.message_type_params is None,
            r.children@ == Seq::<MimeMessage>::empty(),
            r.boundary@.len() == BOUNDARY_LENGTH,
    {
        let mut message = MimeMessage::new_blank_message();
        message.body = body;
        message.update_headers();
        message
    }

    /// A multipart message of the given type holding `body` and
    /// `children`, with a fresh random boundary.
    pub fn new_with_children(
        body: String,
        message_type: MimeMultipartType,
        children: Vec<MimeMessage>,
    ) -> (r: MimeMessage)
        ensures
            r.headers@ == seq![
                spec_ct_header(message_type, Seq::empty(), r.boundary@),
            ],
            r.body@ == body@,
            r.message_type == Some(message_type),
            r.message_type_params is None,
            r.children == children,
            r.boundary@.len() == BOUNDARY_LENGTH,
    {
        let mut message = MimeMessage::new_blank_message();
        message.body = body;
        message.message_type = Some(message_type);
        message.children = children;
        message.update_headers();
        proof {
            assert(message.headers@ == spec_replace(
                Seq::<HeaderView>::empty(),
                spec_ct_header(message_type, Seq::empty(), message.boundary@),
            ));
        }
        message
    }

    /// A multipart message of the given type with a caller-chosen
    /// boundary.
    pub fn new_with_boundary(
        body: String,
        message_type: MimeMultipartType,
        children: Vec<MimeMessage>,
        boundary: String,
    ) -> (r: MimeMessage)
        ensures
            r.headers@ == seq![
                spec_ct_header(message_type, Seq::empty(), boundary@),
            ],
            r.body@ == body@,
            r.message_type == Some(message_type),
            r.message_type_params is None,
            r.children == children,
            r.boundary == boundary,
    {
        let mut message = MimeMessage::new_blank_message();
        message.body = body;
        message.message_type = Some(message_type);
        message.children = children;
        message.boundary = boundary;
        message.update_headers();
        message
    }

    /// A multipart message of the given type with a caller-chosen
    /// boundary and extra Content-Type parameters.
    pub fn new_with_boundary_and_params(
        body: String,
        message_type: MimeMultipartType,
        children: Vec<MimeMessage>,
        boundary: String,
        message_type_params: Option<Vec<(String, String)>>,
    ) -> (r: MimeMessage)
        ensures
            r.headers@ == seq![
                spec_ct_header(
                    message_type,
                    spec_opt_params_view(message_type_params),
                    boundary@,
                ),
            ],
            r.body@ == body@,
            r.message_type == Some(message_type),
            r.message_type_params == message_type_params,
            r.children == children,
            r.boundary == boundary,
    {
        let mut message = MimeMessage::new_blank_message();
        message.body = body;
        message.message_type = Some(message_type);
        message.children = children;
        message.boundary = boundary;
        message.message_type_params = message_type_params;
        message.update_headers();
        message
    }

    /// Update the headers on this message based on the internal state.
    ///
    /// When certain properties of the message are modified, the headers
    /// used to represent them are not automatically updated. Call this
    /// if these are changed.
    pub fn update_headers(&mut self)
        ensures
            final(self).body == old(self).body,
            final(self).children == old(self).children,
            final(self).boundary == old(self).boundary,
            final(self).message_type_params == old(self).message_type_params,
            final(self).message_type == spec_effective_type(*old(self)),
            match spec_effective_type(*old(self)) {
                Some(t) => final(self).headers@ == spec_replace(
                    old(self).headers@,
                    spec_ct_header(
                        t,
                        spec_opt_params_view(old(self).message_type_params),
                        old(self).boundary@,
                    ),
                ),
                None => final(self).headers@ == old(self).headers@,
            },
    {
        if self.children.len() > 0 && self.message_type.is_none() {
            // This should be a multipart message, so make it so!
            self.message_type = Some(MimeMultipartType::Mixed);
        }
        if let Some(message_type) = self.message_type {
            // We are some form of multi-part message, so update our
            // Content-Type header.
            let ghost opv = spec_opt_params_view(self.message_type_params);
            let mut params: Vec<(String, String)> = Vec::new();
            match &self.message_type_params {
                Some(ps) => {
                    let n = ps.len();
                    let mut i: usize = 0;
                    while i < n
                        invariant
                            n == ps@.len(),
                            opv == spec_params_view(ps@),
                            i <= n,
                            params@.len() == i,
                            spec_params_view(params@) =~= opv.take(i as int),
                        decreases n - i,
                    {
                        let ghost prev_params = params@;
                        params.push((ps[i].0.clone(), ps[i].1.clone()));
                        proof {
                            let pv_new = spec_params_view(params@);
                            assert(params@.len() == i + 1);
                            assert forall|k: int| 0 <= k < i + 1 implies pv_new[k] == opv.take(
                                i + 1,
                            )[k] by {
                                if k < i {
                                    assert(params@[k] == prev_params[k]);
                                    assert(pv_new[k] == spec_params_view(prev_params)[k]);
                                    assert(spec_params_view(prev_params)[k] == opv.take(
                                        i as int,
                                    )[k]);
                                } else {
                                    assert(params@[k].0@ == ps@[i as int].0@);
                                    assert(params@[k].1@ == ps@[i as int].1@);
                                    assert(opv[k] == (ps@[k].0@, ps@[k].1@));
                                }
                            }
                            assert(spec_params_view(params@) =~= opv.take(i + 1));
                        }
                        i = i + 1;
                    }
                    proof {
                        assert(opv.take(n as int) =~= opv);
                    }
                },
                None => {
                    proof {
                        assert(spec_params_view(params@) =~= opv);
                    }
                },
            }
            let ghost before_boundary = spec_params_view(params@);
            params.push(("boundary".to_owned(), self.boundary.clone()));
            proof {
                assert(spec_params_view(params@) =~= before_boundary.push(
                    ("boundary"@, self.boundary@),
                ));
            }
            let ct_header = MimeContentTypeHeader {
                content_type: message_type.to_content_type(),
                params,
            };
            let value = ct_header.to_header();
            self.headers.replace(Header::new("Content-Type".to_owned(), value));
        }
    }

    /// The whole message as text: the folded headers, a blank line, and
    /// the body part.
    pub fn as_string(&self) -> (r: String)
        ensures
            r@ == spec_render(*self),
        decreases *self, 1int,
    {
        let mut builder = Rfc5322Builder::new();
        let ghost hs = self.headers@;
        let n = self.headers.len();
        proof {
            assert(hs.subrange(0, n as int) =~= hs);
            assert(builder@ + spec_headers_block(hs) =~= spec_headers_block(hs));
        }
        let mut i: usize = 0;
        while i < n
            invariant
                n == hs.len(),
                hs == self.headers@,
                i <= n,
                builder@ + spec_headers_block(hs.subrange(i as int, n as int))
                    == spec_headers_block(hs),
            decreases n - i,
        {
            let ghost prev = builder@;
            let h = self.headers.header_at(i);
            let line = h.to_string();
            builder.emit_folded(line.as_str());
            builder.emit_raw("\r\n");
            proof {
                let suf = hs.subrange(i as int, n as int);
                assert(suf[0] == hs[i as int]);
                assert(suf.drop_first() =~= hs.subrange(i + 1, n as int));
                assert(builder@ + spec_headers_block(hs.subrange(i + 1, n as int)) =~= prev
                    + spec_headers_block(suf));
            }
            i = i + 1;
        }
        proof {
            assert(hs.subrange(n as int, n as int) =~= Seq::<HeaderView>::empty());
            assert(builder@ + Seq::<char>::empty() =~= builder@);
            assert(builder@ == spec_headers_block(hs));
        }
        builder.emit_raw("\r\n");
        let r = self.as_string_without_headers_internal(builder);
        proof {
            assert(r@ =~= spec_render(*self));
        }
        r
    }

    /// The body part alone, without any headers.
    pub fn as_string_without_headers(&self) -> (r: String)
        ensures
            r@ == spec_message_body(*self),
        decreases *self, 1int,
    {
        let builder = Rfc5322Builder::new();
        let r = self.as_string_without_headers_internal(builder);
        proof {
            assert(r@ =~= spec_message_body(*self));
        }
        r
    }

    /// Emits the body text, then each child between boundary lines,
    /// onto the given builder.
    fn as_string_without_headers_internal(&self, builder: Rfc5322Builder) -> (r: String)
        ensures
            r@ == builder@ + spec_message_body(*self),
        decreases *self, 0int,
    {
        let mut builder = builder;
        let ghost start = builder@;
        builder.emit_raw(self.body.as_str());
        builder.emit_raw("\r\n");
        let ghost after_body = builder@;
        if self.children.len() > 0 {
            let ghost cs = self.children@;
            let ghost bd = self.boundary@;
            let n = self.children.len();
            proof {
                assert(cs.subrange(0, n as int) =~= cs);
            }
            let mut j: usize = 0;
            while j < n
                invariant
                    n == cs.len(),
                    cs == self.children@,
                    bd == self.boundary@,
                    j <= n,
                    builder@ + spec_render_parts(cs.subrange(j as int, n as int), bd) == after_body
                        + spec_render_parts(cs, bd),
                decreases n - j,
            {
                let ghost prev = builder@;
                builder.emit_raw("--");
                builder.emit_raw(self.boundary.as_str());
                builder.emit_raw("\r\n");
                let part_str = self.children[j].as_string();
                builder.emit_raw(part_str.as_str());
                builder.emit_raw("\r\n");
                proof {
                    let suf = cs.subrange(j as int, n as int);
                    assert(suf[0] == cs[j as int]);
                    assert(suf.subrange(1, suf.len() as int) =~= cs.subrange(j + 1, n as int));
                    assert(builder@ + spec_render_parts(cs.subrange(j + 1, n as int), bd) =~= prev
                        + spec_render_parts(suf, bd));
                }
                j = j + 1;
            }
            proof {
                assert(cs.subrange(n as int, n as int) =~= Seq::<MimeMessage>::empty());
                assert(builder@ + Seq::<char>::empty() =~= builder@);
            }
            let ghost before_term = builder@;
            builder.emit_raw("--");
            builder.emit_raw(self.boundary.as_str());
            builder.emit_raw("--\r\n");
            proof {
                assert(builder@ =~= start + spec_message_body(*self));
            }
        } else {
            proof {
                assert(builder@ =~= start + spec_message_body(*self));
            }
        }
        let r = builder.result().clone();
        r
    }
}

} // verus!
