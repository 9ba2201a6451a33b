//! RFC 5322 addresses: mailboxes, groups, their rendering, and the
//! folding of whole address lists into header values.

use vstd::prelude::*;
use vstd::string::StrSliceExecFns;
use vstd::string::StringExecFns;

use crate::header::Header;
use crate::rfc5322::MIME_LINE_LENGTH;

verus! {

/// The mathematical content of a `Mailbox`.
pub struct MailboxView {
    pub name: Option<Seq<char>>,
    pub address: Seq<char>,
}

/// The mathematical content of an `Address`.
pub enum AddressView {
    Mailbox(MailboxView),
    Group(Seq<char>, Seq<MailboxView>),
}

/// Represents an RFC 5322 mailbox.
#[derive(PartialEq, Eq, Debug, Clone)]
pub struct Mailbox {
    /// The given name for this address.
    pub name: Option<String>,
    /// The mailbox address.
    pub address: String,
}

impl View for Mailbox {
    type V = MailboxView;

    open spec fn view(&self) -> MailboxView {
        MailboxView {
            name: match self.name {
                Some(n) => Some(n@),
                None => None,
            },
            address: self.address@,
        }
    }
}

impl DeepView for Mailbox {
    type V = MailboxView;

    open spec fn deep_view(&self) -> MailboxView {
        self.view()
    }
}

impl Mailbox {
    /// Create a new Mailbox without a display name.
    pub fn new(address: String) -> (r: Mailbox)
        ensures
            r@ == (MailboxView { name: None, address: address@ }),
    {
        Mailbox { name: None, address }
    }

    /// Create a new Mailbox with a display name.
    pub fn new_with_name(name: String, address: String) -> (r: Mailbox)
        ensures
            r@ == (MailboxView { name: Some(name@), address: address@ }),
    {
        Mailbox { name: Some(name), address }
    }

    /// An exact copy of this mailbox.
    pub fn duplicate(&self) -> (r: Mailbox)
        ensures
            r == *self,
    {
        Mailbox {
            name: match &self.name {
                Some(n) => Some(n.clone()),
                None => None,
            },
            address: self.address.clone(),
        }
    }

    /// The mailbox as text: `name <address>` for a plain ASCII name,
    /// `encoded-name <address>` for any other name, `<address>` for none.
    pub fn to_string(&self) -> (r: String)
        ensures
            r@ == spec_render_mailbox(self@),
    {
        match &self.name {
            Some(name) => {
                let mut s = if plain_name(name.as_str()) {
                    name.clone()
                } else {
                    encode_rfc2047(name.as_str())
                };
                s.append(" <");
                s.append(self.address.as_str());
                s.append(">");
                s
            },
            None => {
                let mut s = String::new();
                s.append("<");
                s.append(self.address.as_str());
                s.append(">");
                s
            },
        }
    }

    /// Attempts to parse the given text as exactly one mailbox.
    pub fn from_str(s: &str) -> (r: Result<Mailbox, mailparse::MailParseError>)
        ensures
            r is Ok <==> (addrparse_view(s@) matches Some(l) && l.len() == 1 && l[0] is Mailbox),
            r matches Ok(m) ==> AddressView::Mailbox(m@) == addrparse_view(s@)->0[0],
    {
        match addrparse_exec(s) {
            Ok(mut addrs) => {
                if addrs.len() != 1 {
                    return Err(generic_parse_error("expected only one address"));
                }
                let first = addrs.remove(0);
                proof {
                    assert(old_first_is(first, s@));
                }
                match first {
                    Address::Mailbox(m) => Ok(m),
                    Address::Group(_, _) => Err(
                        generic_parse_error("expected only one address"),
                    ),
                }
            },
            Err(e) => Err(e),
        }
    }
}

/// Helper fact used while destructuring the single parsed address.
spec fn old_first_is(a: Address, s: Seq<char>) -> bool {
    addrparse_view(s) matches Some(l) && l.len() == 1 && a.deep_view() == l[0]
}

/// Represents an RFC 5322 Address.
#[derive(PartialEq, Eq, Debug, Clone)]
pub enum Address {
    /// A "regular" email address.
    Mailbox(Mailbox),
    /// A named group of mailboxes.
    Group(String, Vec<Mailbox>),
}

impl View for Address {
    type V = AddressView;

    open spec fn view(&self) -> AddressView {
        match self {
            Address::Mailbox(m) => AddressView::Mailbox(m@),
            Address::Group(name, mboxes) => AddressView::Group(name@, mboxes.deep_view()),
        }
    }
}

impl DeepView for Address {
    type V = AddressView;

    open spec fn deep_view(&self) -> AddressView {
        self.view()
    }
}

/// A character a display name may carry verbatim: ASCII letters,
/// digits and spaces.
pub open spec fn spec_is_plain_name_char(c: char) -> bool {
    ('a' <= c <= 'z') || ('A' <= c <= 'Z') || ('0' <= c <= '9') || c == ' '
}

/// A display name rendered verbatim: all its characters are plain.
pub open spec fn spec_plain_name(n: Seq<char>) -> bool {
    forall|i: int| 0 <= i < n.len() ==> spec_is_plain_name_char(#[trigger] n[i])
}

/// What the RFC 2047 encoder returns for a display name, under the
/// shortest-encoding policy with its default charset.
pub uninterp spec fn encoded_word_of(s: Seq<char>) -> Seq<char>;

/// A display name as it appears in a rendering: itself when plain,
/// its encoded word otherwise.
pub open spec fn spec_render_name(n: Seq<char>) -> Seq<char> {
    if spec_plain_name(n) {
        n
    } else {
        encoded_word_of(n)
    }
}

/// The rendering of one mailbox.
pub open spec fn spec_render_mailbox(m: MailboxView) -> Seq<char> {
    match m.name {
        Some(n) => spec_render_name(n) + " <"@ + m.address + ">"@,
        None => "<"@ + m.address + ">"@,
    }
}

/// The renderings of a group's members, joined by `, `.
pub open spec fn spec_join_mailboxes(ms: Seq<MailboxView>) -> Seq<char>
    decreases ms.len(),
{
    if ms.len() == 0 {
        Seq::empty()
    } else if ms.len() == 1 {
        spec_render_mailbox(ms[0])
    } else {
        spec_join_mailboxes(ms.drop_last()) + ", "@ + spec_render_mailbox(ms.last())
    }
}

/// The rendering of one address: a mailbox as itself, a group as
/// `name: member, member;`.
pub open spec fn spec_render_address(a: AddressView) -> Seq<char> {
    match a {
        AddressView::Mailbox(m) => spec_render_mailbox(m),
        AddressView::Group(name, ms) => name + ": "@ + spec_join_mailboxes(ms) + ";"@,
    }
}

/// Whether `c` may stand verbatim in a display name.
pub fn is_plain_name_char(c: char) -> (r: bool)
    ensures
        r == spec_is_plain_name_char(c),
{
    ('a' <= c && c <= 'z') || ('A' <= c && c <= 'Z') || ('0' <= c && c <= '9') || c == ' '
}

/// Whether every character of `n` may stand verbatim in a display name.
pub fn plain_name(n: &str) -> (r: bool)
    ensures
        r == spec_plain_name(n@),
{
    let len = n.unicode_len();
    let mut i: usize = 0;
    while i < len
        invariant
            len == n@.len(),
            i <= len,
            forall|j: int| 0 <= j < i ==> spec_is_plain_name_char(#[trigger] n@[j]),
        decreases len - i,
    {
        if !is_plain_name_char(n.get_char(i)) {
            return false;
        }
        i = i + 1;
    }
    true
}

/// Relies on encoded_words::encode under the shortest-encoding policy
/// with its default charset and no language tag: the result is a
/// function of the text alone.
#[verifier::external_body]
fn encode_rfc2047(name: &str) -> (r: String)
    ensures
        r@ == encoded_word_of(name@),
{
    encoded_words::encode(name, None, encoded_words::EncodingFlag::Shortest, None)
}

/// Declares mailparse's error type so that parsing results may carry
/// it; its values stay opaque.
#[verifier::external_type_specification]
#[verifier::external_body]
pub struct ExMailParseError(mailparse::MailParseError);

/// What mailparse::addrparse reads out of `s`: `None` when it fails,
/// otherwise the parsed addresses in order.
pub uninterp spec fn addrparse_view(s: Seq<char>) -> Option<Seq<AddressView>>;

/// Relies on mailparse::addrparse: it parses an address list, and its
/// outcome is a function of the text alone.
#[verifier::external_body]
fn addrparse_exec(s: &str) -> (r: Result<Vec<Address>, mailparse::MailParseError>)
    ensures
        match r {
            Ok(v) => addrparse_view(s@) == Some(v.deep_view()),
            Err(_) => addrparse_view(s@) is None,
        },
{
    match mailparse::addrparse(s) {
        Ok(list) => Ok(list.into_inner().into_iter().map(|a| match a {
            mailparse::MailAddr::Single(i) =>
                Address::Mailbox(Mailbox { name: i.display_name, address: i.addr }),
            mailparse::MailAddr::Group(g) => Address::Group(
                g.group_name,
                g.addrs.into_iter().map(|i| Mailbox { name: i.display_name, address: i.addr })
                    .collect(),
            ),
        }).collect()),
        Err(e) => Err(e),
    }
}

/// Relies on mailparse::MailParseError::Generic to carry a static
/// message.
#[verifier::external_body]
fn generic_parse_error(msg: &'static str) -> (r: mailparse::MailParseError) {
    mailparse::MailParseError::Generic(msg)
}

impl Address {
    /// Attempts to parse the given text as exactly one address.
    pub fn from_str(val: &str) -> (r: Result<Address, mailparse::MailParseError>)
        ensures
            r is Ok <==> (addrparse_view(val@) matches Some(l) && l.len() == 1),
            r matches Ok(a) ==> a.deep_view() == addrparse_view(val@)->0[0],
    {
        match addrparse_exec(val) {
            Ok(mut addrs) => {
                if addrs.len() != 1 {
                    return Err(generic_parse_error("expected a single address"));
                }
                let first = addrs.remove(0);
                proof {
                    assert(old_first_is(first, val@));
                }
                Ok(first)
            },
            Err(e) => Err(e),
        }
    }

    /// Attempts to parse a given email address.
    pub fn new(addr: &str) -> (r: Result<Address, mailparse::MailParseError>)
        ensures
            r is Ok <==> (addrparse_view(addr@) matches Some(l) && l.len() == 1),
            r matches Ok(a) ==> a.deep_view() == addrparse_view(addr@)->0[0],
    {
        Address::from_str(addr)
    }

    /// Shortcut function to make a new Mailbox with the given address.
    pub fn new_mailbox(address: String) -> (r: Address)
        ensures
            r@ == AddressView::Mailbox(MailboxView { name: None, address: address@ }),
    {
        Address::Mailbox(Mailbox::new(address))
    }

    /// Shortcut function to make a new Mailbox with the address and
    /// given-name.
    pub fn new_mailbox_with_name(name: String, address: String) -> (r: Address)
        ensures
            r@ == AddressView::Mailbox(MailboxView { name: Some(name@), address: address@ }),
    {
        Address::Mailbox(Mailbox::new_with_name(name, address))
    }

    /// Shortcut function to make a new Group with a collection of
    /// mailboxes.
    pub fn new_group(name: String, mailboxes: Vec<Mailbox>) -> (r: Address)
        ensures
            r@ == AddressView::Group(name@, mailboxes.deep_view()),
    {
        Address::Group(name, mailboxes)
    }

    /// The rendering of this address as text.
    pub fn to_string(&self) -> (r: String)
        ensures
            r@ == spec_render_address(self@),
    {
        match self {
            Address::Mailbox(mbox) => mbox.to_string(),
            Address::Group(name, mboxes) => {
                let ghost ms = mboxes.deep_view();
                let mut list = String::new();
                let n = mboxes.len();
                let mut i: usize = 0;
                while i < n
                    invariant
                        n == ms.len(),
                        n == mboxes@.len(),
                        ms == mboxes.deep_view(),
                        i <= n,
                        list@ == spec_join_mailboxes(ms.take(i as int)),
                    decreases n - i,
                {
                    if i > 0 {
                        list.append(", ");
                    }
                    let rendered = mboxes[i].to_string();
                    list.append(rendered.as_str());
                    proof {
                        let t1 = ms.take(i + 1);
                        assert(t1.drop_last() =~= ms.take(i as int));
                        assert(t1.last() == ms[i as int]);
                        assert(ms[i as int] == mboxes@[i as int]@);
                        if i == 0 {
                            assert(t1.len() == 1);
                            assert(spec_join_mailboxes(t1) == spec_render_mailbox(t1[0]));
                            assert(t1[0] == t1.last());
                            assert(list@ =~= spec_join_mailboxes(t1));
                        } else {
                            assert(t1.len() >= 2);
                            assert(spec_join_mailboxes(t1) == spec_join_mailboxes(t1.drop_last())
                                + ", "@ + spec_render_mailbox(t1.last()));
                            assert(list@ =~= spec_join_mailboxes(t1));
                        }
                    }
                    i = i + 1;
                }
                proof {
                    assert(ms.take(n as int) =~= ms);
                }
                let mut s = name.clone();
                s.append(": ");
                s.append(list.as_str());
                s.append(";");
                proof {
                    assert(s@ =~= name@ + ": "@ + spec_join_mailboxes(ms) + ";"@);
                }
                s
            },
        }
    }
}

/// Error values for address-list folding.
#[derive(Debug, Clone, Copy)]
pub enum AddressFoldingError {
    /// The header value cannot be empty.
    EmtpyHeader,
}

/// The rendering of one address with its trailing separator, the unit
/// the list folder works in.
pub open spec fn spec_addr_piece(a: AddressView) -> Seq<char> {
    spec_render_address(a) + ", "@
}

/// What the list folder emits from address `i` on, with `line_len`
/// columns already taken on the current line: each piece that would
/// run past the limit is put on a fresh line behind `\r\n\t`.
pub open spec fn spec_fold_addrs_from(addrs: Seq<AddressView>, i: int, line_len: int) -> Seq<char>
    decreases addrs.len() - i,
{
    if i < 0 || i >= addrs.len() {
        Seq::empty()
    } else {
        let piece = spec_addr_piece(addrs[i]);
        if line_len + piece.len() > MIME_LINE_LENGTH {
            "\r\n\t"@ + piece + spec_fold_addrs_from(addrs, i + 1, piece.len() as int)
        } else {
            piece + spec_fold_addrs_from(addrs, i + 1, line_len + piece.len())
        }
    }
}

/// The folded form of a whole address list seeded at column `start`:
/// all pieces in order, with the final `, ` trimmed away.
pub open spec fn spec_folded_addr_list(addrs: Seq<AddressView>, start: int) -> Seq<char> {
    let full = spec_fold_addrs_from(addrs, 0, start);
    full.take(full.len() - 2)
}

/// A non-empty tail always emits at least its first separator.
proof fn lemma_fold_addrs_min_len(addrs: Seq<AddressView>, i: int, line_len: int)
    requires
        0 <= i < addrs.len(),
    ensures
        spec_fold_addrs_from(addrs, i, line_len).len() >= 2,
{
    reveal_strlit(", ");
    assert((", "@).len() == 2);
    let piece = spec_addr_piece(addrs[i]);
    assert(piece.len() >= 2);
    if line_len + piece.len() > MIME_LINE_LENGTH {
        assert(spec_fold_addrs_from(addrs, i, line_len) == "\r\n\t"@ + piece
            + spec_fold_addrs_from(addrs, i + 1, piece.len() as int));
    } else {
        assert(spec_fold_addrs_from(addrs, i, line_len) == piece + spec_fold_addrs_from(
            addrs,
            i + 1,
            line_len + piece.len(),
        ));
    }
}

/// Renders each address of `value` with a trailing `, `, wrapping to a
/// fresh `\r\n\t` line whenever the next rendering would run past the
/// line limit, and trims the final separator; an empty list is refused.
pub fn to_folded_header(start_pos: usize, value: &Vec<Address>) -> (r: Result<
    String,
    AddressFoldingError,
>)
    ensures
        r is Ok <==> value@.len() > 0,
        r matches Ok(h) ==> h@ == spec_folded_addr_list(value.deep_view(), start_pos as int),
        r matches Err(e) ==> e == AddressFoldingError::EmtpyHeader,
{
    if value.len() == 0 {
        return Err(AddressFoldingError::EmtpyHeader);
    }
    let ghost dv = value.deep_view();
    let ghost full = spec_fold_addrs_from(dv, 0, start_pos as int);
    let mut header = String::new();
    let mut line_len: usize = start_pos;
    let n = value.len();
    let mut i: usize = 0;
    while i < n
        invariant
            n == dv.len(),
            n == value@.len(),
            dv == value.deep_view(),
            i <= n,
            header@ + spec_fold_addrs_from(dv, i as int, line_len as int) == full,
        decreases n - i,
    {
        let ghost prev = header@;
        let ghost prev_len = line_len as int;
        let mut addr_str = value[i].to_string();
        addr_str.append(", ");
        let alen = addr_str.as_str().unicode_len();
        proof {
            assert(dv[i as int] == value@[i as int]@);
            assert(addr_str@ == spec_addr_piece(dv[i as int]));
        }
        let ghost piece = spec_addr_piece(dv[i as int]);
        let wrap = line_len > MIME_LINE_LENGTH || alen > MIME_LINE_LENGTH - line_len;
        proof {
            assert(wrap == (prev_len + piece.len() > MIME_LINE_LENGTH));
        }
        if wrap {
            header.append("\r\n\t");
            line_len = 0;
        }
        line_len = line_len + alen;
        header.append(addr_str.as_str());
        proof {
            if wrap {
                assert(spec_fold_addrs_from(dv, i as int, prev_len) == "\r\n\t"@ + piece
                    + spec_fold_addrs_from(dv, i + 1, piece.len() as int));
                assert(header@ + spec_fold_addrs_from(dv, i + 1, line_len as int) =~= prev
                    + spec_fold_addrs_from(dv, i as int, prev_len));
            } else {
                assert(spec_fold_addrs_from(dv, i as int, prev_len) == piece
                    + spec_fold_addrs_from(dv, i + 1, prev_len + piece.len()));
                assert(header@ + spec_fold_addrs_from(dv, i + 1, line_len as int) =~= prev
                    + spec_fold_addrs_from(dv, i as int, prev_len));
            }
        }
        i = i + 1;
    }
    proof {
        lemma_fold_addrs_min_len(dv, 0, start_pos as int);
        assert(full.len() >= 2);
        assert(header@ == full);
    }
    let hn = header.as_str().unicode_len();
    let trimmed_slice = header.as_str().substring_char(0, hn - 2);
    let trimmed = trimmed_slice.to_owned();
    proof {
        assert(trimmed@ =~= full.take(full.len() - 2));
    }
    Ok(trimmed)
}

impl Header {
    /// Creates a new Header for the given `name`, its value the folded
    /// rendering of `value` seeded at the column just past `name: `.
    pub fn new_with_value(name: String, value: &Vec<Address>) -> (r: Result<
        Header,
        AddressFoldingError,
    >)
        requires
            name@.len() + 2 <= usize::MAX,
        ensures
            r is Ok <==> value@.len() > 0,
            r matches Ok(h) ==> h@.name == name@ && h@.value == spec_folded_addr_list(
                value.deep_view(),
                name@.len() + 2int,
            ),
            r matches Err(e) ==> e == AddressFoldingError::EmtpyHeader,
    {
        let header_len = name.unicode_len() + 2;
        match to_folded_header(header_len, value) {
            Ok(val) => Ok(Header::new(name, val)),
            Err(e) => Err(e),
        }
    }
}

/// The renderings-with-separator of the addresses from `i` on.
pub open spec fn spec_pieces_from(addrs: Seq<AddressView>, i: int) -> Seq<Seq<char>>
    decreases addrs.len() - i,
{
    if i < 0 || i >= addrs.len() {
        Seq::empty()
    } else {
        seq![spec_addr_piece(addrs[i])] + spec_pieces_from(addrs, i + 1)
    }
}

/// The folder's wrap decisions from address `i` on: true where a fresh
/// line is begun before that address.
pub open spec fn spec_wrap_flags_from(addrs: Seq<AddressView>, i: int, line_len: int) -> Seq<bool>
    decreases addrs.len() - i,
{
    if i < 0 || i >= addrs.len() {
        Seq::empty()
    } else {
        let piece = spec_addr_piece(addrs[i]);
        let w = line_len + piece.len() > MIME_LINE_LENGTH;
        seq![w] + spec_wrap_flags_from(
            addrs,
            i + 1,
            if w {
                piece.len() as int
            } else {
                line_len + piece.len()
            },
        )
    }
}

/// Whole pieces interleaved with breaks: before each piece whose flag
/// is set stands `\r\n\t` and nothing else, and each piece appears
/// contiguously and in order.
pub open spec fn spec_interleave(pieces: Seq<Seq<char>>, flags: Seq<bool>) -> Seq<char>
    decreases pieces.len(),
{
    if pieces.len() == 0 || flags.len() == 0 {
        Seq::empty()
    } else {
        (if flags[0] {
            "\r\n\t"@
        } else {
            Seq::empty()
        }) + pieces[0] + spec_interleave(pieces.drop_first(), flags.drop_first())
    }
}

/// The law of address-list folding: the folded text is exactly the
/// per-address renderings (each with its `, ` separator), in order and
/// each contiguous, with `\r\n\t` inserted only between whole pieces —
/// so a break never splits one address's rendering, and every
/// continuation line begins right after the tab with a whole rendering.
pub proof fn lemma_fold_addrs_breaks_between_pieces(
    addrs: Seq<AddressView>,
    i: int,
    line_len: int,
)
    ensures
        spec_fold_addrs_from(addrs, i, line_len) == spec_interleave(
            spec_pieces_from(addrs, i),
            spec_wrap_flags_from(addrs, i, line_len),
        ),
    decreases addrs.len() - i,
{
    if i < 0 || i >= addrs.len() {
        assert(spec_interleave(spec_pieces_from(addrs, i), spec_wrap_flags_from(addrs, i, line_len))
            =~= Seq::<char>::empty());
    } else {
        let piece = spec_addr_piece(addrs[i]);
        let w = line_len + piece.len() > MIME_LINE_LENGTH;
        let next = if w {
            piece.len() as int
        } else {
            line_len + piece.len()
        };
        lemma_fold_addrs_breaks_between_pieces(addrs, i + 1, next);
        let ps = spec_pieces_from(addrs, i);
        let fs = spec_wrap_flags_from(addrs, i, line_len);
        assert(ps[0] == piece);
        assert(fs[0] == w);
        assert(ps.drop_first() =~= spec_pieces_from(addrs, i + 1));
        assert(fs.drop_first() =~= spec_wrap_flags_from(addrs, i + 1, next));
        if w {
            assert(spec_fold_addrs_from(addrs, i, line_len) =~= (if fs[0] {
                "\r\n\t"@
            } else {
                Seq::<char>::empty()
            }) + ps[0] + spec_interleave(ps.drop_first(), fs.drop_first()));
        } else {
            assert(spec_fold_addrs_from(addrs, i, line_len) =~= (if fs[0] {
                "\r\n\t"@
            } else {
                Seq::<char>::empty()
            }) + ps[0] + spec_interleave(ps.drop_first(), fs.drop_first()));
        }
    }
}

} // verus!
