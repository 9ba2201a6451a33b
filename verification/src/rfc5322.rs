//! Helpers for dealing with RFC 5322: character classes and the
//! line-folding message builder.

use vstd::prelude::*;
use vstd::string::StrSliceExecFns;
use vstd::string::StringExecFns;

verus! {

/// Maximum visual line length before the folder looks for a break point.
pub const MIME_LINE_LENGTH: usize = 78;

/// Is considered a special character by RFC 5322 Section 3.2.3.
pub open spec fn spec_is_special(c: char) -> bool {
    c == '(' || c == ')' || c == '<' || c == '>' || c == '[' || c == ']' || c == ':' || c == ';'
        || c == '@' || c == '\\' || c == ',' || c == '.' || c == '"' || c == ' '
}

/// Is considered to be a VCHAR by RFC 5234 Appendix B.1.
pub open spec fn spec_is_vchar(c: char) -> bool {
    '!' <= c <= '~'
}

/// Is considered to be field text as defined by RFC 5322 Section 3.6.8.
pub open spec fn spec_is_ftext(c: char) -> bool {
    ('!' <= c <= '9') || (';' <= c <= '~')
}

/// Is considered to be atom text as defined by RFC 5322 Section 3.2.3.
pub open spec fn spec_is_atext(c: char) -> bool {
    spec_is_vchar(c) && !spec_is_special(c)
}

pub fn is_special(c: char) -> (r: bool)
    ensures
        r == spec_is_special(c),
{
    c == '(' || c == ')' || c == '<' || c == '>' || c == '[' || c == ']' || c == ':' || c == ';'
        || c == '@' || c == '\\' || c == ',' || c == '.' || c == '"' || c == ' '
}

pub fn is_vchar(c: char) -> (r: bool)
    ensures
        r == spec_is_vchar(c),
{
    '!' <= c && c <= '~'
}

pub fn is_ftext(c: char) -> (r: bool)
    ensures
        r == spec_is_ftext(c),
{
    ('!' <= c && c <= '9') || (';' <= c && c <= '~')
}

pub fn is_atext(c: char) -> (r: bool)
    ensures
        r == spec_is_atext(c),
{
    is_vchar(c) && !is_special(c)
}

/// The running column count of the folder just after it has consumed
/// `i` characters of `s`: a carriage return or line feed resets the
/// count before it is itself counted.
pub open spec fn col_after(s: Seq<char>, i: int) -> int
    decreases i,
{
    if i <= 0 {
        0
    } else if s[i - 1] == '\r' || s[i - 1] == '\n' {
        1
    } else {
        col_after(s, i - 1) + 1
    }
}

/// What the folder emits from position `i` on, given its running state:
/// `cur_len` columns since the last line break or cut, `last_space` the
/// position of the last space usable as a break point (0 meaning none),
/// and `last_cut` the position just past the last emitted prefix.
pub open spec fn spec_fold_from(
    s: Seq<char>,
    i: int,
    cur_len: int,
    last_space: int,
    last_cut: int,
) -> Seq<char>
    decreases s.len() - i,
{
    if i < 0 || i >= s.len() {
        s.subrange(last_cut, s.len() as int)
    } else {
        let c = s[i];
        let ls = if c == ' ' {
            i
        } else {
            last_space
        };
        let cl = if c == '\r' || c == '\n' {
            1
        } else {
            cur_len + 1
        };
        if cl >= MIME_LINE_LENGTH && ls > 0 {
            s.subrange(last_cut, ls) + seq!['\r', '\n', '\t'] + spec_fold_from(s, i + 1, 0, 0, ls + 1)
        } else {
            spec_fold_from(s, i + 1, cl, ls, last_cut)
        }
    }
}

/// The folded form of `s`: line breaks are inserted at recorded spaces
/// once a line reaches `MIME_LINE_LENGTH` columns; content is never
/// altered, only split.
pub open spec fn spec_fold(s: Seq<char>) -> Seq<char> {
    spec_fold_from(s, 0, 0, 0, 0)
}

/// Folding leaves text alone when no line ever reaches the limit:
/// if after every prefix the running column count stays below
/// `MIME_LINE_LENGTH`, the folder returns its input unchanged.
pub proof fn lemma_fold_identity(s: Seq<char>)
    requires
        forall|j: int| 0 <= j < s.len() ==> #[trigger] col_after(s, j + 1) < MIME_LINE_LENGTH,
    ensures
        spec_fold(s) == s,
{
    lemma_fold_from_identity(s, 0, 0, 0);
    assert(s.subrange(0, s.len() as int) =~= s);
}

proof fn lemma_fold_from_identity(s: Seq<char>, i: int, last_space: int, last_cut: int)
    requires
        0 <= i <= s.len(),
        forall|j: int| i <= j < s.len() ==> #[trigger] col_after(s, j + 1) < MIME_LINE_LENGTH,
    ensures
        spec_fold_from(s, i, col_after(s, i), last_space, last_cut) == s.subrange(
            last_cut,
            s.len() as int,
        ),
    decreases s.len() - i,
{
    if i < s.len() {
        let c = s[i];
        let cl = if c == '\r' || c == '\n' {
            1int
        } else {
            col_after(s, i) + 1
        };
        assert(cl == col_after(s, i + 1));
        lemma_fold_from_identity(s, i + 1, if c == ' ' { i } else { last_space }, last_cut);
    }
}


/// Text free of carriage returns and line feeds.
pub open spec fn spec_crlf_free(t: Seq<char>) -> bool {
    forall|i: int| 0 <= i < t.len() ==> (#[trigger] t[i]) != '\r' && t[i] != '\n'
}

/// The shape folding gives its output: every carriage return begins a
/// `\r\n\t` continuation, and every line feed follows a carriage
/// return.
pub open spec fn spec_fold_shape(t: Seq<char>) -> bool {
    forall|j: int|
        0 <= j < t.len() ==> {
            &&& ((#[trigger] t[j]) == '\r' ==> j + 2 < t.len() && t[j + 1] == '\n' && t[j + 2]
                == '\t')
            &&& (t[j] == '\n' ==> j >= 1 && t[j - 1] == '\r')
        }
}

proof fn lemma_fold_from_shape(s: Seq<char>, i: int, cur_len: int, last_space: int, last_cut: int)
    requires
        spec_crlf_free(s),
        0 <= i <= s.len(),
        0 <= last_cut <= i,
        0 <= last_space <= i,
        last_space > 0 ==> last_cut <= last_space,
    ensures
        spec_fold_shape(spec_fold_from(s, i, cur_len, last_space, last_cut)),
        spec_fold_from(s, i, cur_len, last_space, last_cut).len() >= s.len() - last_cut,
        spec_fold_from(s, i, cur_len, last_space, last_cut).len() > 0 ==> spec_fold_from(
            s,
            i,
            cur_len,
            last_space,
            last_cut,
        )[0] != '\n',
    decreases s.len() - i,
{
    let t = spec_fold_from(s, i, cur_len, last_space, last_cut);
    if i >= s.len() {
        assert(t == s.subrange(last_cut, s.len() as int));
        assert forall|j: int| 0 <= j < t.len() implies ((#[trigger] t[j]) == '\r' ==> j + 2
            < t.len() && t[j + 1] == '\n' && t[j + 2] == '\t') && (t[j] == '\n' ==> j >= 1 && t[j
            - 1] == '\r') by {
            assert(t[j] == s[last_cut + j]);
        }
        if t.len() > 0 {
            assert(t[0] == s[last_cut as int]);
        }
    } else {
        let c = s[i];
        assert(c != '\r' && c != '\n');
        let ls = if c == ' ' {
            i
        } else {
            last_space
        };
        let cl = cur_len + 1;
        if cl >= MIME_LINE_LENGTH && ls > 0 {
            let piece = s.subrange(last_cut, ls);
            let rest = spec_fold_from(s, i + 1, 0, 0, ls + 1);
            lemma_fold_from_shape(s, i + 1, 0, 0, ls + 1);
            assert(t == piece + seq!['\r', '\n', '\t'] + rest);
            let pl = piece.len();
            assert(t.len() == pl + 3 + rest.len());
            assert forall|j: int| 0 <= j < t.len() implies ((#[trigger] t[j]) == '\r' ==> j + 2
                < t.len() && t[j + 1] == '\n' && t[j + 2] == '\t') && (t[j] == '\n' ==> j >= 1 && t[
                j - 1] == '\r') by {
                if j < pl {
                    assert(t[j] == s[last_cut + j]);
                } else if j == pl {
                    assert(t[j] == '\r');
                    assert(t[j + 1] == '\n');
                    assert(t[j + 2] == '\t');
                } else if j == pl + 1 {
                    assert(t[j] == '\n');
                    assert(t[j - 1] == '\r');
                } else if j == pl + 2 {
                    assert(t[j] == '\t');
                } else {
                    let j2 = j - pl - 3;
                    assert(t[j] == rest[j2]);
                    if rest[j2] == '\r' {
                        assert(j2 + 2 < rest.len());
                        assert(t[j + 1] == rest[j2 + 1]);
                        assert(t[j + 2] == rest[j2 + 2]);
                    }
                    if rest[j2] == '\n' {
                        assert(j2 >= 1);
                        assert(t[j - 1] == rest[j2 - 1]);
                    }
                }
            }
            assert(t.len() >= s.len() - last_cut);
            if pl > 0 {
                assert(t[0] == s[last_cut as int]);
            } else {
                assert(t[0] == '\r');
            }
        } else {
            lemma_fold_from_shape(s, i + 1, cl, ls, last_cut);
        }
    }
}

proof fn lemma_fold_first(s: Seq<char>, i: int, cur_len: int, last_space: int)
    requires
        spec_crlf_free(s),
        s.len() > 0,
        0 <= i <= s.len(),
        0 <= last_space <= i,
    ensures
        spec_fold_from(s, i, cur_len, last_space, 0).len() > 0,
        spec_fold_from(s, i, cur_len, last_space, 0)[0] == s[0],
    decreases s.len() - i,
{
    let t = spec_fold_from(s, i, cur_len, last_space, 0);
    if i >= s.len() {
        assert(s.subrange(0, s.len() as int) =~= s);
    } else {
        let c = s[i];
        assert(c != '\r' && c != '\n');
        let ls = if c == ' ' {
            i
        } else {
            last_space
        };
        let cl = cur_len + 1;
        if cl >= MIME_LINE_LENGTH && ls > 0 {
            let piece = s.subrange(0, ls);
            assert(piece.len() > 0);
            assert(t[0] == piece[0]);
            assert(piece[0] == s[0]);
        } else {
            lemma_fold_first(s, i + 1, cl, ls);
        }
    }
}

/// What folding does to one clean header line: the output keeps the
/// shape above, is never empty, and begins with the line's first
/// character.
pub proof fn lemma_fold_clean_line(x: Seq<char>)
    requires
        spec_crlf_free(x),
        x.len() > 0,
    ensures
        spec_fold_shape(spec_fold(x)),
        spec_fold(x).len() > 0,
        spec_fold(x)[0] == x[0],
{
    lemma_fold_from_shape(x, 0, 0, 0, 0);
    lemma_fold_first(x, 0, 0, 0);
}

/// Type for constructing RFC 5322 messages.
pub struct Rfc5322Builder {
    result: String,
}

impl View for Rfc5322Builder {
    type V = Seq<char>;

    /// The text emitted so far.
    closed spec fn view(&self) -> Seq<char> {
        self.result@
    }
}

impl Rfc5322Builder {
    /// Make a new builder, with an empty string.
    pub fn new() -> (r: Rfc5322Builder)
        ensures
            r@ == Seq::<char>::empty(),
    {
        Rfc5322Builder { result: String::new() }
    }

    /// The text emitted so far.
    pub fn result(&self) -> (r: &String)
        ensures
            r@ == self@,
    {
        &self.result
    }

    /// Append `s` to the result verbatim.
    pub fn emit_raw(&mut self, s: &str)
        ensures
            final(self)@ == old(self)@ + s@,
    {
        self.result.append(s);
    }

    /// Append `s` to the result, folding it at recorded spaces so that
    /// no emitted line reaches `MIME_LINE_LENGTH` columns while a break
    /// point is available.
    pub fn emit_folded(&mut self, s: &str)
        ensures
            final(self)@ == old(self)@ + spec_fold(s@),
    {
        let ghost orig = self.result@;
        let n = s.unicode_len();
        let mut cur_len: usize = 0;
        let mut last_space: usize = 0;
        let mut last_cut: usize = 0;
        let mut i: usize = 0;
        while i < n
            invariant
                n == s@.len(),
                i <= n,
                cur_len <= i,
                last_space <= i,
                last_cut <= i,
                last_space > 0 ==> last_cut <= last_space,
                self.result@ + spec_fold_from(
                    s@,
                    i as int,
                    cur_len as int,
                    last_space as int,
                    last_cut as int,
                ) == orig + spec_fold(s@),
            decreases n - i,
        {
            let c = s.get_char(i);
            if c == ' ' {
                last_space = i;
            } else if c == '\r' || c == '\n' {
                cur_len = 0;
            }
            cur_len = cur_len + 1;
            if cur_len >= MIME_LINE_LENGTH && last_space > 0 {
                let piece = s.substring_char(last_cut, last_space);
                self.result.append(piece);
                self.result.append("\r\n\t");
                proof {
                    reveal_strlit("\r\n\t");
                    assert("\r\n\t"@ =~= seq!['\r', '\n', '\t']);
                }
                cur_len = 0;
                last_cut = last_space + 1;
                last_space = 0;
            }
            i = i + 1;
        }
        let tail = s.substring_char(last_cut, n);
        self.result.append(tail);
    }
}

} // verus!
