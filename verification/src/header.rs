//! RFC 822 style headers and an ordered, multi-valued header collection.

use vstd::prelude::*;
use vstd::string::StrSliceExecFns;
use vstd::string::StringExecFns;

use crate::strings::str_eq;

verus! {

/// The mathematical content of a `Header`: its name and its value,
/// each as a sequence of characters.
pub struct HeaderView {
    pub name: Seq<char>,
    pub value: Seq<char>,
}

/// Represents an RFC 822 Header.
#[derive(Clone, Debug, PartialEq, Eq, Hash)]
pub struct Header {
    /// The name of this header.
    pub name: String,
    value: String,
}

impl View for Header {
    type V = HeaderView;

    closed spec fn view(&self) -> HeaderView {
        HeaderView { name: self.name@, value: self.value@ }
    }
}

impl DeepView for Header {
    type V = HeaderView;

    open spec fn deep_view(&self) -> HeaderView {
        self.view()
    }
}

impl Header {
    /// Creates a new Header for the given `name` and `value`.
    pub fn new(name: String, value: String) -> (r: Header)
        ensures
            r@ == (HeaderView { name: name@, value: value@ }),
    {
        Header { name, value }
    }

    /// Get the value represented by this header.
    pub fn get_value(&self) -> (r: &str)
        ensures
            r@ == self@.value,
    {
        self.value.as_str()
    }

    /// The header as one line of text, `Name: value`.
    pub fn to_string(&self) -> (r: String)
        ensures
            r@ == self@.name + ": "@ + self@.value,
    {
        let mut s = self.name.clone();
        s.append(": ");
        s.append(self.value.as_str());
        s
    }

    /// An exact copy of this header.
    pub fn duplicate(&self) -> (r: Header)
        ensures
            r == *self,
    {
        Header { name: self.name.clone(), value: self.value.clone() }
    }
}

/// The entries of `s` whose name is `name`, in order.
pub open spec fn entries_named(s: Seq<HeaderView>, name: Seq<char>) -> Seq<HeaderView>
    decreases s.len(),
{
    if s.len() == 0 {
        Seq::empty()
    } else if s[0].name == name {
        seq![s[0]] + entries_named(s.drop_first(), name)
    } else {
        entries_named(s.drop_first(), name)
    }
}

/// The position of the first entry of `s` named `name`; `s.len()` when
/// there is none.
pub open spec fn first_index_named(s: Seq<HeaderView>, name: Seq<char>) -> int
    decreases s.len(),
{
    if s.len() == 0 {
        0
    } else if s[0].name == name {
        0
    } else {
        1 + first_index_named(s.drop_first(), name)
    }
}

/// `s` with every entry named `name` removed.
pub open spec fn remove_named(s: Seq<HeaderView>, name: Seq<char>) -> Seq<HeaderView>
    decreases s.len(),
{
    if s.len() == 0 {
        Seq::empty()
    } else if s[0].name == name {
        remove_named(s.drop_first(), name)
    } else {
        seq![s[0]] + remove_named(s.drop_first(), name)
    }
}

/// What `replace` leaves behind: `h` stands in the position of the first
/// entry that shared its name, every other entry of that name is gone,
/// and when no entry shared its name `h` is appended at the end.
pub open spec fn spec_replace(s: Seq<HeaderView>, h: HeaderView) -> Seq<HeaderView>
    decreases s.len(),
{
    if s.len() == 0 {
        seq![h]
    } else if s[0].name == h.name {
        seq![h] + remove_named(s.drop_first(), h.name)
    } else {
        seq![s[0]] + spec_replace(s.drop_first(), h)
    }
}

/// Splitting a sequence splits its named entries.
pub proof fn lemma_entries_named_concat(a: Seq<HeaderView>, b: Seq<HeaderView>, name: Seq<char>)
    ensures
        entries_named(a + b, name) == entries_named(a, name) + entries_named(b, name),
    decreases a.len(),
{
    if a.len() == 0 {
        assert(a + b =~= b);
        assert(entries_named(a, name) + entries_named(b, name) =~= entries_named(b, name));
    } else {
        assert((a + b).drop_first() =~= a.drop_first() + b);
        lemma_entries_named_concat(a.drop_first(), b, name);
        if a[0].name == name {
            assert(seq![a[0]] + (entries_named(a.drop_first(), name) + entries_named(b, name))
                =~= (seq![a[0]] + entries_named(a.drop_first(), name)) + entries_named(b, name));
        }
    }
}

/// A collection of Headers, ordered by insertion.
#[derive(Clone, Debug, PartialEq, Eq)]
pub struct HeaderMap {
    // The headers in insertion order; lookups by name scan this list,
    // so the order and the name index of the collection can never
    // disagree.
    ordered_headers: Vec<Header>,
}

impl View for HeaderMap {
    type V = Seq<HeaderView>;

    closed spec fn view(&self) -> Seq<HeaderView> {
        self.ordered_headers.deep_view()
    }
}

impl HeaderMap {
    /// An empty collection.
    pub fn new() -> (r: HeaderMap)
        ensures
            r@ == Seq::<HeaderView>::empty(),
    {
        let r = HeaderMap { ordered_headers: Vec::new() };
        proof {
            assert(r@ =~= Seq::<HeaderView>::empty());
        }
        r
    }

    /// Adds a header to the collection; never overwrites.
    pub fn insert(&mut self, header: Header)
        ensures
            final(self)@ == old(self)@.push(header@),
    {
        let ghost h = header@;
        self.ordered_headers.push(header);
        proof {
            assert(self@ =~= old(self)@.push(h));
        }
    }

    /// Puts `header` in the place of the first entry of the same name,
    /// removes the other entries of that name, and appends it at the end
    /// when no entry of that name existed.
    pub fn replace(&mut self, header: Header)
        ensures
            final(self)@ == spec_replace(old(self)@, header@),
    {
        let ghost orig = self@;
        let ghost h = header@;
        let mut out: Vec<Header> = Vec::new();
        let mut inserted = false;
        let n = self.ordered_headers.len();
        proof {
            assert(orig.subrange(0, n as int) =~= orig);
            assert(out.deep_view() + spec_replace(orig, h) =~= spec_replace(orig, h));
        }
        let mut i: usize = 0;
        while i < n
            invariant
                n == orig.len(),
                orig == self@,
                n == self.ordered_headers@.len(),
                h == header@,
                i <= n,
                !inserted ==> spec_replace(orig, h) == out.deep_view() + spec_replace(
                    orig.subrange(i as int, n as int),
                    h,
                ),
                inserted ==> spec_replace(orig, h) == out.deep_view() + remove_named(
                    orig.subrange(i as int, n as int),
                    h.name,
                ),
            decreases n - i,
        {
            proof {
                let suf = orig.subrange(i as int, n as int);
                assert(suf.len() == n - i);
                assert(suf[0] == orig[i as int]);
                assert(orig[i as int] == self.ordered_headers@[i as int]@);
                assert(suf.drop_first() =~= orig.subrange(i + 1, n as int));
            }
            let ghost prev_out = out.deep_view();
            let ghost suf = orig.subrange(i as int, n as int);
            let ghost rest = orig.subrange(i + 1, n as int);
            if str_eq(self.ordered_headers[i].name.as_str(), header.name.as_str()) {
                if !inserted {
                    out.push(header.duplicate());
                    inserted = true;
                    proof {
                        assert(out.deep_view() =~= prev_out.push(h));
                        assert(spec_replace(suf, h) == seq![h] + remove_named(rest, h.name));
                        assert(prev_out + (seq![h] + remove_named(rest, h.name)) =~= out.deep_view()
                            + remove_named(rest, h.name));
                    }
                } else {
                    proof {
                        assert(remove_named(suf, h.name) == remove_named(rest, h.name));
                    }
                }
            } else {
                out.push(self.ordered_headers[i].duplicate());
                proof {
                    assert(out.deep_view() =~= prev_out.push(orig[i as int]));
                    if inserted {
                        assert(remove_named(suf, h.name) == seq![orig[i as int]] + remove_named(
                            rest,
                            h.name,
                        ));
                        assert(prev_out + (seq![orig[i as int]] + remove_named(rest, h.name)) =~=
                            out.deep_view() + remove_named(rest, h.name));
                    } else {
                        assert(spec_replace(suf, h) == seq![orig[i as int]] + spec_replace(
                            rest,
                            h,
                        ));
                        assert(prev_out + (seq![orig[i as int]] + spec_replace(rest, h)) =~= out
                            .deep_view() + spec_replace(rest, h));
                    }
                }
            }
            i = i + 1;
        }
        proof {
            assert(orig.subrange(n as int, n as int) =~= Seq::<HeaderView>::empty());
        }
        if !inserted {
            let ghost prev_out = out.deep_view();
            out.push(header);
            proof {
                assert(out.deep_view() =~= prev_out.push(h));
                assert(prev_out + spec_replace(Seq::<HeaderView>::empty(), h) =~= prev_out.push(
                    h,
                ));
            }
        } else {
            proof {
                assert(out.deep_view() + remove_named(Seq::<HeaderView>::empty(), h.name) =~= out
                    .deep_view());
            }
        }
        self.ordered_headers = out;
    }

    /// Get an iterator over the collection of headers.
    pub fn iter(&self) -> (r: HeaderIter<'_>)
        ensures
            r@.0 == self@,
            r@.1 == 0,
    {
        HeaderIter::new(&self.ordered_headers)
    }

    /// The header at position `i` in insertion order.
    pub fn header_at(&self, i: usize) -> (h: &Header)
        requires
            i < self@.len(),
        ensures
            h@ == self@[i as int],
    {
        &self.ordered_headers[i]
    }

    /// Get the last header with `name`, or `None` if there is none.
    pub fn get(&self, name: String) -> (r: Option<&Header>)
        ensures
            match r {
                Some(h) => {
                    &&& entries_named(self@, name@).len() > 0
                    &&& h@ == entries_named(self@, name@).last()
                },
                None => entries_named(self@, name@).len() == 0,
            },
    {
        let n = self.ordered_headers.len();
        let mut i: usize = n;
        while i > 0
            invariant
                n == self@.len(),
                n == self.ordered_headers@.len(),
                i <= n,
                entries_named(self@.subrange(i as int, n as int), name@).len() == 0,
            decreases i,
        {
            i = i - 1;
            if str_eq(self.ordered_headers[i].name.as_str(), name.as_str()) {
                proof {
                    let s = self@;
                    assert(s[i as int] == self.ordered_headers@[i as int]@);
                    assert(s.subrange(0, n as int) =~= s);
                    lemma_entries_named_concat(
                        s.subrange(0, i + 1),
                        s.subrange(i + 1, n as int),
                        name@,
                    );
                    assert(s.subrange(0, i + 1) + s.subrange(i + 1, n as int) =~= s);
                    lemma_entries_named_concat(
                        s.subrange(0, i as int),
                        s.subrange(i as int, i + 1),
                        name@,
                    );
                    assert(s.subrange(0, i as int) + s.subrange(i as int, i + 1) =~= s.subrange(
                        0,
                        i + 1,
                    ));
                    let unit = s.subrange(i as int, i + 1);
                    assert(unit.len() == 1);
                    assert(unit[0] == s[i as int]);
                    assert(unit[0].name == name@);
                    assert(unit.drop_first() =~= Seq::<HeaderView>::empty());
                    assert(entries_named(unit.drop_first(), name@) =~= Seq::<HeaderView>::empty());
                    assert(entries_named(unit, name@) == seq![unit[0]] + entries_named(
                        unit.drop_first(),
                        name@,
                    ));
                    assert(entries_named(unit, name@) =~= seq![s[i as int]]);
                }
                return Some(&self.ordered_headers[i]);
            }
            proof {
                assert(self@[i as int] == self.ordered_headers@[i as int]@);
                let suf = self@.subrange(i as int, n as int);
                assert(suf[0] == self@[i as int]);
                assert(suf.drop_first() =~= self@.subrange(i + 1, n as int));
            }
        }
        proof {
            assert(self@.subrange(0, n as int) =~= self@);
        }
        None
    }

    /// Get the number of headers within this map.
    pub fn len(&self) -> (r: usize)
        ensures
            r == self@.len(),
    {
        self.ordered_headers.len()
    }

    /// Returns true if there are no headers in this map.
    pub fn is_empty(&self) -> (r: bool)
        ensures
            r == (self@.len() == 0),
    {
        self.ordered_headers.len() == 0
    }

    /// All the headers with `name`, in insertion order, or `None` if
    /// there are none.
    pub fn find(&self, name: &str) -> (r: Option<Vec<Header>>)
        ensures
            match r {
                Some(v) => {
                    &&& v.deep_view() == entries_named(self@, name@)
                    &&& v@.len() > 0
                },
                None => entries_named(self@, name@).len() == 0,
            },
    {
        let mut out: Vec<Header> = Vec::new();
        let n = self.ordered_headers.len();
        let mut i: usize = 0;
        while i < n
            invariant
                n == self@.len(),
                n == self.ordered_headers@.len(),
                i <= n,
                out.deep_view() == entries_named(self@.subrange(0, i as int), name@),
            decreases n - i,
        {
            proof {
                lemma_entries_named_concat(
                    self@.subrange(0, i as int),
                    self@.subrange(i as int, i + 1),
                    name@,
                );
                assert(self@.subrange(0, i as int) + self@.subrange(i as int, i + 1) =~= self@
                    .subrange(0, i + 1));
                let unit = self@.subrange(i as int, i + 1);
                assert(unit.len() == 1);
                assert(unit[0] == self@[i as int]);
                assert(self@[i as int] == self.ordered_headers@[i as int]@);
                assert(unit.drop_first() =~= Seq::<HeaderView>::empty());
                assert(entries_named(unit.drop_first(), name@) =~= Seq::<HeaderView>::empty());
            }
            let ghost prev_out = out.deep_view();
            let ghost unit = self@.subrange(i as int, i + 1);
            if str_eq(self.ordered_headers[i].name.as_str(), name) {
                out.push(self.ordered_headers[i].duplicate());
                proof {
                    assert(out.deep_view() =~= prev_out.push(self@[i as int]));
                    assert(entries_named(unit, name@) =~= seq![self@[i as int]]);
                    assert(prev_out + seq![self@[i as int]] =~= out.deep_view());
                }
            } else {
                proof {
                    assert(entries_named(unit, name@) =~= Seq::<HeaderView>::empty());
                    assert(prev_out + entries_named(unit, name@) =~= out.deep_view());
                }
            }
            i = i + 1;
        }
        proof {
            assert(self@.subrange(0, n as int) =~= self@);
        }
        if out.len() == 0 {
            proof {
                assert(out.deep_view().len() == 0);
            }
            None
        } else {
            Some(out)
        }
    }
}

/// An iterator over the headers of a `HeaderMap`, in insertion order.
#[derive(Debug)]
pub struct HeaderIter<'s> {
    headers: &'s Vec<Header>,
    pos: usize,
}

impl<'s> View for HeaderIter<'s> {
    type V = (Seq<HeaderView>, int);

    closed spec fn view(&self) -> (Seq<HeaderView>, int) {
        (self.headers.deep_view(), self.pos as int)
    }
}

impl<'s> HeaderIter<'s> {
    fn new(headers: &'s Vec<Header>) -> (r: HeaderIter<'s>)
        ensures
            r@.0 == headers.deep_view(),
            r@.1 == 0,
    {
        HeaderIter { headers, pos: 0 }
    }

    /// The next header in insertion order, or `None` once all have been
    /// handed out.
    pub fn next(&mut self) -> (r: Option<&'s Header>)
        ensures
            old(self)@.1 < old(self)@.0.len() ==> {
                &&& r matches Some(h) && h@ == old(self)@.0[old(self)@.1]
                &&& final(self)@.1 == old(self)@.1 + 1
            },
            old(self)@.1 >= old(self)@.0.len() ==> r is None && final(self)@ == old(self)@,
            final(self)@.0 == old(self)@.0,
    {
        if self.pos < self.headers.len() {
            let r = Some(&self.headers[self.pos]);
            self.pos = self.pos + 1;
            r
        } else {
            None
        }
    }
}

/// The law of `replace` and `find`: after `replace(h)` the entries named
/// `h`'s name are exactly one, `h` itself; it stands at the position of
/// the first former entry of that name, or at the end when there was
/// none; entries of every other name are untouched; and `insert` (a
/// plain push) never shrinks the entry count.
pub proof fn lemma_replace_then_find(s: Seq<HeaderView>, h: HeaderView)
    ensures
        entries_named(spec_replace(s, h), h.name) =~= seq![h],
        first_index_named(spec_replace(s, h), h.name) == first_index_named(s, h.name),
        0 <= first_index_named(s, h.name) <= s.len(),
        first_index_named(s, h.name) < spec_replace(s, h).len(),
        spec_replace(s, h)[first_index_named(s, h.name)] == h,
        forall|other: Seq<char>|
            other != h.name ==> entries_named(spec_replace(s, h), other) == entries_named(
                s,
                other,
            ),
        s.push(h).len() == s.len() + 1,
    decreases s.len(),
{
    let name = h.name;
    let rep = spec_replace(s, h);
    if s.len() == 0 {
        assert(rep == seq![h]);
        assert(rep[0] == h);
        assert(rep.drop_first() =~= Seq::<HeaderView>::empty());
        assert(entries_named(Seq::<HeaderView>::empty(), name) == Seq::<HeaderView>::empty());
        assert(entries_named(rep, name) == seq![h] + entries_named(rep.drop_first(), name));
        assert(seq![h] + Seq::<HeaderView>::empty() =~= seq![h]);
        assert(entries_named(rep, name) =~= seq![h]);
        assert forall|other: Seq<char>| other != name implies entries_named(rep, other)
            == entries_named(s, other) by {
            assert(entries_named(rep.drop_first(), other) =~= Seq::<HeaderView>::empty());
            assert(entries_named(rep, other) =~= Seq::<HeaderView>::empty());
            assert(entries_named(s, other) =~= Seq::<HeaderView>::empty());
        }
    } else if s[0].name == name {
        lemma_remove_named(s.drop_first(), name);
        let rest = remove_named(s.drop_first(), name);
        assert(rep == seq![h] + rest);
        assert(rep[0] == h);
        assert(rep.drop_first() =~= rest);
        assert(entries_named(rep, name) == seq![h] + entries_named(rest, name));
        assert(entries_named(rest, name) == Seq::<HeaderView>::empty());
        assert(seq![h] + Seq::<HeaderView>::empty() =~= seq![h]);
        assert(entries_named(rep, name) =~= seq![h]);
        assert forall|other: Seq<char>| other != name implies entries_named(rep, other)
            == entries_named(s, other) by {
            assert(entries_named(rep, other) == entries_named(rest, other));
            assert(entries_named(rest, other) == entries_named(s.drop_first(), other));
            assert(entries_named(s, other) == entries_named(s.drop_first(), other));
        }
    } else {
        lemma_replace_then_find(s.drop_first(), h);
        let drest = spec_replace(s.drop_first(), h);
        assert(rep == seq![s[0]] + drest);
        assert(rep[0] == s[0]);
        assert(rep.drop_first() =~= drest);
        assert(entries_named(rep, name) == entries_named(drest, name));
        let k = first_index_named(s.drop_first(), name);
        assert(first_index_named(s, name) == 1 + k);
        assert(first_index_named(rep, name) == 1 + first_index_named(drest, name));
        assert(rep.len() == 1 + drest.len());
        assert(rep[1 + k] == drest[k]);
        assert forall|other: Seq<char>| other != name implies entries_named(rep, other)
            == entries_named(s, other) by {
            assert(entries_named(drest, other) == entries_named(s.drop_first(), other));
            if s[0].name == other {
                assert(entries_named(rep, other) == seq![s[0]] + entries_named(drest, other));
                assert(entries_named(s, other) == seq![s[0]] + entries_named(
                    s.drop_first(),
                    other,
                ));
            } else {
                assert(entries_named(rep, other) == entries_named(drest, other));
                assert(entries_named(s, other) == entries_named(s.drop_first(), other));
            }
        }
    }
}

/// Removing a name leaves no entry of that name and every entry of the
/// other names.
proof fn lemma_remove_named(s: Seq<HeaderView>, name: Seq<char>)
    ensures
        entries_named(remove_named(s, name), name) == Seq::<HeaderView>::empty(),
        forall|other: Seq<char>|
            other != name ==> entries_named(remove_named(s, name), other) == entries_named(
                s,
                other,
            ),
    decreases s.len(),
{
    let rem = remove_named(s, name);
    if s.len() == 0 {
        assert(entries_named(rem, name) =~= Seq::<HeaderView>::empty());
        assert forall|other: Seq<char>| other != name implies entries_named(rem, other)
            == entries_named(s, other) by {
            assert(rem =~= Seq::<HeaderView>::empty());
            assert(entries_named(rem, other) =~= Seq::<HeaderView>::empty());
            assert(entries_named(s, other) =~= Seq::<HeaderView>::empty());
        }
    } else if s[0].name == name {
        lemma_remove_named(s.drop_first(), name);
        assert(rem == remove_named(s.drop_first(), name));
        assert(entries_named(rem, name) == Seq::<HeaderView>::empty());
        assert forall|other: Seq<char>| other != name implies entries_named(rem, other)
            == entries_named(s, other) by {
            assert(entries_named(rem, other) == entries_named(s.drop_first(), other));
            assert(entries_named(s, other) == entries_named(s.drop_first(), other));
        }
    } else {
        lemma_remove_named(s.drop_first(), name);
        assert(rem == seq![s[0]] + remove_named(s.drop_first(), name));
        assert(rem[0] == s[0]);
        assert(rem.drop_first() =~= remove_named(s.drop_first(), name));
        assert(entries_named(rem, name) == entries_named(remove_named(s.drop_first(), name), name));
        assert(entries_named(rem, name) == Seq::<HeaderView>::empty());
        assert forall|other: Seq<char>| other != name implies entries_named(rem, other)
            == entries_named(s, other) by {
            assert(entries_named(remove_named(s.drop_first(), name), other) == entries_named(
                s.drop_first(),
                other,
            ));
            if s[0].name == other {
                assert(entries_named(rem, other) == seq![s[0]] + entries_named(
                    remove_named(s.drop_first(), name),
                    other,
                ));
                assert(entries_named(s, other) == seq![s[0]] + entries_named(
                    s.drop_first(),
                    other,
                ));
            } else {
                assert(entries_named(rem, other) == entries_named(
                    remove_named(s.drop_first(), name),
                    other,
                ));
                assert(entries_named(s, other) == entries_named(s.drop_first(), other));
            }
        }
    }
}

} // verus!
