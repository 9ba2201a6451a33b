//! The Content-Type header value and transfer-encoding markers.

use vstd::prelude::*;
use vstd::string::StringExecFns;

verus! {

/// Content-Type string, major/minor as the first and second elements
/// respectively.
pub type MimeContentType = (String, String);

/// The parameter list of a Content-Type header as sequences of
/// characters, keys paired with values.
pub open spec fn spec_params_view(v: Seq<(String, String)>) -> Seq<(Seq<char>, Seq<char>)> {
    Seq::new(v.len(), |i: int| (v[i].0@, v[i].1@))
}

/// The rendering of Content-Type parameters: `; key=value` for each
/// pair, in order.
pub open spec fn spec_params_str(params: Seq<(Seq<char>, Seq<char>)>) -> Seq<char>
    decreases params.len(),
{
    if params.len() == 0 {
        Seq::empty()
    } else {
        spec_params_str(params.drop_last()) + "; "@ + params.last().0 + "="@ + params.last().1
    }
}

/// The rendering of a whole Content-Type value:
/// `major/minor; k1=v1; …`.
pub open spec fn spec_content_type_value(
    major: Seq<char>,
    minor: Seq<char>,
    params: Seq<(Seq<char>, Seq<char>)>,
) -> Seq<char> {
    major + "/"@ + minor + spec_params_str(params)
}

/// Special header type for the Content-Type header.
#[derive(Debug)]
pub struct MimeContentTypeHeader {
    /// The content type presented by this header.
    pub content_type: MimeContentType,
    /// Parameters of this header, in the order they are rendered.
    pub params: Vec<(String, String)>,
}

impl MimeContentTypeHeader {
    /// The header value this type renders to.
    pub fn to_header(&self) -> (r: String)
        ensures
            r@ == spec_content_type_value(
                self.content_type.0@,
                self.content_type.1@,
                spec_params_view(self.params@),
            ),
    {
        let ghost pv = spec_params_view(self.params@);
        let mut result = self.content_type.0.clone();
        result.append("/");
        result.append(self.content_type.1.as_str());
        let ghost head = result@;
        let n = self.params.len();
        let mut i: usize = 0;
        while i < n
            invariant
                n == self.params@.len(),
                n == pv.len(),
                pv == spec_params_view(self.params@),
                head == self.content_type.0@ + "/"@ + self.content_type.1@,
                i <= n,
                result@ == head + spec_params_str(pv.take(i as int)),
            decreases n - i,
        {
            result.append("; ");
            result.append(self.params[i].0.as_str());
            result.append("=");
            result.append(self.params[i].1.as_str());
            proof {
                let t1 = pv.take(i + 1);
                assert(t1.drop_last() =~= pv.take(i as int));
                assert(t1.last() == pv[i as int]);
                assert(pv[i as int].0 == self.params@[i as int].0@);
                assert(pv[i as int].1 == self.params@[i as int].1@);
                assert(result@ =~= head + spec_params_str(t1));
            }
            i = i + 1;
        }
        proof {
            assert(pv.take(n as int) =~= pv);
        }
        result
    }
}

/// Special header type for the Content-Transfer-Encoding header.
#[derive(Debug, PartialEq, Eq, Clone, Copy)]
pub enum MimeContentTransferEncoding {
    /// Message content is not encoded in any way.
    Identity,
    /// Content transferred using the quoted-printable encoding.
    QuotedPrintable,
    /// Content transferred as BASE64.
    Base64,
}

} // verus!
