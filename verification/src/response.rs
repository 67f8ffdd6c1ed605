//! The head of an HTTP response: a status code and an ordered list of header
//! lines.
use vstd::prelude::*;

verus! {

/// The names of the headers that this crate writes.
#[derive(Clone, Copy, Debug, PartialEq, Eq, Structural)]
pub enum HeaderName {
    ContentType,
    ContentEncoding,
    LastModified,
    AccessControlAllowOrigin,
    AccessControlAllowMethods,
    AccessControlAllowHeaders,
    AccessControlAllowCredentials,
    AccessControlMaxAge,
}

impl HeaderName {
    /// The name as it stands on the wire.
    pub fn as_str(&self) -> (text: &'static str)
        ensures
            text@ == match *self {
                HeaderName::ContentType => "Content-Type"@,
                HeaderName::ContentEncoding => "Content-Encoding"@,
                HeaderName::LastModified => "Last-Modified"@,
                HeaderName::AccessControlAllowOrigin => "Access-Control-Allow-Origin"@,
                HeaderName::AccessControlAllowMethods => "Access-Control-Allow-Methods"@,
                HeaderName::AccessControlAllowHeaders => "Access-Control-Allow-Headers"@,
                HeaderName::AccessControlAllowCredentials => "Access-Control-Allow-Credentials"@,
                HeaderName::AccessControlMaxAge => "Access-Control-Max-Age"@,
            },
    {
        match self {
            HeaderName::ContentType => "Content-Type",
            HeaderName::ContentEncoding => "Content-Encoding",
            HeaderName::LastModified => "Last-Modified",
            HeaderName::AccessControlAllowOrigin => "Access-Control-Allow-Origin",
            HeaderName::AccessControlAllowMethods => "Access-Control-Allow-Methods",
            HeaderName::AccessControlAllowHeaders => "Access-Control-Allow-Headers",
            HeaderName::AccessControlAllowCredentials => "Access-Control-Allow-Credentials",
            HeaderName::AccessControlMaxAge => "Access-Control-Max-Age",
        }
    }
}

/// One header line.
#[derive(Clone, Debug, PartialEq, Eq)]
pub struct Header {
    pub name: HeaderName,
    pub value: String,
}

impl View for Header {
    type V = (HeaderName, Seq<char>);

    open spec fn view(&self) -> (HeaderName, Seq<char>) {
        (self.name, self.value@)
    }
}

/// The lines that a list of headers holds, in order.
pub open spec fn lines(headers: Seq<Header>) -> Seq<(HeaderName, Seq<char>)> {
    Seq::new(headers.len(), |i: int| headers[i]@)
}

/// Adding a header to the list adds its line to the lines.
pub proof fn lemma_lines_push(headers: Seq<Header>, header: Header)
    ensures
        lines(headers.push(header)) == lines(headers).push(header@),
{
    assert(lines(headers.push(header)) =~= lines(headers).push(header@));
}

/// Whether some line of the list carries the name `name`.
pub open spec fn has_header(all: Seq<(HeaderName, Seq<char>)>, name: HeaderName) -> bool {
    exists|i: int| 0 <= i < all.len() && (#[trigger] all[i]).0 == name
}

/// The head of a response.
#[derive(Clone, Debug, PartialEq, Eq)]
pub struct ResponseHead {
    pub status: u16,
    pub headers: Vec<Header>,
}

/// A response head as a plain value.
pub struct HeadView {
    pub status: int,
    pub headers: Seq<(HeaderName, Seq<char>)>,
}

impl View for ResponseHead {
    type V = HeadView;

    open spec fn view(&self) -> HeadView {
        HeadView { status: self.status as int, headers: lines(self.headers@) }
    }
}

impl ResponseHead {
    /// A head with the given status and no header.
    pub fn bare(status: u16) -> (head: ResponseHead)
        ensures
            head@.status == status,
            head@.headers == Seq::<(HeaderName, Seq<char>)>::empty(),
    {
        let head = ResponseHead { status, headers: Vec::new() };
        proof {
            assert(lines(head.headers@) =~= Seq::<(HeaderName, Seq<char>)>::empty());
        }
        head
    }

    /// The value of the first header named `name`, if there is one.
    pub fn header(&self, name: HeaderName) -> (value: Option<String>)
        ensures
            value is Some <==> has_header(self@.headers, name),
            value matches Some(v) ==> exists|i: int|
                0 <= i < self@.headers.len() && #[trigger] self@.headers[i] == (name, v@) && forall|
                    j: int,
                | 0 <= j < i ==> (#[trigger] self@.headers[j]).0 != name,
    {
        let mut i: usize = 0;
        while i < self.headers.len()
            invariant
                i <= self.headers.len(),
                forall|j: int| 0 <= j < i ==> (#[trigger] self@.headers[j]).0 != name,
            decreases self.headers.len() - i,
        {
            if self.headers[i].name == name {
                let value = self.headers[i].value.clone();
                proof {
                    assert(self@.headers[i as int] == (name, value@));
                }
                return Some(value);
            }
            i += 1;
        }
        None
    }
}

} // verus!
