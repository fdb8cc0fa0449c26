//! The responses that the library hands out, as plain values: a status, an
//! ordered list of headers and a body.

use crate::status::StatusCode;
use vstd::prelude::*;

verus! {

/// The headers that responses carry.
#[derive(Clone, Copy, Debug, PartialEq, Eq, Structural)]
pub enum HeaderName {
    Server,
    ContentType,
    CacheControl,
    AcceptEncoding,
    Vary,
    ContentEncoding,
    ETag,
    ContentLength,
}

impl HeaderName {
    /// The name as it is written in a response, in lower case.
    pub open spec fn text(self) -> Seq<char> {
        match self {
            HeaderName::Server => "server"@,
            HeaderName::ContentType => "content-type"@,
            HeaderName::CacheControl => "cache-control"@,
            HeaderName::AcceptEncoding => "accept-encoding"@,
            HeaderName::Vary => "vary"@,
            HeaderName::ContentEncoding => "content-encoding"@,
            HeaderName::ETag => "etag"@,
            HeaderName::ContentLength => "content-length"@,
        }
    }

    /// The name as it is written in a response, in lower case.
    pub fn as_str(self) -> (name: &'static str)
        ensures
            name@ == self.text(),
    {
        match self {
            HeaderName::Server => "server",
            HeaderName::ContentType => "content-type",
            HeaderName::CacheControl => "cache-control",
            HeaderName::AcceptEncoding => "accept-encoding",
            HeaderName::Vary => "vary",
            HeaderName::ContentEncoding => "content-encoding",
            HeaderName::ETag => "etag",
            HeaderName::ContentLength => "content-length",
        }
    }
}

/// One header of a response.
pub struct Header {
    pub name: HeaderName,
    pub value: String,
}

/// A header as a pair of its name and the characters of its value.
pub type HeaderView = (HeaderName, Seq<char>);

impl View for Header {
    type V = HeaderView;

    open spec fn view(&self) -> HeaderView {
        (self.name, self.value@)
    }
}

/// A response.
pub struct Response {
    pub status: StatusCode,
    pub headers: Vec<Header>,
    pub body: Vec<u8>,
}

/// What a response holds.
pub struct ResponseView {
    pub status: u16,
    pub headers: Seq<HeaderView>,
    pub body: Seq<u8>,
}

/// The views of a list of headers, in order.
pub open spec fn header_views(headers: Seq<Header>) -> Seq<HeaderView> {
    Seq::new(headers.len(), |i: int| headers[i]@)
}

impl View for Response {
    type V = ResponseView;

    open spec fn view(&self) -> ResponseView {
        ResponseView {
            status: self.status@,
            headers: header_views(self.headers@),
            body: self.body@,
        }
    }
}

/// `headers` without the headers called `name`, the others in their order.
pub open spec fn without(headers: Seq<HeaderView>, name: HeaderName) -> Seq<HeaderView>
    decreases headers.len(),
{
    if headers.len() == 0 {
        headers
    } else if headers.last().0 == name {
        without(headers.drop_last(), name)
    } else {
        without(headers.drop_last(), name).push(headers.last())
    }
}

/// Whether some header of `headers` is called `name`.
pub open spec fn has_header(headers: Seq<HeaderView>, name: HeaderName) -> bool {
    exists|i: int| 0 <= i < headers.len() && (#[trigger] headers[i]).0 == name
}

/// Removing a name leaves no header of that name, and keeps the presence of
/// every other name.
pub proof fn lemma_without(headers: Seq<HeaderView>, name: HeaderName, other: HeaderName)
    ensures
        !has_header(without(headers, name), name),
        other != name ==> (has_header(without(headers, name), other) <==> has_header(
            headers,
            other,
        )),
    decreases headers.len(),
{
    if headers.len() > 0 {
        let init = headers.drop_last();
        lemma_without(init, name, other);
        let out = without(headers, name);
        if has_header(out, name) {
            let i = choose|i: int| 0 <= i < out.len() && (#[trigger] out[i]).0 == name;
            if headers.last().0 != name && i < out.len() - 1 {
                assert(without(init, name)[i] == out[i]);
            }
            assert(false);
        }
        if other != name {
            if has_header(out, other) {
                let i = choose|i: int| 0 <= i < out.len() && (#[trigger] out[i]).0 == other;
                if headers.last().0 != name && i == out.len() - 1 {
                    assert(headers[headers.len() - 1].0 == other);
                } else {
                    assert(without(init, name)[i].0 == other);
                    let j = choose|j: int| 0 <= j < init.len() && (#[trigger] init[j]).0 == other;
                    assert(headers[j].0 == other);
                }
            }
            if has_header(headers, other) {
                let i = choose|i: int| 0 <= i < headers.len() && (#[trigger] headers[i]).0 == other;
                if i == headers.len() - 1 {
                    assert(out[out.len() - 1].0 == other);
                } else {
                    assert(init[i].0 == other);
                    let w = without(init, name);
                    let j = choose|j: int| 0 <= j < w.len() && (#[trigger] w[j]).0 == other;
                    assert(out[j].0 == other);
                }
            }
        }
    }
}

/// A header with the given name and value.
pub fn header(name: HeaderName, value: &str) -> (h: Header)
    ensures
        h@ == (name, value@),
{
    Header { name, value: value.to_owned() }
}

/// Drops the headers called `name` from `headers`.
pub fn remove_header(headers: &mut Vec<Header>, name: HeaderName)
    ensures
        header_views(final(headers)@) == without(header_views(old(headers)@), name),
{
    let mut kept: Vec<Header> = Vec::new();
    let mut i: usize = 0;
    let ghost all = header_views(headers@);
    assert(all.subrange(0, 0) == Seq::<HeaderView>::empty());
    while i < headers.len()
        invariant
            i <= headers.len(),
            headers@ == old(headers)@,
            all == header_views(headers@),
            header_views(kept@) == without(all.subrange(0, i as int), name),
        decreases headers.len() - i,
    {
        let ghost before = header_views(kept@);
        assert(all.subrange(0, i + 1).drop_last() == all.subrange(0, i as int));
        assert(all.subrange(0, i + 1).last() == headers@[i as int]@);
        if headers[i].name != name {
            let copy = Header { name: headers[i].name, value: headers[i].value.clone() };
            kept.push(copy);
            assert(header_views(kept@) == before.push(headers@[i as int]@));
        }
        i += 1;
    }
    assert(all.subrange(0, i as int) == all);
    *headers = kept;
}

} // verus!
