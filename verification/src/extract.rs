//! What a request says about the response it wants: the encoding it accepts
//! and the validator it already holds.

use crate::content_type::is_text;
use crate::text::{chars_of, trim, trimmed};
use vstd::prelude::*;

verus! {

/// A content encoding that a resource can be served in.
#[derive(Clone, Copy, Debug, PartialEq, Eq, Structural)]
pub enum Encoding {
    Identity,
    Gzip,
    Brotli,
}

/// The encoding that a token names, if it names one of the supported set.
pub open spec fn encoding_of_name(name: Seq<char>) -> Option<Encoding> {
    if name == "identity"@ {
        Some(Encoding::Identity)
    } else if name == "gzip"@ {
        Some(Encoding::Gzip)
    } else if name == "br"@ {
        Some(Encoding::Brotli)
    } else {
        None
    }
}

/// The number of characters of `s` in front of its first comma (all of them
/// if it has none).
pub open spec fn first_comma(s: Seq<char>) -> nat
    decreases s.len(),
{
    if s.len() == 0 || s[0] == ',' {
        0
    } else {
        1 + first_comma(s.subrange(1, s.len() as int))
    }
}

/// What one comma-separated piece of an `Accept-Encoding` value asks for:
/// the piece is trimmed; one that holds a `;` is dropped, quality values
/// being unsupported; what is left must name a supported encoding.
pub open spec fn token_encoding(token: Seq<char>) -> Option<Encoding> {
    let name = trim(token);
    if name.contains(';') {
        None
    } else {
        encoding_of_name(name)
    }
}

/// The first piece of `header`, in header order, that asks for a supported
/// encoding.
pub open spec fn first_accepted(header: Seq<char>) -> Option<Encoding>
    decreases header.len(),
{
    let end = first_comma(header) as int;
    match token_encoding(header.subrange(0, end)) {
        Some(e) => Some(e),
        None => if end < header.len() {
            first_accepted(header.subrange(end + 1, header.len() as int))
        } else {
            None
        },
    }
}

/// The encoding negotiated for a request: the first acceptable piece of its
/// `Accept-Encoding` header; `identity` where the header is absent or holds
/// no usable piece.
pub open spec fn negotiated(header: Option<Seq<char>>) -> Encoding {
    match header {
        Some(h) => match first_accepted(h) {
            Some(e) => e,
            None => Encoding::Identity,
        },
        None => Encoding::Identity,
    }
}

/// The characters of a header value, if the header is there.
pub open spec fn header_text(header: Option<&str>) -> Option<Seq<char>> {
    match header {
        Some(h) => Some(h@),
        None => None,
    }
}

/// A supported encoding's name holds no `;`, so dropping the pieces with a
/// `;` never drops one that would have parsed.
pub proof fn lemma_names_hold_no_semicolon(name: Seq<char>)
    requires
        encoding_of_name(name) is Some,
    ensures
        !name.contains(';'),
{
    reveal_strlit("identity");
    reveal_strlit("gzip");
    reveal_strlit("br");
    if name.contains(';') {
        let i = choose|i: int| 0 <= i < name.len() && name[i] == ';';
        assert(name[i] == ';');
    }
}

impl Default for Encoding {
    fn default() -> (e: Encoding)
        ensures
            e == Encoding::Identity,
    {
        Encoding::Identity
    }
}

impl Encoding {
    /// The encodings that a compressible resource advertises.
    pub open spec fn all_encodings() -> Seq<char> {
        "gzip, br"@
    }

    /// The name of the encoding in a `Content-Encoding` header; `identity`
    /// has none.
    pub open spec fn content_encoding(self) -> Option<Seq<char>> {
        match self {
            Encoding::Identity => None,
            Encoding::Gzip => Some("gzip"@),
            Encoding::Brotli => Some("br"@),
        }
    }

    /// The value of the `Content-Encoding` header for this encoding, if it
    /// gets one.
    pub fn into_content_encoding_value(self) -> (value: Option<&'static str>)
        ensures
            value is Some == self.content_encoding() is Some,
            value matches Some(v) ==> Some(v@) == self.content_encoding(),
    {
        match self {
            Encoding::Identity => None,
            Encoding::Gzip => Some("gzip"),
            Encoding::Brotli => Some("br"),
        }
    }

    /// Parses the name of an encoding given as characters.
    pub fn from_name_chars(name: &[char]) -> (e: Option<Encoding>)
        ensures
            e == encoding_of_name(name@),
    {
        if is_text(name, "identity") {
            Some(Encoding::Identity)
        } else if is_text(name, "gzip") {
            Some(Encoding::Gzip)
        } else if is_text(name, "br") {
            Some(Encoding::Brotli)
        } else {
            None
        }
    }

    /// Parses the exact name of an encoding: `identity`, `gzip` or `br`.
    pub fn from_str(s: &str) -> (r: Result<Encoding, ()>)
        ensures
            r is Ok == encoding_of_name(s@) is Some,
            r matches Ok(e) ==> Some(e) == encoding_of_name(s@),
    {
        let chars = chars_of(s);
        match Encoding::from_name_chars(chars.as_slice()) {
            Some(e) => Ok(e),
            None => Err(()),
        }
    }

    /// Picks the encoding of a response from the request's `Accept-Encoding`
    /// header, if it has one.
    pub fn from_accept_encoding(header: Option<&str>) -> (e: Encoding)
        ensures
            e == negotiated(header_text(header)),
    {
        let h = match header {
            Some(h) => chars_of(h),
            None => {
                return Encoding::Identity;
            },
        };
        let n: usize = h.len();
        let mut start: usize = 0;
        assert(h@.subrange(0, n as int) == h@);
        loop
            invariant
                start <= n == h.len(),
                header matches Some(text) && text@ == h@,
                first_accepted(h@) == first_accepted(h@.subrange(start as int, n as int)),
            decreases n - start,
        {
            let ghost rest = h@.subrange(start as int, n as int);
            let mut end: usize = start;
            assert(rest.subrange(0, rest.len() as int) == rest);
            while end < n && h[end] != ','
                invariant
                    start <= end <= n == h.len(),
                    rest == h@.subrange(start as int, n as int),
                    first_comma(rest) == (end - start) + first_comma(
                        rest.subrange(end - start, rest.len() as int),
                    ),
                decreases n - end,
            {
                let ghost tail = rest.subrange(end - start, rest.len() as int);
                assert(tail[0] == h@[end as int]);
                assert(tail.subrange(1, tail.len() as int) == rest.subrange(
                    end + 1 - start,
                    rest.len() as int,
                ));
                end += 1;
            }
            proof {
                let tail = rest.subrange(end - start, rest.len() as int);
                if end < n {
                    assert(tail[0] == h@[end as int]);
                }
                assert(first_comma(rest) == end - start);
                assert(rest.subrange(0, end - start) == h@.subrange(start as int, end as int));
            }
            let name = trimmed(h.as_slice(), start, end);
            let found = Encoding::from_name_chars(name.as_slice());
            proof {
                if found is Some {
                    lemma_names_hold_no_semicolon(name@);
                }
            }
            match found {
                Some(e) => {
                    return e;
                },
                None => {},
            }
            if end >= n {
                return Encoding::Identity;
            }
            assert(rest.subrange(end - start + 1, rest.len() as int) == h@.subrange(
                end + 1,
                n as int,
            ));
            start = end + 1;
        }
    }
}

/// The validator that a client sent in `If-None-Match`.
pub struct IfNoneMatch(pub String);

/// Whether the client's copy is current: only if it sent a validator, and
/// that validator is the fingerprint character for character.
pub open spec fn is_unchanged(client: Option<Seq<char>>, fingerprint: Seq<char>) -> bool {
    client == Some(fingerprint)
}

impl IfNoneMatch {
    /// Whether this validator equals `fingerprint` exactly.
    pub fn matches(&self, fingerprint: &str) -> (r: bool)
        ensures
            r == (self.0@ == fingerprint@),
    {
        crate::text::str_eq(self.0.as_str(), fingerprint)
    }
}

} // verus!
