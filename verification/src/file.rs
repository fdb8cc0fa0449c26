//! One servable resource: how a file is loaded into it, and the response it
//! gives to a request.

use crate::codec::{
    br_compress, brotli_encoding, gz_compress, gzip_encoding, is_utf8, xxh64, xxh64_oneshot,
};
use crate::content_type::{content_type_of_ext, ContentType};
use crate::extract::{is_unchanged, Encoding, IfNoneMatch};
use crate::response::{header, Header, HeaderName, HeaderView, Response, ResponseView};
use crate::status::StatusCode;
use crate::text::{chars_of, copy_range, decimal, lower_hex, push_decimal, push_lower_hex, string_of};
use crate::util::TotalSize;
use vstd::prelude::*;
use vstd::string::StrSliceExecFns;

verus! {

/// The seed under which file contents are hashed.
pub const FINGERPRINT_SEED: u64 = 0xc0ffee;

/// The position of the last `c` in `s`; -1 if `s` holds none.
pub open spec fn last_index_of(s: Seq<char>, c: char) -> int
    decreases s.len(),
{
    if s.len() == 0 {
        -1
    } else if s.last() == c {
        s.len() - 1
    } else {
        last_index_of(s.drop_last(), c)
    }
}

/// The last component of a path whose components are joined by `/`.
pub open spec fn file_name(path: Seq<char>) -> Seq<char> {
    path.subrange(last_index_of(path, '/') + 1, path.len() as int)
}

/// The extension of the file that a path names: what follows the last `.` of
/// the file name. A name without a `.`, or whose only `.` is its first
/// character, has none.
pub open spec fn file_extension(path: Seq<char>) -> Option<Seq<char>> {
    let name = file_name(path);
    let dot = last_index_of(name, '.');
    if dot <= 0 {
        None
    } else {
        Some(name.subrange(dot + 1, name.len() as int))
    }
}

/// The strong validator of a file: the hash of its bytes in lower-case
/// hexadecimal, between double quotes.
pub open spec fn fingerprint_of(contents: Seq<u8>) -> Seq<char> {
    seq!['"'] + lower_hex(xxh64(FINGERPRINT_SEED, contents) as nat) + seq!['"']
}

/// The stored body of a resource.
pub enum BodyView {
    /// The raw bytes of a file that is not compressible.
    Opaque(Seq<u8>),
    /// The text of a compressible file with its two precomputed encodings.
    Encoded { identity: Seq<u8>, gzip: Seq<u8>, brotli: Seq<u8> },
}

impl BodyView {
    /// The bytes of the file itself.
    pub open spec fn raw(self) -> Seq<u8> {
        match self {
            BodyView::Opaque(bytes) => bytes,
            BodyView::Encoded { identity, .. } => identity,
        }
    }
}

/// What a resource holds.
pub struct ResourceView {
    pub fingerprint: Seq<char>,
    pub media_type: ContentType,
    pub body: BodyView,
}

/// A resource is well formed when its fingerprint is that of its bytes, its
/// body is stored encoded exactly if its type is compressible, and an encoded
/// body is text that comes with its own gzip and brotli encodings.
pub open spec fn resource_wf(r: ResourceView) -> bool {
    &&& r.fingerprint == fingerprint_of(r.body.raw())
    &&& r.media_type.compressible() <==> r.body is Encoded
    &&& r.body matches BodyView::Encoded { identity, gzip, brotli } ==> {
        &&& vstd::utf8::valid_utf8(identity)
        &&& gzip == gzip_encoding(identity)
        &&& brotli == brotli_encoding(identity)
    }
}

/// The resource that the file at `rel_path` with the bytes `contents` loads
/// as; `None` where the file is skipped: its extension is missing or unknown,
/// or its type is compressible and its bytes are not UTF-8. Every other file
/// loads: one of a compressible type with both encodings of its text, one of
/// another type with its bytes as they are.
pub open spec fn loaded(rel_path: Seq<char>, contents: Seq<u8>) -> Option<ResourceView> {
    match file_extension(rel_path) {
        None => None,
        Some(ext) => match content_type_of_ext(ext) {
            None => None,
            Some(ty) => if !ty.compressible() {
                Some(
                    ResourceView {
                        fingerprint: fingerprint_of(contents),
                        media_type: ty,
                        body: BodyView::Opaque(contents),
                    },
                )
            } else if !vstd::utf8::valid_utf8(contents) {
                None
            } else {
                Some(
                    ResourceView {
                        fingerprint: fingerprint_of(contents),
                        media_type: ty,
                        body: BodyView::Encoded {
                            identity: contents,
                            gzip: gzip_encoding(contents),
                            brotli: brotli_encoding(contents),
                        },
                    },
                )
            },
        },
    }
}

/// The type of the file at `rel_path`, if its extension has one.
pub open spec fn type_of_path(rel_path: Seq<char>) -> Option<ContentType> {
    match file_extension(rel_path) {
        Some(ext) => content_type_of_ext(ext),
        None => None,
    }
}

/// A file is skipped if and only if its path has no extension with a type,
/// or its type is compressible and its bytes are not UTF-8. Every resource
/// that loads is well formed, has the type of its path and holds the bytes
/// of its file.
pub proof fn lemma_loaded(rel_path: Seq<char>, contents: Seq<u8>)
    ensures
        loaded(rel_path, contents) is None <==> (type_of_path(rel_path) matches Some(ty) ==> (
        ty.compressible() && !vstd::utf8::valid_utf8(contents))),
        loaded(rel_path, contents) matches Some(r) ==> resource_wf(r) && r.body.raw() == contents
            && Some(r.media_type) == type_of_path(rel_path),
{
}

/// The identity of the server in the `Server` header.
pub open spec fn server_name() -> Seq<char> {
    "a-blog-out-of-deep-space/0.1.0"@
}

/// The caching policy, the same for every resource.
pub open spec fn cache_policy() -> Seq<char> {
    "max-age=300"@
}

/// The headers that every response of a resource carries.
pub open spec fn base_headers(ty: ContentType) -> Seq<HeaderView> {
    seq![
        (HeaderName::Server, server_name()),
        (HeaderName::ContentType, ty.mime()),
        (HeaderName::CacheControl, cache_policy()),
    ]
}

/// The headers that describe the encodings of a full response. An opaque
/// body has none. An encoded body always advertises what it can be had in;
/// served compressed, it also names the encoding and says that the response
/// varies with the request's `Accept-Encoding`.
pub open spec fn encoding_headers(body: BodyView, encoding: Encoding) -> Seq<HeaderView> {
    match body {
        BodyView::Opaque(_) => Seq::empty(),
        BodyView::Encoded { .. } => match encoding.content_encoding() {
            None => seq![(HeaderName::AcceptEncoding, Encoding::all_encodings())],
            Some(name) => seq![
                (HeaderName::AcceptEncoding, Encoding::all_encodings()),
                (HeaderName::Vary, HeaderName::AcceptEncoding.text()),
                (HeaderName::ContentEncoding, name),
            ],
        },
    }
}

/// The bytes that a full response carries under `encoding`.
pub open spec fn selected_body(body: BodyView, encoding: Encoding) -> Seq<u8> {
    match body {
        BodyView::Opaque(bytes) => bytes,
        BodyView::Encoded { identity, gzip, brotli } => match encoding {
            Encoding::Identity => identity,
            Encoding::Gzip => gzip,
            Encoding::Brotli => brotli,
        },
    }
}

/// The response of a resource to a request that negotiated `encoding` and
/// sent the validator `if_none_match`: 304 without a body where the
/// validator matches, else 200 with the selected body, its length and the
/// fingerprint.
pub open spec fn response_of(
    r: ResourceView,
    encoding: Encoding,
    if_none_match: Option<Seq<char>>,
) -> ResponseView {
    if is_unchanged(if_none_match, r.fingerprint) {
        ResponseView { status: 304, headers: base_headers(r.media_type), body: Seq::empty() }
    } else {
        let body = selected_body(r.body, encoding);
        ResponseView {
            status: 200,
            headers: base_headers(r.media_type) + encoding_headers(r.body, encoding) + seq![
                (HeaderName::ETag, r.fingerprint),
                (HeaderName::ContentLength, decimal(body.len())),
            ],
            body,
        }
    }
}

/// `headers` has exactly one header called `name`, and its value is `value`.
pub open spec fn only_header(headers: Seq<HeaderView>, name: HeaderName, value: Seq<char>) -> bool {
    exists|i: int|
        0 <= i < headers.len() && #[trigger] headers[i] == (name, value) && forall|j: int|
            0 <= j < headers.len() && (#[trigger] headers[j]).0 == name ==> j == i
}

/// A compressed body is the encoding of the unencoded one: for a well-formed
/// compressible resource, the body served under gzip is the gzip stream of
/// the body served under identity, and the body served under brotli is its
/// brotli stream.
pub proof fn lemma_compressed_body_encodes_identity_body(r: ResourceView)
    requires
        resource_wf(r),
        r.media_type.compressible(),
    ensures
        response_of(r, Encoding::Gzip, None).body == gzip_encoding(
            response_of(r, Encoding::Identity, None).body,
        ),
        response_of(r, Encoding::Brotli, None).body == brotli_encoding(
            response_of(r, Encoding::Identity, None).body,
        ),
{
}

/// The fingerprint depends on the bytes of a file and on nothing else: two
/// files with the same bytes load with the same fingerprint, whatever their
/// paths and types.
pub proof fn lemma_fingerprint_depends_on_bytes_alone(
    path_a: Seq<char>,
    path_b: Seq<char>,
    contents: Seq<u8>,
)
    ensures
        loaded(path_a, contents) matches Some(a) ==> a.fingerprint == fingerprint_of(contents),
        loaded(path_a, contents) is Some && loaded(path_b, contents) is Some ==> loaded(
            path_a,
            contents,
        ).unwrap().fingerprint == loaded(path_b, contents).unwrap().fingerprint,
{
}

/// Revalidation. A request whose validator does not match gets a full
/// response: status 200 with exactly one `ETag`, the fingerprint. A request
/// that sends that fingerprint back gets 304 with an empty body and the
/// three fixed headers alone, whatever encoding it negotiated: no `ETag`,
/// no `Content-Length`, nothing about encodings.
pub proof fn lemma_revalidation(
    r: ResourceView,
    first_encoding: Encoding,
    first_validator: Option<Seq<char>>,
    second_encoding: Encoding,
)
    requires
        !is_unchanged(first_validator, r.fingerprint),
    ensures
        ({
            let first = response_of(r, first_encoding, first_validator);
            let second = response_of(r, second_encoding, Some(r.fingerprint));
            &&& first.status == 200
            &&& only_header(first.headers, HeaderName::ETag, r.fingerprint)
            &&& second.status == 304
            &&& second.body.len() == 0
            &&& second.headers == base_headers(r.media_type)
            &&& !crate::response::has_header(second.headers, HeaderName::ETag)
            &&& !crate::response::has_header(second.headers, HeaderName::ContentLength)
            &&& !crate::response::has_header(second.headers, HeaderName::ContentEncoding)
            &&& !crate::response::has_header(second.headers, HeaderName::AcceptEncoding)
            &&& !crate::response::has_header(second.headers, HeaderName::Vary)
        }),
{
    let first = response_of(r, first_encoding, first_validator);
    let head = base_headers(r.media_type) + encoding_headers(r.body, first_encoding);
    let at = head.len() as int;
    assert(first.headers[at] == (HeaderName::ETag, r.fingerprint));
    assert forall|j: int| 0 <= j < first.headers.len() && (#[trigger] first.headers[j]).0
        == HeaderName::ETag implies j == at by {
        if j < 3 {
            assert(first.headers[j] == base_headers(r.media_type)[j]);
        } else if j < at {
            assert(first.headers[j] == encoding_headers(r.body, first_encoding)[j - 3]);
        }
    }
}

/// A full response of a compressible resource always advertises the
/// encodings it can be had in, and names the one it is in unless that is
/// identity.
pub proof fn lemma_full_response_advertises_encodings(
    r: ResourceView,
    encoding: Encoding,
    validator: Option<Seq<char>>,
)
    requires
        r.body is Encoded,
        !is_unchanged(validator, r.fingerprint),
    ensures
        ({
            let headers = response_of(r, encoding, validator).headers;
            &&& only_header(headers, HeaderName::AcceptEncoding, Encoding::all_encodings())
            &&& encoding.content_encoding() matches Some(name) ==> only_header(
                headers,
                HeaderName::ContentEncoding,
                name,
            )
            &&& encoding.content_encoding() is None ==> !crate::response::has_header(
                headers,
                HeaderName::ContentEncoding,
            )
        }),
{
    let headers = response_of(r, encoding, validator).headers;
    let extra = encoding_headers(r.body, encoding);
    assert(headers[3] == extra[0]);
    assert forall|j: int| 0 <= j < headers.len() implies (#[trigger] headers[j]).0 == (if j < 3 {
        base_headers(r.media_type)[j].0
    } else if j < 3 + extra.len() {
        extra[j - 3].0
    } else if j == 3 + extra.len() {
        HeaderName::ETag
    } else {
        HeaderName::ContentLength
    }) by {}
    if encoding.content_encoding() is Some {
        assert(headers[5] == extra[2]);
    }
}

/// Compression gained little: an encoding is longer than nine tenths of the
/// text it encodes.
pub open spec fn poor_compression(body: BodyView) -> bool {
    match body {
        BodyView::Opaque(_) => false,
        BodyView::Encoded { identity, gzip, brotli } => 10 * gzip.len() > 9 * identity.len() || 10
            * brotli.len() > 9 * identity.len(),
    }
}

/// The bytes that a resource keeps in memory: the characters of its
/// fingerprint, one for its type, and every stored form of its body.
pub open spec fn resource_size(r: ResourceView) -> nat {
    r.fingerprint.len() + 1 + match r.body {
        BodyView::Opaque(bytes) => bytes.len(),
        BodyView::Encoded { identity, gzip, brotli } => identity.len() + gzip.len() + brotli.len(),
    }
}

/// The view of an optional resource.
pub open spec fn resource_of(file: Option<ServedFile>) -> Option<ResourceView> {
    match file {
        Some(f) => Some(f@),
        None => None,
    }
}

/// The validator that a request sent, if it sent one.
pub open spec fn validator_of(if_none_match: Option<IfNoneMatch>) -> Option<Seq<char>> {
    match if_none_match {
        Some(tag) => Some(tag.0@),
        None => None,
    }
}

/// The position of the last `c` in `s`, if `s` holds one.
pub fn rfind(s: &[char], c: char) -> (at: Option<usize>)
    ensures
        match at {
            Some(i) => last_index_of(s@, c) == i && i < s.len() && s@[i as int] == c,
            None => last_index_of(s@, c) == -1,
        },
{
    let mut i: usize = s.len();
    assert(s@.subrange(0, i as int) == s@);
    while i > 0
        invariant
            i <= s.len(),
            last_index_of(s@, c) == last_index_of(s@.subrange(0, i as int), c),
        decreases i,
    {
        let ghost prefix = s@.subrange(0, i as int);
        assert(prefix.last() == s@[i - 1]);
        assert(prefix.drop_last() == s@.subrange(0, i - 1));
        if s[i - 1] == c {
            return Some(i - 1);
        }
        i -= 1;
    }
    None
}

/// The extension of the file that `path` names, if it has one.
pub fn extension_of(path: &[char]) -> (ext: Option<Vec<char>>)
    ensures
        match ext {
            Some(e) => file_extension(path@) == Some(e@),
            None => file_extension(path@) is None,
        },
{
    let start: usize = match rfind(path, '/') {
        Some(slash) => slash + 1,
        None => 0,
    };
    let name = copy_range(path, start, path.len());
    match rfind(name.as_slice(), '.') {
        Some(dot) => {
            if dot == 0 {
                None
            } else {
                Some(copy_range(name.as_slice(), dot + 1, name.len()))
            }
        },
        None => None,
    }
}

/// Computes the fingerprint of a file's bytes.
pub fn fingerprint(contents: &[u8]) -> (tag: String)
    ensures
        tag@ == fingerprint_of(contents@),
{
    let hash = xxh64_oneshot(FINGERPRINT_SEED, contents);
    let mut chars: Vec<char> = Vec::new();
    chars.push('"');
    push_lower_hex(&mut chars, hash);
    chars.push('"');
    assert(chars@ == fingerprint_of(contents@));
    string_of(&chars)
}

/// The text of a compressible file, with the encodings computed when it was
/// loaded.
struct TextFile {
    gz_compressed: Vec<u8>,
    br_compressed: Vec<u8>,
    contents: Vec<u8>,
}

/// The stored body of a resource.
enum File {
    Data(Vec<u8>),
    Text(TextFile),
}

impl File {
    spec fn body(self) -> BodyView {
        match self {
            File::Data(bytes) => BodyView::Opaque(bytes@),
            File::Text(text) => BodyView::Encoded {
                identity: text.contents@,
                gzip: text.gz_compressed@,
                brotli: text.br_compressed@,
            },
        }
    }
}

/// A copy of `bytes`.
fn copy_bytes(bytes: &Vec<u8>) -> (copy: Vec<u8>)
    ensures
        copy@ == bytes@,
{
    let mut copy: Vec<u8> = Vec::with_capacity(bytes.len());
    let mut i: usize = 0;
    while i < bytes.len()
        invariant
            i <= bytes.len(),
            copy@ == bytes@.subrange(0, i as int),
        decreases bytes.len() - i,
    {
        copy.push(bytes[i]);
        i += 1;
    }
    assert(bytes@.subrange(0, i as int) == bytes@);
    copy
}

impl TextFile {
    /// Puts text together with its two encodings.
    fn from_text(contents: Vec<u8>) -> (text: Option<TextFile>)
        ensures
            text matches Some(t) && t.contents@ == contents@ && t.gz_compressed@ == gzip_encoding(
                contents@,
            ) && t.br_compressed@ == brotli_encoding(contents@),
    {
        let gz_compressed = gz_compress(contents.as_slice());
        let br_compressed = br_compress(contents.as_slice());
        match (gz_compressed, br_compressed) {
            (Some(gz_compressed), Some(br_compressed)) => Some(
                TextFile { gz_compressed, br_compressed, contents },
            ),
            _ => None,
        }
    }

    /// Adds the headers that describe the encodings of a full response.
    fn setup_headers(&self, headers: &mut Vec<Header>, encoding: Encoding)
        ensures
            crate::response::header_views(final(headers)@) == crate::response::header_views(
                old(headers)@,
            ) + encoding_headers(File::Text(*self).body(), encoding),
    {
        let ghost before = crate::response::header_views(headers@);
        headers.push(header(HeaderName::AcceptEncoding, "gzip, br"));
        match encoding.into_content_encoding_value() {
            Some(content_encoding) => {
                headers.push(header(HeaderName::Vary, HeaderName::AcceptEncoding.as_str()));
                headers.push(header(HeaderName::ContentEncoding, content_encoding));
            },
            None => {},
        }
        assert(crate::response::header_views(headers@) == before + encoding_headers(
            File::Text(*self).body(),
            encoding,
        ));
    }

    /// The bytes that a full response carries under `encoding`.
    fn select_body_bytes(&self, encoding: Encoding) -> (bytes: Vec<u8>)
        ensures
            bytes@ == selected_body(File::Text(*self).body(), encoding),
    {
        match encoding {
            Encoding::Gzip => copy_bytes(&self.gz_compressed),
            Encoding::Brotli => copy_bytes(&self.br_compressed),
            Encoding::Identity => copy_bytes(&self.contents),
        }
    }
}

/// A loaded resource. It is built once, by `load`, and never changes.
pub struct ServedFile {
    e_tag: String,
    ty: ContentType,
    file: File,
}

impl View for ServedFile {
    type V = ResourceView;

    closed spec fn view(&self) -> ResourceView {
        ResourceView { fingerprint: self.e_tag@, media_type: self.ty, body: self.file.body() }
    }
}

impl ServedFile {
    #[verifier::type_invariant]
    spec fn well_formed(self) -> bool {
        resource_wf(self@)
    }

    /// Loads the file at the root-relative path `rel_path` from its bytes.
    /// A file that cannot be served is skipped: one whose extension has no
    /// type, and one of a compressible type whose bytes are not UTF-8. Every
    /// other file loads.
    pub fn load(rel_path: &str, contents: Vec<u8>) -> (file: Option<ServedFile>)
        ensures
            resource_of(file) == loaded(rel_path@, contents@),
            file matches Some(f) ==> resource_wf(f@),
    {
        let path = chars_of(rel_path);
        let ext = match extension_of(path.as_slice()) {
            Some(ext) => ext,
            None => {
                return None;
            },
        };
        let ty = match ContentType::from_ext_chars(ext.as_slice()) {
            Some(ty) => ty,
            None => {
                return None;
            },
        };
        let e_tag = fingerprint(contents.as_slice());
        let file = if ty.is_compressible() {
            if !is_utf8(contents.as_slice()) {
                return None;
            }
            match TextFile::from_text(contents) {
                Some(text) => File::Text(text),
                None => {
                    return None;
                },
            }
        } else {
            File::Data(contents)
        };
        Some(ServedFile { e_tag, ty, file })
    }

    /// The fingerprint, as it stands in an `ETag` header.
    pub fn e_tag(&self) -> (tag: &str)
        ensures
            tag@ == self@.fingerprint,
    {
        self.e_tag.as_str()
    }

    /// The media type.
    pub fn content_type(&self) -> (ty: ContentType)
        ensures
            ty == self@.media_type,
    {
        self.ty
    }

    /// Whether compression gained little: the resource has encodings, and
    /// one of them is longer than nine tenths of the text.
    pub fn poorly_compressed(&self) -> (poor: bool)
        ensures
            poor == poor_compression(self@.body),
    {
        match &self.file {
            File::Data(_) => false,
            File::Text(text) => {
                let source: u128 = text.contents.len() as u128;
                let gz: u128 = text.gz_compressed.len() as u128;
                let br: u128 = text.br_compressed.len() as u128;
                10 * gz > 9 * source || 10 * br > 9 * source
            },
        }
    }

    /// The response to a request that negotiated `encoding` and sent the
    /// validator `if_none_match`.
    pub fn to_response(&self, encoding: Encoding, if_none_match: Option<IfNoneMatch>) -> (response:
        Response)
        ensures
            response@ == response_of(self@, encoding, validator_of(if_none_match)),
    {
        let mut headers: Vec<Header> = Vec::new();
        headers.push(header(HeaderName::Server, "a-blog-out-of-deep-space/0.1.0"));
        headers.push(header(HeaderName::ContentType, self.ty.into_header_value()));
        headers.push(header(HeaderName::CacheControl, "max-age=300"));
        assert(crate::response::header_views(headers@) == base_headers(self.ty));
        let unchanged = match &if_none_match {
            Some(client_tag) => client_tag.matches(self.e_tag.as_str()),
            None => false,
        };
        if unchanged {
            Response { status: StatusCode::not_modified(), headers, body: Vec::new() }
        } else {
            let body = match &self.file {
                File::Data(bytes) => copy_bytes(bytes),
                File::Text(text) => {
                    text.setup_headers(&mut headers, encoding);
                    text.select_body_bytes(encoding)
                },
            };
            let ghost before = crate::response::header_views(headers@);
            let mut length: Vec<char> = Vec::new();
            push_decimal(&mut length, body.len());
            let length = string_of(&length);
            headers.push(Header { name: HeaderName::ETag, value: self.e_tag.clone() });
            headers.push(Header { name: HeaderName::ContentLength, value: length });
            assert(crate::response::header_views(headers@) == before + seq![
                (HeaderName::ETag, self.e_tag@),
                (HeaderName::ContentLength, decimal(body@.len())),
            ]);
            Response { status: StatusCode::ok(), headers, body }
        }
    }
}

impl TotalSize for ServedFile {
    open spec fn size(&self) -> nat {
        resource_size(self@)
    }

    fn total_size(&self) -> (n: usize) {
        let tag: usize = self.e_tag.as_str().unicode_len();
        let body: usize = match &self.file {
            File::Data(bytes) => bytes.len(),
            File::Text(text) => {
                let plain: usize = text.contents.len();
                let both: usize = plain.saturating_add(text.gz_compressed.len());
                both.saturating_add(text.br_compressed.len())
            },
        };
        let head: usize = tag.saturating_add(1);
        head.saturating_add(body)
    }
}

} // verus!
