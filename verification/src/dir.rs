//! The site: every loaded resource under the paths that lead to it, and the
//! pages that stand for status codes.

use crate::codec::{brotli_encoding, gzip_encoding};
use crate::content_type::{content_type_of_ext, ContentType};
use crate::extract::{negotiated, Encoding, IfNoneMatch};
use crate::file::{
    file_name, last_index_of, lemma_loaded, loaded, resource_wf, response_of, rfind, validator_of,
    ResourceView, ServedFile,
};
use crate::pages::StatusPages;
use crate::response::{has_header, lemma_without, without, HeaderName, HeaderView, Response, ResponseView};
use crate::router::{status_code_page, status_page_response};
use crate::status::{status_code_of, StatusCode};
use crate::text::{append_chars, chars_eq, chars_of, copy_range, ends_with, has_suffix};
use vstd::prelude::*;

verus! {

/// A file as it was read: its root-relative path, the components joined by
/// `/`, and its bytes.
pub struct SourceFile {
    pub rel_path: String,
    pub contents: Vec<u8>,
}

/// A source file as a pair of its path and its bytes.
pub type SourceView = (Seq<char>, Seq<u8>);

impl View for SourceFile {
    type V = SourceView;

    open spec fn view(&self) -> SourceView {
        (self.rel_path@, self.contents@)
    }
}

/// The views of a list of source files, in order.
pub open spec fn source_views(files: Seq<SourceFile>) -> Seq<SourceView> {
    Seq::new(files.len(), |i: int| files[i]@)
}

/// What a site holds: the resource behind every routable path, and the page
/// of every status code that has one.
pub struct SiteView {
    pub routes: Map<Seq<char>, ResourceView>,
    pub status_pages: Map<u16, ResourceView>,
}

/// The status code whose page a relative path names: the path is that code
/// followed by `.html`.
pub open spec fn status_page_code(rel_path: Seq<char>) -> Option<u16> {
    if ends_with(rel_path, ".html"@) {
        status_code_of(rel_path.subrange(0, rel_path.len() - ".html"@.len()))
    } else {
        None
    }
}

/// The full path of a file in the site.
pub open spec fn canonical_path(rel_path: Seq<char>) -> Seq<char> {
    seq!['/'] + rel_path
}

/// The directory that an index file stands for: its full path without the
/// closing `/index.html`.
pub open spec fn index_directory(canonical: Seq<char>) -> Option<Seq<char>> {
    if ends_with(canonical, "/index.html"@) {
        Some(canonical.subrange(0, canonical.len() - "/index.html"@.len()))
    } else {
        None
    }
}

/// The paths that lead to a file. Every file is reached by its full path; an
/// index file also by its directory with a closing `/`, and by the directory
/// alone unless that is the empty path of the document root.
pub open spec fn route_keys(rel_path: Seq<char>) -> Seq<Seq<char>> {
    let canonical = canonical_path(rel_path);
    match index_directory(canonical) {
        None => seq![canonical],
        Some(dir) => if dir.len() == 0 {
            seq![dir + seq!['/'], canonical]
        } else {
            seq![dir, dir + seq!['/'], canonical]
        },
    }
}

/// `routes` with every path of `keys` leading to `r`.
pub open spec fn with_routes(
    routes: Map<Seq<char>, ResourceView>,
    keys: Seq<Seq<char>>,
    r: ResourceView,
) -> Map<Seq<char>, ResourceView> {
    Map::new(
        |k: Seq<char>| keys.contains(k) || routes.contains_key(k),
        |k: Seq<char>|
            if keys.contains(k) {
                r
            } else {
                routes[k]
            },
    )
}

/// The site with nothing in it.
pub open spec fn empty_site() -> SiteView {
    SiteView { routes: Map::empty(), status_pages: Map::empty() }
}

/// The site after one more resource, loaded from the file at `rel_path`. A
/// file named like a status page becomes the page of its code and gets no
/// route. Any other file is routed under each of its paths. What was there
/// under the same code or path before is replaced.
pub open spec fn site_with(site: SiteView, rel_path: Seq<char>, r: ResourceView) -> SiteView {
    match status_page_code(rel_path) {
        Some(code) => SiteView {
            routes: site.routes,
            status_pages: site.status_pages.insert(code, r),
        },
        None => SiteView {
            routes: with_routes(site.routes, route_keys(rel_path), r),
            status_pages: site.status_pages,
        },
    }
}

/// The site after one more file. A file that does not load is skipped and
/// changes nothing.
pub open spec fn site_insert(site: SiteView, rel_path: Seq<char>, contents: Seq<u8>) -> SiteView {
    match loaded(rel_path, contents) {
        None => site,
        Some(r) => site_with(site, rel_path, r),
    }
}

/// The site built from `files`, taken in order.
pub open spec fn site_of(files: Seq<SourceView>) -> SiteView
    decreases files.len(),
{
    if files.len() == 0 {
        empty_site()
    } else {
        site_insert(site_of(files.drop_last()), files.last().0, files.last().1)
    }
}

/// A request path has the shape of a status page: without its leading `/`
/// it is a status code followed by `.html`.
pub open spec fn is_status_page_path(path: Seq<char>) -> bool {
    let rel_path = if path.len() > 0 && path[0] == '/' {
        path.subrange(1, path.len() as int)
    } else {
        path
    };
    status_page_code(rel_path) is Some
}

/// The last segment of the path has a known extension: the segment holds a
/// `.`, and what follows its last `.` is an extension with a type.
pub open spec fn has_known_extension(path: Seq<char>) -> bool {
    let name = file_name(path);
    let dot = last_index_of(name, '.');
    dot >= 0 && content_type_of_ext(name.subrange(dot + 1, name.len() as int)) is Some
}

/// The path that a request path is looked up under. A path with the shape
/// of a status page is looked up under none. A path without a known
/// extension names a directory, and is looked up under the index file of
/// that directory.
pub open spec fn normalized(path: Seq<char>) -> Option<Seq<char>> {
    if is_status_page_path(path) {
        None
    } else if has_known_extension(path) {
        Some(path)
    } else if path.len() > 0 && path.last() == '/' {
        Some(path + "index.html"@)
    } else {
        Some(path + "/index.html"@)
    }
}

/// The resource that a request path leads to, if it leads to one.
pub open spec fn found(site: SiteView, path: Seq<char>) -> Option<ResourceView> {
    match normalized(path) {
        Some(key) if site.routes.contains_key(key) => Some(site.routes[key]),
        _ => None,
    }
}

/// The response of the resource that the path leads to, if it leads to one.
pub open spec fn file_response(
    site: SiteView,
    path: Seq<char>,
    encoding: Encoding,
    if_none_match: Option<Seq<char>>,
) -> Option<ResponseView> {
    match found(site, path) {
        Some(r) => Some(response_of(r, encoding, if_none_match)),
        None => None,
    }
}

/// The response that stands for a status: built from the site's page for
/// it, if the site has one.
pub open spec fn status_response(site: SiteView, status: u16) -> ResponseView {
    status_page_response(
        if site.status_pages.contains_key(status) {
            Some(site.status_pages[status])
        } else {
            None
        },
        status,
    )
}

/// The response to a request: that of the resource its path leads to, else
/// the one that stands for 404.
pub open spec fn served(
    site: SiteView,
    path: Seq<char>,
    accept_encoding: Option<Seq<char>>,
    if_none_match: Option<Seq<char>>,
) -> ResponseView {
    match file_response(site, path, negotiated(accept_encoding), if_none_match) {
        Some(response) => response,
        None => status_response(site, 404),
    }
}

/// Every resource of a site that was built from files is well formed: its
/// fingerprint is that of its bytes, and it has compressed variants exactly
/// if its type is compressible.
pub proof fn lemma_site_resources_well_formed(files: Seq<SourceView>)
    ensures
        forall|key: Seq<char>|
            #![trigger site_of(files).routes[key]]
            site_of(files).routes.contains_key(key) ==> resource_wf(site_of(files).routes[key]),
        forall|code: u16|
            #![trigger site_of(files).status_pages[code]]
            site_of(files).status_pages.contains_key(code) ==> resource_wf(
                site_of(files).status_pages[code],
            ),
    decreases files.len(),
{
    if files.len() > 0 {
        let before = site_of(files.drop_last());
        let after = site_of(files);
        let last = loaded(files.last().0, files.last().1);
        lemma_site_resources_well_formed(files.drop_last());
        lemma_loaded(files.last().0, files.last().1);
        assert forall|key: Seq<char>| after.routes.contains_key(key) implies resource_wf(
            #[trigger] after.routes[key],
        ) by {
            if after.routes[key] != before.routes[key] || !before.routes.contains_key(key) {
                assert(Some(after.routes[key]) == last);
            } else {
                assert(resource_wf(before.routes[key]));
            }
        }
        assert forall|code: u16| after.status_pages.contains_key(code) implies resource_wf(
            #[trigger] after.status_pages[code],
        ) by {
            if after.status_pages[code] != before.status_pages[code]
                || !before.status_pages.contains_key(code) {
                assert(Some(after.status_pages[code]) == last);
            } else {
                assert(resource_wf(before.status_pages[code]));
            }
        }
    }
}

/// A request that negotiates gzip or brotli for a compressible resource of
/// a built site gets that encoding of what a request without
/// `Accept-Encoding` gets for the same path.
pub proof fn lemma_compressed_response_encodes_plain_response(
    files: Seq<SourceView>,
    path: Seq<char>,
    accept_encoding: Option<Seq<char>>,
)
    requires
        found(site_of(files), path) matches Some(r) && r.media_type.compressible(),
    ensures
        negotiated(accept_encoding) == Encoding::Gzip ==> served(
            site_of(files),
            path,
            accept_encoding,
            None,
        ).body == gzip_encoding(served(site_of(files), path, None, None).body),
        negotiated(accept_encoding) == Encoding::Brotli ==> served(
            site_of(files),
            path,
            accept_encoding,
            None,
        ).body == brotli_encoding(served(site_of(files), path, None, None).body),
{
    let site = site_of(files);
    let key = normalized(path).unwrap();
    lemma_site_resources_well_formed(files);
    assert(resource_wf(site.routes[key]));
}

/// Building is repeatable. Two lists of files that agree file by file, in
/// paths and bytes, build the same site: every request gets the same answer
/// from both, with the same status and the same `ETag`.
pub proof fn lemma_rebuilt_site_answers_alike(
    first: Seq<SourceView>,
    second: Seq<SourceView>,
    path: Seq<char>,
    accept_encoding: Option<Seq<char>>,
    if_none_match: Option<Seq<char>>,
)
    requires
        first.len() == second.len(),
        forall|i: int|
            0 <= i < first.len() ==> (#[trigger] first[i]).0 == second[i].0 && first[i].1
                == second[i].1,
    ensures
        site_of(first) == site_of(second),
        served(site_of(first), path, accept_encoding, if_none_match) == served(
            site_of(second),
            path,
            accept_encoding,
            if_none_match,
        ),
{
    assert(first =~= second);
}

/// Every path of a site that was built from files begins with `/`.
pub proof fn lemma_routes_begin_with_slash(files: Seq<SourceView>, key: Seq<char>)
    requires
        site_of(files).routes.contains_key(key),
    ensures
        key.len() > 0,
        key[0] == '/',
    decreases files.len(),
{
    if files.len() > 0 {
        let before = site_of(files.drop_last());
        if before.routes.contains_key(key) {
            lemma_routes_begin_with_slash(files.drop_last(), key);
        } else {
            let rel_path = files.last().0;
            let keys = route_keys(rel_path);
            assert(keys.contains(key));
            let at = choose|at: int| 0 <= at < keys.len() && keys[at] == key;
            assert(canonical_path(rel_path)[0] == '/');
        }
    }
}

/// Status pages are not exposed. A request path with the shape of a status
/// page leads to no resource, whatever the site holds, and is answered with
/// status 404.
pub proof fn lemma_status_pages_not_exposed(
    site: SiteView,
    path: Seq<char>,
    accept_encoding: Option<Seq<char>>,
    if_none_match: Option<Seq<char>>,
)
    requires
        is_status_page_path(path),
    ensures
        found(site, path) is None,
        served(site, path, accept_encoding, if_none_match) == status_response(site, 404),
        served(site, path, accept_encoding, if_none_match).status == 404,
{
}

/// A page of the site is reachable only as the response that stands for its
/// status: no file named like a status page gets a route.
pub proof fn lemma_status_pages_get_no_route(site: SiteView, rel_path: Seq<char>, r: ResourceView)
    requires
        status_page_code(rel_path) is Some,
    ensures
        site_with(site, rel_path, r).routes == site.routes,
{
}

/// The response that stands for a status carries that status and neither
/// `Accept-Encoding` nor `Cache-Control`, whether or not the site has a page
/// for it.
pub proof fn lemma_status_response_headers(site: SiteView, status: u16)
    ensures
        status_response(site, status).status == status,
        !has_header(status_response(site, status).headers, HeaderName::AcceptEncoding),
        !has_header(status_response(site, status).headers, HeaderName::CacheControl),
{
    let page = if site.status_pages.contains_key(status) {
        Some(site.status_pages[status])
    } else {
        None
    };
    let headers = match page {
        Some(r) => response_of(r, Encoding::Identity, None).headers,
        None => Seq::<HeaderView>::empty(),
    };
    let first = without(headers, HeaderName::AcceptEncoding);
    lemma_without(headers, HeaderName::AcceptEncoding, HeaderName::CacheControl);
    lemma_without(first, HeaderName::CacheControl, HeaderName::AcceptEncoding);
}

/// One path of the site and the place of the resource it leads to.
struct Route {
    path: Vec<char>,
    file: usize,
}

/// The place that the last route under `key` leads to.
spec fn route_index(routes: Seq<Route>, key: Seq<char>) -> Option<usize>
    decreases routes.len(),
{
    if routes.len() == 0 {
        None
    } else if routes.last().path@ == key {
        Some(routes.last().file)
    } else {
        route_index(routes.drop_last(), key)
    }
}

proof fn lemma_route_index_bound(routes: Seq<Route>, key: Seq<char>, bound: int)
    requires
        forall|i: int| 0 <= i < routes.len() ==> (#[trigger] routes[i]).file < bound,
    ensures
        route_index(routes, key) matches Some(j) ==> j < bound,
    decreases routes.len(),
{
    if routes.len() > 0 {
        assert(routes.last() == routes[routes.len() - 1]);
        if routes.last().path@ != key {
            lemma_route_index_bound(routes.drop_last(), key, bound);
        }
    }
}

/// Routes pushed for the paths `keys`, all to `place`, lead there; every
/// other path leads where it led before.
proof fn lemma_routes_pushed(
    before: Seq<Route>,
    after: Seq<Route>,
    keys: Seq<Seq<char>>,
    place: usize,
    k: Seq<char>,
)
    requires
        before.len() <= after.len(),
        after.subrange(0, before.len() as int) == before,
        after.len() - before.len() == keys.len(),
        forall|i: int|
            0 <= i < keys.len() ==> (#[trigger] after[before.len() + i]).path@ == keys[i]
                && after[before.len() + i].file == place,
    ensures
        route_index(after, k) == (if keys.contains(k) {
            Some(place)
        } else {
            route_index(before, k)
        }),
    decreases keys.len(),
{
    if keys.len() == 0 {
        assert(after == before);
    } else {
        let last = keys.len() - 1;
        assert(after.last() == after[before.len() + last]);
        if keys[last] == k {
            assert(keys.contains(k));
        } else {
            let init = keys.drop_last();
            let shorter = after.drop_last();
            assert(shorter.subrange(0, before.len() as int) == before);
            assert forall|i: int| 0 <= i < init.len() implies (#[trigger] shorter[before.len()
                + i]).path@ == init[i] && shorter[before.len() + i].file == place by {
                assert(shorter[before.len() + i] == after[before.len() + i]);
            }
            lemma_routes_pushed(before, shorter, init, place, k);
            if keys.contains(k) {
                let i = choose|i: int| 0 <= i < keys.len() && keys[i] == k;
                assert(init[i] == k);
            }
            if init.contains(k) {
                let i = choose|i: int| 0 <= i < init.len() && init[i] == k;
                assert(keys[i] == k);
            }
        }
    }
}

/// The site: built once from the files of a directory, then only read.
pub struct ServedDir {
    files: Vec<ServedFile>,
    routes: Vec<Route>,
    status_pages: StatusPages,
}

impl View for ServedDir {
    type V = SiteView;

    closed spec fn view(&self) -> SiteView {
        SiteView {
            routes: Map::new(
                |k: Seq<char>| route_index(self.routes@, k) is Some,
                |k: Seq<char>| self.files@[route_index(self.routes@, k).unwrap() as int]@,
            ),
            status_pages: Map::new(
                |c: u16| self.status_pages@.contains_key(c),
                |c: u16| self.files@[self.status_pages@[c] as int]@,
            ),
        }
    }
}

/// The status code whose page the relative path `rel_path` names, if it
/// names one.
pub fn page_code(rel_path: &[char]) -> (code: Option<StatusCode>)
    ensures
        code is Some <==> status_page_code(rel_path@) is Some,
        code matches Some(c) ==> Some(c@) == status_page_code(rel_path@),
{
    let suffix = chars_of(".html");
    proof {
        reveal_strlit(".html");
    }
    if has_suffix(rel_path, suffix.as_slice()) {
        let name = copy_range(rel_path, 0, rel_path.len() - 5);
        StatusCode::from_chars(name.as_slice())
    } else {
        None
    }
}

/// The path that the request path `path` is looked up under, if any.
pub fn normalize(path: &[char]) -> (key: Option<Vec<char>>)
    ensures
        match key {
            Some(k) => normalized(path@) == Some(k@),
            None => normalized(path@) is None,
        },
{
    let rel_path = if path.len() > 0 && path[0] == '/' {
        copy_range(path, 1, path.len())
    } else {
        copy_range(path, 0, path.len())
    };
    assert(path@.subrange(0, path.len() as int) == path@);
    if page_code(rel_path.as_slice()).is_some() {
        return None;
    }
    let start: usize = match rfind(path, '/') {
        Some(slash) => slash + 1,
        None => 0,
    };
    let name = copy_range(path, start, path.len());
    let known = match rfind(name.as_slice(), '.') {
        Some(dot) => {
            let ext = copy_range(name.as_slice(), dot + 1, name.len());
            ContentType::from_ext_chars(ext.as_slice()).is_some()
        },
        None => false,
    };
    let mut key = copy_range(path, 0, path.len());
    if !known {
        if path.len() > 0 && path[path.len() - 1] == '/' {
            let tail = chars_of("index.html");
            append_chars(&mut key, tail.as_slice());
        } else {
            let tail = chars_of("/index.html");
            append_chars(&mut key, tail.as_slice());
        }
    }
    Some(key)
}

impl ServedDir {
    #[verifier::type_invariant]
    spec fn places_exist(self) -> bool {
        &&& forall|i: int|
            0 <= i < self.routes.len() ==> (#[trigger] self.routes[i]).file < self.files.len()
        &&& forall|c: u16|
            self.status_pages@.contains_key(c) ==> #[trigger] self.status_pages@[c]
                < self.files.len()
    }

    /// The site with nothing in it.
    pub fn new() -> (dir: ServedDir)
        ensures
            dir@ == empty_site(),
    {
        let dir = ServedDir {
            files: Vec::new(),
            routes: Vec::new(),
            status_pages: StatusPages::new(),
        };
        assert(dir@.routes =~= Map::empty());
        assert(dir@.status_pages =~= Map::empty());
        dir
    }

    /// Builds the site from the files of a directory, taken in order. A file
    /// that cannot be served is skipped; the others are all there.
    pub fn load(files: Vec<SourceFile>) -> (dir: ServedDir)
        ensures
            dir@ == site_of(source_views(files@)),
    {
        let mut dir = ServedDir::new();
        let ghost sources = files@;
        let ghost all = source_views(files@);
        assert(all.subrange(0, 0) == Seq::<SourceView>::empty());
        for source in it: files
            invariant
                it.seq() == sources,
                all == source_views(sources),
                dir@ == site_of(all.subrange(0, it.index() as int)),
        {
            let ghost done = it.index() as int;
            assert(all.subrange(0, done + 1).drop_last() == all.subrange(0, done));
            assert(all.subrange(0, done + 1).last() == source@);
            let SourceFile { rel_path, contents } = source;
            dir.insert(rel_path.as_str(), contents);
        }
        assert(all.subrange(0, all.len() as int) == all);
        dir
    }

    /// Adds one file to the site, or skips it if it cannot be served. Says
    /// whether it was added.
    pub fn insert(&mut self, rel_path: &str, contents: Vec<u8>) -> (added: bool)
        ensures
            final(self)@ == site_insert(old(self)@, rel_path@, contents@),
            added == loaded(rel_path@, contents@) is Some,
    {
        match ServedFile::load(rel_path, contents) {
            Some(file) => {
                self.add(rel_path, file);
                true
            },
            None => false,
        }
    }

    /// Adds a loaded resource to the site, under the paths that belong to
    /// the relative path of its file.
    pub fn add(&mut self, rel_path: &str, file: ServedFile)
        ensures
            final(self)@ == site_with(old(self)@, rel_path@, file@),
    {
        proof {
            use_type_invariant(&*self);
        }
        let ghost resource = file@;
        let ghost before = *self;
        let rel = chars_of(rel_path);
        let mut taken = ServedDir::new();
        std::mem::swap(self, &mut taken);
        let ServedDir { mut files, mut routes, mut status_pages } = taken;
        let place: usize = files.len();
        files.push(file);
        assert(forall|j: int| 0 <= j < place ==> files@[j] == before.files@[j]);
        match page_code(rel.as_slice()) {
            Some(code) => {
                status_pages.insert(code.as_u16(), place);
                proof {
                    assert forall|k: Seq<char>|
                        route_index(before.routes@, k) is Some implies route_index(
                        before.routes@,
                        k,
                    ).unwrap() < place by {
                        lemma_route_index_bound(before.routes@, k, place as int);
                    }
                }
                *self = ServedDir { files, routes, status_pages };
                proof {
                    assert(self@.status_pages =~= before@.status_pages.insert(code@, resource));
                    assert(self@.routes =~= before@.routes);
                }
            },
            None => {
                let mut canonical: Vec<char> = Vec::new();
                canonical.push('/');
                append_chars(&mut canonical, rel.as_slice());
                assert(canonical@ == canonical_path(rel_path@));
                let suffix = chars_of("/index.html");
                proof {
                    reveal_strlit("/index.html");
                }
                if has_suffix(canonical.as_slice(), suffix.as_slice()) {
                    let dir = copy_range(canonical.as_slice(), 0, canonical.len() - 11);
                    let mut closed = copy_range(canonical.as_slice(), 0, canonical.len() - 11);
                    closed.push('/');
                    assert(closed@ == dir@ + seq!['/']);
                    if dir.len() > 0 {
                        routes.push(Route { path: dir, file: place });
                    }
                    routes.push(Route { path: closed, file: place });
                }
                routes.push(Route { path: canonical, file: place });
                proof {
                    let keys = route_keys(rel_path@);
                    let old_routes = before.routes@;
                    assert forall|k: Seq<char>|
                        route_index(old_routes, k) is Some implies route_index(
                        old_routes,
                        k,
                    ).unwrap() < place by {
                        lemma_route_index_bound(old_routes, k, place as int);
                    }
                    assert(routes@.subrange(0, old_routes.len() as int) == old_routes);
                    assert forall|k: Seq<char>|
                        #![trigger route_index(routes@, k)]
                        route_index(routes@, k) == (if keys.contains(k) {
                            Some(place)
                        } else {
                            route_index(old_routes, k)
                        }) by {
                        lemma_routes_pushed(old_routes, routes@, keys, place, k);
                    }
                }
                *self = ServedDir { files, routes, status_pages };
                proof {
                    assert(self@.routes =~= with_routes(
                        before@.routes,
                        route_keys(rel_path@),
                        resource,
                    ));
                    assert(self@.status_pages =~= before@.status_pages);
                }
            },
        }
    }

    /// The place that `key` leads to, if it is a path of the site.
    fn find_route(&self, key: &[char]) -> (place: Option<usize>)
        ensures
            place == route_index(self.routes@, key@),
            place matches Some(j) ==> j < self.files.len(),
    {
        proof {
            use_type_invariant(self);
            lemma_route_index_bound(self.routes@, key@, self.files.len() as int);
        }
        let mut i: usize = self.routes.len();
        assert(self.routes@.subrange(0, i as int) == self.routes@);
        while i > 0
            invariant
                i <= self.routes.len(),
                route_index(self.routes@, key@) == route_index(
                    self.routes@.subrange(0, i as int),
                    key@,
                ),
            decreases i,
        {
            let ghost prefix = self.routes@.subrange(0, i as int);
            assert(prefix.last() == self.routes@[i - 1]);
            assert(prefix.drop_last() == self.routes@.subrange(0, i - 1));
            if chars_eq(self.routes[i - 1].path.as_slice(), key) {
                proof {
                    use_type_invariant(self);
                }
                return Some(self.routes[i - 1].file);
            }
            i -= 1;
        }
        None
    }

    /// The place of the page for `code`, if the site has one.
    fn find_page(&self, code: u16) -> (place: Option<usize>)
        ensures
            place is Some <==> self@.status_pages.contains_key(code),
            place matches Some(j) ==> j < self.files.len() && self.files@[j as int]@
                == self@.status_pages[code],
    {
        proof {
            use_type_invariant(self);
        }
        self.status_pages.get(code)
    }

    /// The response of the resource under the exact path `key`, if there is
    /// one.
    pub fn get_file_directly(
        &self,
        key: &[char],
        encoding: Encoding,
        if_none_match: Option<IfNoneMatch>,
    ) -> (response: Option<Response>)
        ensures
            match response {
                Some(r) => self@.routes.contains_key(key@) && r@ == response_of(
                    self@.routes[key@],
                    encoding,
                    validator_of(if_none_match),
                ),
                None => !self@.routes.contains_key(key@),
            },
    {
        match self.find_route(key) {
            Some(place) => Some(self.files[place].to_response(encoding, if_none_match)),
            None => None,
        }
    }

    /// The response of the resource that the request path leads to, if it
    /// leads to one.
    pub fn get_file(&self, path: &str, encoding: Encoding, if_none_match: Option<IfNoneMatch>) -> (response:
        Option<Response>)
        ensures
            match response {
                Some(r) => Some(r@) == file_response(
                    self@,
                    path@,
                    encoding,
                    validator_of(if_none_match),
                ),
                None => file_response(self@, path@, encoding, validator_of(if_none_match))
                    is None,
            },
    {
        let chars = chars_of(path);
        match normalize(chars.as_slice()) {
            Some(key) => self.get_file_directly(key.as_slice(), encoding, if_none_match),
            None => None,
        }
    }

    /// The response that stands for `status`.
    pub fn get_status(&self, status: StatusCode) -> (response: Response)
        ensures
            response@ == status_response(self@, status@),
    {
        match self.find_page(status.as_u16()) {
            Some(place) => status_code_page(Some(&self.files[place]), status),
            None => status_code_page(None, status),
        }
    }

    /// The response to a request, from its path and the two headers that
    /// bear on it.
    pub fn serve(
        &self,
        path: &str,
        accept_encoding: Option<&str>,
        if_none_match: Option<IfNoneMatch>,
    ) -> (response: Response)
        ensures
            response@ == served(
                self@,
                path@,
                crate::extract::header_text(accept_encoding),
                validator_of(if_none_match),
            ),
    {
        let encoding = Encoding::from_accept_encoding(accept_encoding);
        match self.get_file(path, encoding, if_none_match) {
            Some(response) => response,
            None => self.get_status(StatusCode::not_found()),
        }
    }
}

} // verus!
