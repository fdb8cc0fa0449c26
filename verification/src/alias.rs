//! Why the three spellings of a directory's address get one answer.

use crate::dir::{
    canonical_path, has_known_extension, index_directory, is_status_page_path, normalized,
    route_keys, served, site_of, status_page_code, SourceView,
};
use crate::extract::negotiated;
use crate::file::{file_name, last_index_of, lemma_loaded, loaded, response_of, type_of_path};
use vstd::prelude::*;

verus! {

/// The file registers a route under `key`: it loads, it is no status page,
/// and `key` is one of its paths.
pub open spec fn claims(file: SourceView, key: Seq<char>) -> bool {
    &&& loaded(file.0, file.1) is Some
    &&& status_page_code(file.0) is None
    &&& route_keys(file.0).contains(key)
}

/// No path is registered by two of the files. This holds of the files of a
/// directory: two of its entries never have the same name.
pub open spec fn no_shared_routes(files: Seq<SourceView>) -> bool {
    forall|i: int, j: int, key: Seq<char>|
        0 <= i < files.len() && 0 <= j < files.len() && i != j && #[trigger] claims(files[i], key)
            ==> !#[trigger] claims(files[j], key)
}

/// Where `c` last occurs in `s`, it does occur, and nowhere behind.
pub proof fn lemma_last_index(s: Seq<char>, c: char)
    ensures
        -1 <= last_index_of(s, c) < s.len(),
        last_index_of(s, c) >= 0 ==> s[last_index_of(s, c)] == c,
        forall|j: int| last_index_of(s, c) < j < s.len() ==> s[j] != c,
    decreases s.len(),
{
    if s.len() > 0 && s.last() != c {
        lemma_last_index(s.drop_last(), c);
        assert forall|j: int| last_index_of(s, c) < j < s.len() implies s[j] != c by {
            if j < s.len() - 1 {
                assert(s.drop_last()[j] == s[j]);
            }
        }
    }
}

/// A position that holds `c` with no `c` behind it is where `c` last occurs.
pub proof fn lemma_last_index_is(s: Seq<char>, c: char, at: int)
    requires
        0 <= at < s.len(),
        s[at] == c,
        forall|j: int| at < j < s.len() ==> s[j] != c,
    ensures
        last_index_of(s, c) == at,
{
    lemma_last_index(s, c);
}

/// The path of an index file is looked up as it stands.
pub proof fn lemma_normalized_index_path(dir: Seq<char>)
    ensures
        normalized(dir + "/index.html"@) == Some(dir + "/index.html"@),
{
    reveal_strlit("/index.html");
    reveal_strlit(".html");
    reveal_strlit("html");
    let tail = "/index.html"@;
    let path = dir + tail;
    let n = path.len() as int;
    assert(path.subrange(n - 5, n) == ".html"@);
    let rel_path = if path[0] == '/' {
        path.subrange(1, n)
    } else {
        path
    };
    assert(rel_path.len() >= 10);
    assert(!is_status_page_path(path));
    assert forall|j: int| n - 11 < j < n implies path[j] != '/' by {
        assert(path[j] == tail[j - dir.len()]);
    }
    assert(path[n - 11] == tail[0]);
    lemma_last_index_is(path, '/', n - 11);
    let name = file_name(path);
    assert(name == tail.subrange(1, 11));
    assert forall|j: int| 5 < j < name.len() implies name[j] != '.' by {}
    lemma_last_index_is(name, '.', 5);
    assert(name.subrange(6, 10) == "html"@);
}

/// A path that ends in `/` is looked up under the index file behind it.
pub proof fn lemma_normalized_closed_directory(dir: Seq<char>)
    ensures
        normalized(dir + seq!['/']) == Some(dir + "/index.html"@),
{
    reveal_strlit("/index.html");
    reveal_strlit("index.html");
    reveal_strlit(".html");
    let path = dir + seq!['/'];
    let n = path.len() as int;
    assert(path.last() == '/');
    let rel_path = if path[0] == '/' {
        path.subrange(1, n)
    } else {
        path
    };
    if rel_path.len() >= 5 {
        assert(rel_path.subrange(rel_path.len() - 5, rel_path.len() as int)[4] == '/');
    }
    assert(!is_status_page_path(path));
    lemma_last_index_is(path, '/', n - 1);
    assert(file_name(path).len() == 0);
    assert(!has_known_extension(path));
    assert(path + "index.html"@ == dir + "/index.html"@);
}

/// A route that one file registers, and no other, leads to that file.
pub proof fn lemma_route_of_claim(files: Seq<SourceView>, i: int, key: Seq<char>)
    requires
        0 <= i < files.len(),
        claims(files[i], key),
        forall|j: int| 0 <= j < files.len() && j != i ==> !claims(#[trigger] files[j], key),
    ensures
        site_of(files).routes.contains_key(key),
        Some(site_of(files).routes[key]) == loaded(files[i].0, files[i].1),
    decreases files.len(),
{
    let last = files.len() - 1;
    if i != last {
        let shorter = files.drop_last();
        assert(shorter[i] == files[i]);
        assert forall|j: int| 0 <= j < shorter.len() && j != i implies !claims(
            #[trigger] shorter[j],
            key,
        ) by {
            assert(shorter[j] == files[j]);
        }
        lemma_route_of_claim(shorter, i, key);
        assert(files.last() == files[last]);
        assert(!claims(files[last], key));
    }
}

/// Every file that can be served is served. Where no two files register the
/// same path, a file with a known type that is no status page, and whose
/// bytes are UTF-8 if its type is compressible, is in the site under its
/// full path, as the resource it loads as.
pub proof fn lemma_every_file_is_routed(files: Seq<SourceView>, i: int)
    requires
        0 <= i < files.len(),
        no_shared_routes(files),
        status_page_code(files[i].0) is None,
        type_of_path(files[i].0) matches Some(ty) && (ty.compressible() ==> vstd::utf8::valid_utf8(
            files[i].1,
        )),
    ensures
        loaded(files[i].0, files[i].1) is Some,
        site_of(files).routes.contains_key(canonical_path(files[i].0)),
        Some(site_of(files).routes[canonical_path(files[i].0)]) == loaded(files[i].0, files[i].1),
{
    let key = canonical_path(files[i].0);
    let keys = route_keys(files[i].0);
    lemma_loaded(files[i].0, files[i].1);
    assert(keys[keys.len() - 1] == key);
    assert(claims(files[i], key));
    assert forall|j: int| 0 <= j < files.len() && j != i implies !claims(
        #[trigger] files[j],
        key,
    ) by {}
    lemma_route_of_claim(files, i, key);
}

/// Alias equivalence. Where a directory has an index file that loads, the
/// directory's path, that path with a closing `/`, and the full path of the
/// index file are answered alike, with the response of the index file, for
/// every pair of request headers. It is asked that no two files register the
/// same path, that the directory's own path has not the shape of a status
/// page, and that it does not itself end in `/`.
pub proof fn lemma_alias_equivalence(
    files: Seq<SourceView>,
    i: int,
    dir: Seq<char>,
    accept_encoding: Option<Seq<char>>,
    if_none_match: Option<Seq<char>>,
)
    requires
        0 <= i < files.len(),
        canonical_path(files[i].0) == dir + "/index.html"@,
        loaded(files[i].0, files[i].1) is Some,
        no_shared_routes(files),
        !is_status_page_path(dir),
        dir.len() == 0 || dir.last() != '/',
    ensures
        ({
            let site = site_of(files);
            let index = loaded(files[i].0, files[i].1).unwrap();
            let answer = response_of(index, negotiated(accept_encoding), if_none_match);
            &&& served(site, dir, accept_encoding, if_none_match) == answer
            &&& served(site, dir + seq!['/'], accept_encoding, if_none_match) == answer
            &&& served(site, dir + "/index.html"@, accept_encoding, if_none_match) == answer
        }),
{
    reveal_strlit("/index.html");
    reveal_strlit(".html");
    let rel_path = files[i].0;
    let canonical = canonical_path(rel_path);
    let n = canonical.len() as int;
    assert(canonical.subrange(n - 11, n) == "/index.html"@);
    assert(canonical.subrange(0, n - 11) == dir);
    assert(index_directory(canonical) == Some(dir));
    // The index file is no status page: what stands before `.html` is too long.
    assert(rel_path == canonical.subrange(1, n));
    assert(rel_path.subrange(rel_path.len() - 5, rel_path.len() as int) == ".html"@);
    assert(status_page_code(rel_path) is None);
    let keys = route_keys(rel_path);
    assert(keys[keys.len() - 1] == canonical);
    assert(claims(files[i], canonical));
    assert forall|j: int| 0 <= j < files.len() && j != i implies !claims(
        #[trigger] files[j],
        canonical,
    ) by {}
    lemma_route_of_claim(files, i, canonical);
    lemma_normalized_index_path(dir);
    lemma_normalized_closed_directory(dir);
    if has_known_extension(dir) {
        lemma_last_index(file_name(dir), '.');
        assert(keys[0] == dir);
        assert(claims(files[i], dir));
        assert forall|j: int| 0 <= j < files.len() && j != i implies !claims(
            #[trigger] files[j],
            dir,
        ) by {}
        lemma_route_of_claim(files, i, dir);
    }
}

} // verus!
