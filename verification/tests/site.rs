use std::io::Read;

use a_blog_out_of_deep_space::{
    Encoding, HeaderName, IfNoneMatch, Response, ServeError, ServedDir, SourceFile, StatusCode,
};

fn index_page() -> String {
    [
        "<!doctype html>\n",
        "<html lang=\"en\">\n",
        "<head>\n",
        "<link rel=\"icon\" type=\"image/png\" href=\"/img/favicon.png\" />\n",
        "<meta name=\"author\" content=\"Cosmic Horror\" />\n",
        "</head>\n",
        "\n",
        "<body>\n",
        "\n",
        "<h1>The base</h1>\n",
        "\n",
        "<p>Lorem ipsum dolor sit amet, consectetur adipiscing elit, sed do eiusmod\n",
        "tempor incididunt ut labore et dolore magna aliqua. Ut enim ad minim veniam,\n",
        "quis nostrud exercitation ullamco laboris nisi ut aliquip ex ea commodo\n",
        "consequat. Duis aute irure dolor in reprehenderit in voluptate velit esse cillum\n",
        "dolore eu fugiat nulla pariatur. Excepteur sint occaecat cupidatat non proident,\n",
        "sunt in culpa qui officia deserunt mollit anim id est laborum.</p>\n",
        "\n",
        "</body>\n",
        "</html>\n",
    ]
    .concat()
}

fn not_found_page() -> String {
    [
        "<!doctype html>\n",
        "<html lang=\"en\">\n",
        "<h1>404 NOT FOUND</h1>\n",
        "\n",
        "<p>Lorem ipsum dolor sit amet, consectetur adipiscing elit, sed do eiusmod\n",
        "tempor incididunt ut labore et dolore magna aliqua. Ut enim ad minim veniam,\n",
        "quis nostrud exercitation ullamco laboris nisi ut aliquip ex ea commodo\n",
        "consequat. Duis aute irure dolor in reprehenderit in voluptate velit esse cillum\n",
        "dolore eu fugiat nulla pariatur. Excepteur sint occaecat cupidatat non proident,\n",
        "sunt in culpa qui officia deserunt mollit anim id est laborum.</p>\n",
        "\n",
        "</html>\n",
    ]
    .concat()
}

fn posts_page() -> String {
    String::from("<!doctype html>\n<html lang=\"en\">\n<h1>Posts</h1>\n</html>\n")
}

fn timeout_page() -> String {
    String::from("<!doctype html>\n<html lang=\"en\">\n<h1>408 TIMED OUT</h1>\n</html>\n")
}

fn sitemap() -> String {
    let mut text = String::from("<?xml version=\"1.0\" encoding=\"UTF-8\"?>\n<urlset>\n");
    for page in ["", "posts/", "posts/one/", "posts/two/", "posts/three/"] {
        text.push_str(&format!("  <url><loc>https://example.com/{page}</loc></url>\n"));
    }
    text.push_str("</urlset>\n");
    text
}

fn favicon() -> Vec<u8> {
    vec![0x89, b'P', b'N', b'G', 0x0d, 0x0a, 0x1a, 0x0a, 0x00, 0xff, 0xfe, 0x80, 0x01, 0x02]
}

fn source(rel_path: &str, contents: Vec<u8>) -> SourceFile {
    SourceFile { rel_path: rel_path.to_owned(), contents }
}

fn site() -> ServedDir {
    ServedDir::load(vec![
        source("index.html", index_page().into_bytes()),
        source("posts/index.html", posts_page().into_bytes()),
        source("404.html", not_found_page().into_bytes()),
        source("408.html", timeout_page().into_bytes()),
        source("img/favicon.png", favicon()),
        source("sitemap.xml", sitemap().into_bytes()),
    ])
}

fn get(dir: &ServedDir, path: &str) -> Response {
    dir.serve(path, None, None)
}

/// The headers of a response as pairs of name and value, sorted by name.
fn snapshot(response: &Response) -> Vec<(String, String)> {
    let mut headers: Vec<(String, String)> = response
        .headers
        .iter()
        .map(|header| (header.name.as_str().to_owned(), header.value.clone()))
        .collect();
    headers.sort();
    headers
}

fn pairs(expected: &[(&str, &str)]) -> Vec<(String, String)> {
    expected.iter().map(|(name, value)| (name.to_string(), value.to_string())).collect()
}

fn values(response: &Response, name: HeaderName) -> Vec<String> {
    response
        .headers
        .iter()
        .filter(|header| header.name == name)
        .map(|header| header.value.clone())
        .collect()
}

fn gunzip(compressed: &[u8]) -> Vec<u8> {
    let mut decoder = flate2::read::GzDecoder::new(compressed);
    let mut out = Vec::new();
    decoder.read_to_end(&mut out).unwrap();
    out
}

fn unbrotli(compressed: &[u8]) -> Vec<u8> {
    let mut decoder = brotli::Decompressor::new(compressed, 4096);
    let mut out = Vec::new();
    decoder.read_to_end(&mut out).unwrap();
    out
}

#[test]
fn sanity_root() {
    let response = get(&site(), "/");
    assert_eq!(response.status.as_u16(), 200);
    assert_eq!(
        snapshot(&response),
        pairs(&[
            ("accept-encoding", "gzip, br"),
            ("cache-control", "max-age=300"),
            ("content-length", "654"),
            ("content-type", "text/html; charset=utf-8"),
            ("etag", "\"e2e7b1b46a3923e\""),
            ("server", "a-blog-out-of-deep-space/0.1.0"),
        ])
    );
    assert_eq!(String::from_utf8(response.body).unwrap(), index_page());
}

#[test]
fn full_response_lists_headers_in_a_fixed_order() {
    let response = site().serve("/", Some("gzip"), None);
    let names: Vec<HeaderName> = response.headers.iter().map(|header| header.name).collect();
    assert_eq!(
        names,
        vec![
            HeaderName::Server,
            HeaderName::ContentType,
            HeaderName::CacheControl,
            HeaderName::AcceptEncoding,
            HeaderName::Vary,
            HeaderName::ContentEncoding,
            HeaderName::ETag,
            HeaderName::ContentLength,
        ]
    );
}

#[test]
fn index_html_normalized() {
    let dir = site();
    let equiv_paths = ["/posts", "/posts/", "/posts/index.html"];
    let mut bodies = Vec::new();
    for path in equiv_paths {
        let response = get(&dir, path);
        assert_eq!(response.status.as_u16(), 200);
        assert_eq!(values(&response, HeaderName::ContentType), ["text/html; charset=utf-8"]);
        bodies.push(String::from_utf8(response.body).unwrap());
    }
    let first = bodies.pop().unwrap();
    assert_eq!(first, posts_page());
    for body in &bodies {
        assert_eq!(&first, body);
    }
}

#[test]
fn root_is_reached_by_every_spelling() {
    let dir = site();
    for path in ["", "/", "/index.html"] {
        let response = get(&dir, path);
        assert_eq!(response.status.as_u16(), 200);
        assert_eq!(String::from_utf8(response.body).unwrap(), index_page());
    }
}

#[test]
fn directory_named_like_a_file_is_reached_through_its_alias() {
    let dir = ServedDir::load(vec![source("x.png/index.html", posts_page().into_bytes())]);
    for path in ["/x.png", "/x.png/", "/x.png/index.html"] {
        let response = get(&dir, path);
        assert_eq!(response.status.as_u16(), 200);
        assert_eq!(String::from_utf8(response.body).unwrap(), posts_page());
    }
}

/// status code pages in the root of the site aren't reachable
///
/// 408.html is not found despite existing in the root of the site
#[test]
fn status_code_page_not_found() {
    let response = get(&site(), "/408.html");
    assert_eq!(response.status.as_u16(), 404);
    assert_eq!(
        snapshot(&response),
        pairs(&[
            ("content-length", "519"),
            ("content-type", "text/html; charset=utf-8"),
            ("etag", "\"7e03829c89f8eb3f\""),
            ("server", "a-blog-out-of-deep-space/0.1.0"),
        ])
    );
    assert_eq!(String::from_utf8(response.body).unwrap(), not_found_page());
}

#[test]
fn status_code_page_is_not_exposed() {
    let dir = site();
    for path in ["/404.html", "404.html", "/408.html"] {
        let response = dir.serve(path, Some("gzip"), None);
        assert_eq!(response.status.as_u16(), 404);
        assert_eq!(String::from_utf8(response.body).unwrap(), not_found_page());
        assert!(dir.get_file(path, Encoding::Identity, None).is_none());
    }
}

#[test]
fn status_code_page_is_served_unencoded() {
    let response = site().serve("/not-found", Some("deflate, br"), None);
    assert_eq!(response.status.as_u16(), 404);
    assert!(values(&response, HeaderName::ContentEncoding).is_empty());
    assert!(values(&response, HeaderName::AcceptEncoding).is_empty());
    assert!(values(&response, HeaderName::CacheControl).is_empty());
    assert!(values(&response, HeaderName::Vary).is_empty());
    assert_eq!(String::from_utf8(response.body).unwrap(), not_found_page());
}

#[test]
fn status_code_page_ignores_the_validator() {
    let tag = IfNoneMatch(String::from("\"7e03829c89f8eb3f\""));
    let response = site().serve("/not-found", None, Some(tag));
    assert_eq!(response.status.as_u16(), 404);
    assert_eq!(response.body.len(), 519);
}

#[test]
fn negotiation_fallback() {
    let dir = site();
    let response = dir.serve("/sitemap.xml", Some("deflate, br"), None);
    assert_eq!(response.status.as_u16(), 200);
    assert_eq!(values(&response, HeaderName::ContentEncoding), ["br"]);
    assert_eq!(values(&response, HeaderName::AcceptEncoding), ["gzip, br"]);
    assert_eq!(unbrotli(&response.body), sitemap().into_bytes());
    let fallback = dir.serve("/missing.xml", Some("deflate, br"), None);
    assert_eq!(fallback.status.as_u16(), 404);
    assert!(values(&fallback, HeaderName::AcceptEncoding).is_empty());
}

#[test]
fn missing_status_page_gives_the_reason_phrase() {
    let dir = ServedDir::load(vec![source("index.html", index_page().into_bytes())]);
    let response = get(&dir, "/nowhere");
    assert_eq!(response.status.as_u16(), 404);
    assert!(response.headers.is_empty());
    assert_eq!(String::from_utf8(response.body).unwrap(), "404 Not Found");
}

#[test]
fn failures_map_to_status_pages() {
    let dir = site();
    let overloaded =
        a_blog_out_of_deep_space::router::handle_middleware_error(&dir, ServeError::Overloaded);
    assert_eq!(overloaded.status.as_u16(), 503);
    assert!(overloaded.headers.is_empty());
    assert_eq!(String::from_utf8(overloaded.body).unwrap(), "503 Service Unavailable");

    let timed_out =
        a_blog_out_of_deep_space::router::handle_middleware_error(&dir, ServeError::TimedOut);
    assert_eq!(timed_out.status.as_u16(), 408);
    assert!(values(&timed_out, HeaderName::CacheControl).is_empty());
    assert_eq!(values(&timed_out, HeaderName::ContentType), ["text/html; charset=utf-8"]);
    assert_eq!(String::from_utf8(timed_out.body).unwrap(), timeout_page());

    let internal =
        a_blog_out_of_deep_space::router::handle_middleware_error(&dir, ServeError::Internal);
    assert_eq!(internal.status.as_u16(), 500);
    assert_eq!(String::from_utf8(internal.body).unwrap(), "500 Internal Server Error");

    let not_found =
        a_blog_out_of_deep_space::router::handle_middleware_error(&dir, ServeError::NotFound);
    assert_eq!(not_found.status.as_u16(), 404);
    assert_eq!(String::from_utf8(not_found.body).unwrap(), not_found_page());
}

#[test]
fn failure_statuses() {
    assert_eq!(ServeError::NotFound.status().as_u16(), 404);
    assert_eq!(ServeError::Overloaded.status().as_u16(), 503);
    assert_eq!(ServeError::TimedOut.status().as_u16(), 408);
    assert_eq!(ServeError::Internal.status().as_u16(), 500);
}

#[test]
fn unknown_status_has_a_stand_in_phrase() {
    let dir = ServedDir::new();
    let response = dir.get_status(StatusCode::from_u16(799).unwrap());
    assert_eq!(response.status.as_u16(), 799);
    assert_eq!(String::from_utf8(response.body).unwrap(), "799 <unknown status code>");
}

/// server supports etag based revalidation to support client http caches
#[test]
fn revalidation() {
    let dir = site();
    let path = "/img/favicon.png";

    // initial call to get the resource's etag
    let response = get(&dir, path);
    assert_eq!(response.status.as_u16(), 200);
    let etags = values(&response, HeaderName::ETag);
    assert_eq!(etags.len(), 1, "there should be only one etag");
    assert_eq!(response.body, favicon());
    assert_eq!(values(&response, HeaderName::ContentLength), ["14"]);
    assert!(values(&response, HeaderName::AcceptEncoding).is_empty());

    // and now try revalidating with said tag
    let tag = IfNoneMatch(etags[0].clone());
    let response = dir.serve(path, Some("gzip"), Some(tag));
    assert_eq!(response.status.as_u16(), 304);
    assert_eq!(
        snapshot(&response),
        pairs(&[
            ("cache-control", "max-age=300"),
            ("content-type", "image/png"),
            ("server", "a-blog-out-of-deep-space/0.1.0"),
        ])
    );
    assert!(response.body.is_empty());
}

#[test]
fn revalidation_needs_the_exact_fingerprint() {
    let dir = site();
    let etag = values(&get(&dir, "/"), HeaderName::ETag).remove(0);
    for wrong in [
        etag.trim_matches('"').to_owned(),
        format!("W/{etag}"),
        etag.to_uppercase(),
        String::from("*"),
        String::new(),
    ] {
        let response = dir.serve("/", None, Some(IfNoneMatch(wrong)));
        assert_eq!(response.status.as_u16(), 200);
    }
}

/// server supports serving compressed content through proactive-content negotiation
#[test]
fn proactive_content_negotiation() {
    let dir = site();
    let path = "/sitemap.xml";

    // get response with a compressed body
    let response = dir.serve(path, Some("gzip, deflate, br, zstd"), None);
    assert_eq!(response.status.as_u16(), 200);
    assert_eq!(values(&response, HeaderName::AcceptEncoding), ["gzip, br"]);
    assert_eq!(values(&response, HeaderName::Vary), ["accept-encoding"]);
    assert_eq!(values(&response, HeaderName::ContentEncoding), ["gzip"]);
    assert_eq!(
        values(&response, HeaderName::ContentLength),
        [response.body.len().to_string()]
    );
    let compressed_body = response.body;

    // and now the uncompressed body
    let response = get(&dir, path);
    assert_eq!(response.status.as_u16(), 200);
    let full_body = String::from_utf8(response.body).unwrap();
    assert_eq!(full_body, sitemap());

    // which should be equal to the decompressed body
    assert_ne!(compressed_body, full_body.as_bytes());
    assert_eq!(String::from_utf8(gunzip(&compressed_body)).unwrap(), full_body);
}

#[test]
fn loading_twice_gives_the_same_fingerprints() {
    let first = site();
    let second = site();
    for path in ["/", "/posts", "/sitemap.xml", "/img/favicon.png", "/404.html"] {
        let a = get(&first, path);
        let b = get(&second, path);
        assert_eq!(values(&a, HeaderName::ETag), values(&b, HeaderName::ETag));
        assert_eq!(values(&a, HeaderName::ETag).len(), 1);
    }
}

#[test]
fn rebuilt_site_answers_alike() {
    let first = site();
    let second = site();
    for path in ["/", "/posts", "/posts/", "/sitemap.xml", "/img/favicon.png", "/404.html", "/none"] {
        for accept in [None, Some("gzip"), Some("br"), Some("deflate")] {
            let a = first.serve(path, accept, None);
            let b = second.serve(path, accept, None);
            assert_eq!(a.status.as_u16(), b.status.as_u16());
            assert_eq!(snapshot(&a), snapshot(&b));
            assert_eq!(a.body, b.body);
        }
    }
}

#[test]
fn every_servable_file_is_in_the_site() {
    let mut dir = ServedDir::new();
    for (path, contents) in [
        ("a.html", &b"<p>a</p>"[..]),
        ("b.css", &b""[..]),
        ("c/d.js", &b"let d;"[..]),
        ("e.svg", &b"<svg/>"[..]),
        ("f.xml", &b"<f/>"[..]),
        ("g.txt", &b"g"[..]),
        ("h.png", &[0xff, 0xfe][..]),
    ] {
        assert!(dir.insert(path, contents.to_vec()), "{path}");
        let response = get(&dir, &format!("/{path}"));
        assert_eq!(response.status.as_u16(), 200);
        assert_eq!(response.body, contents);
    }
}

#[test]
fn unservable_files_are_skipped() {
    let mut dir = ServedDir::new();
    assert!(!dir.insert("notes.md", b"# notes".to_vec()));
    assert!(!dir.insert("LICENSE", b"text".to_vec()));
    assert!(!dir.insert(".html", b"<p>hidden</p>".to_vec()));
    assert!(!dir.insert("broken.html", vec![b'<', 0xff, 0xfe, b'>']));
    assert!(!dir.insert("page.HTML", b"<p>upper</p>".to_vec()));
    assert!(dir.insert("page.html", b"<p>fine</p>".to_vec()));
    assert!(dir.insert("font.woff2", vec![0xff, 0xfe]));
    assert_eq!(get(&dir, "/notes.md").status.as_u16(), 404);
    assert_eq!(get(&dir, "/broken.html").status.as_u16(), 404);
    assert_eq!(get(&dir, "/page.html").status.as_u16(), 200);
    assert_eq!(get(&dir, "/font.woff2").body, [0xff, 0xfe]);
}

#[test]
fn loaded_resources_are_added_under_their_paths() {
    let mut dir = ServedDir::new();
    let page = a_blog_out_of_deep_space::ServedFile::load("b/index.html", b"<p>b</p>".to_vec());
    dir.add("a/index.html", page.unwrap());
    assert_eq!(get(&dir, "/a").body, b"<p>b</p>");
    assert_eq!(get(&dir, "/a/").body, b"<p>b</p>");
    assert_eq!(get(&dir, "/b").status.as_u16(), 404);
    let page = a_blog_out_of_deep_space::ServedFile::load("x.txt", b"gone".to_vec());
    dir.add("410.html", page.unwrap());
    let response = dir.get_status(StatusCode::from_u16(410).unwrap());
    assert_eq!(response.body, b"gone");
    assert_eq!(values(&response, HeaderName::ContentType), ["text/plain"]);
    assert_eq!(get(&dir, "/x.txt").status.as_u16(), 404);
}

#[test]
fn later_file_replaces_an_earlier_one() {
    let dir = ServedDir::load(vec![
        source("a.txt", b"first".to_vec()),
        source("503.html", b"<p>old</p>".to_vec()),
        source("a.txt", b"second".to_vec()),
        source("503.html", b"<p>new</p>".to_vec()),
    ]);
    assert_eq!(get(&dir, "/a.txt").body, b"second");
    let page = dir.get_status(StatusCode::service_unavailable());
    assert_eq!(page.body, b"<p>new</p>");
}

#[test]
fn status_page_names_need_three_digits() {
    let dir = ServedDir::load(vec![
        source("099.html", b"<p>a</p>".to_vec()),
        source("1000.html", b"<p>b</p>".to_vec()),
        source("40x.html", b"<p>c</p>".to_vec()),
        source("pages/404.html", b"<p>d</p>".to_vec()),
        source("999.html", b"<p>e</p>".to_vec()),
    ]);
    assert_eq!(get(&dir, "/099.html").body, b"<p>a</p>");
    assert_eq!(get(&dir, "/1000.html").body, b"<p>b</p>");
    assert_eq!(get(&dir, "/40x.html").body, b"<p>c</p>");
    assert_eq!(get(&dir, "/pages/404.html").body, b"<p>d</p>");
    assert_eq!(get(&dir, "/999.html").status.as_u16(), 404);
    assert_eq!(dir.get_status(StatusCode::from_u16(999).unwrap()).body, b"<p>e</p>");
}

#[test]
fn paths_without_a_known_extension_name_directories() {
    let dir = ServedDir::load(vec![
        source("v1.2/index.html", b"<p>release</p>".to_vec()),
        source("docs/index.html", b"<p>docs</p>".to_vec()),
    ]);
    assert_eq!(get(&dir, "/v1.2").body, b"<p>release</p>");
    assert_eq!(get(&dir, "/docs").body, b"<p>docs</p>");
    assert_eq!(get(&dir, "/docs/index").status.as_u16(), 404);
    let key: Vec<char> = "/docs".chars().collect();
    assert!(dir.get_file_directly(&key, Encoding::Identity, None).is_some());
    let key: Vec<char> = "/docs/index".chars().collect();
    assert!(dir.get_file_directly(&key, Encoding::Identity, None).is_none());
}
