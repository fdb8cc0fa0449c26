use std::io::Read;

use a_blog_out_of_deep_space::content_type::ContentType;
use a_blog_out_of_deep_space::extract::{Encoding, IfNoneMatch};
use a_blog_out_of_deep_space::file::{extension_of, fingerprint, ServedFile};
use a_blog_out_of_deep_space::response::{HeaderName, Response};
use a_blog_out_of_deep_space::router::{serve_file, status_code_page};
use a_blog_out_of_deep_space::status::StatusCode;
use a_blog_out_of_deep_space::util::TotalSize;

fn text() -> String {
    "All work and no play makes Jack a dull boy.\n".repeat(40)
}

fn headers(response: &Response) -> Vec<(HeaderName, String)> {
    response.headers.iter().map(|header| (header.name, header.value.clone())).collect()
}

fn extension(path: &str) -> Option<String> {
    let chars: Vec<char> = path.chars().collect();
    extension_of(&chars).map(|ext| ext.into_iter().collect())
}

#[test]
fn extension_is_what_follows_the_last_dot_of_the_file_name() {
    assert_eq!(extension("index.html"), Some(String::from("html")));
    assert_eq!(extension("posts/index.html"), Some(String::from("html")));
    assert_eq!(extension("archive.tar.gz"), Some(String::from("gz")));
    assert_eq!(extension("v1.2/readme"), None);
    assert_eq!(extension("v1.2/readme.txt"), Some(String::from("txt")));
    assert_eq!(extension("LICENSE"), None);
    assert_eq!(extension(""), None);
    assert_eq!(extension(".html"), None);
    assert_eq!(extension("dir/.css"), None);
    assert_eq!(extension(".config.js"), Some(String::from("js")));
    assert_eq!(extension("name."), Some(String::new()));
    assert_eq!(extension("dir/"), None);
}

#[test]
fn fingerprint_is_the_quoted_hex_of_the_seeded_hash() {
    assert_eq!(fingerprint(b"hello"), "\"6b2510e1a349fa21\"");
    assert_eq!(fingerprint(b""), "\"8087d170680c6116\"");
    for bytes in [&b"x"[..], &b"hello world"[..], &[0u8; 100][..], &[0xff, 0x00, 0x7f][..]] {
        let hash = twox_hash::XxHash64::oneshot(0xc0ffee, bytes);
        assert_eq!(fingerprint(bytes), format!("\"{hash:x}\""));
    }
}

#[test]
fn fingerprint_depends_on_the_bytes_alone() {
    let a = ServedFile::load("a.html", b"<p>same</p>".to_vec()).unwrap();
    let b = ServedFile::load("deep/down/b.txt", b"<p>same</p>".to_vec()).unwrap();
    let c = ServedFile::load("c.png", b"<p>same</p>".to_vec()).unwrap();
    let d = ServedFile::load("a.html", b"<p>other</p>".to_vec()).unwrap();
    assert_eq!(a.e_tag(), b.e_tag());
    assert_eq!(a.e_tag(), c.e_tag());
    assert_ne!(a.e_tag(), d.e_tag());
    assert_eq!(a.e_tag(), fingerprint(b"<p>same</p>"));
}

#[test]
fn load_classifies_by_extension() {
    assert_eq!(ServedFile::load("a.html", Vec::new()).unwrap().content_type(), ContentType::Html);
    assert_eq!(ServedFile::load("x/y.woff2", Vec::new()).unwrap().content_type(), ContentType::Woff2);
    assert_eq!(ServedFile::load("favicon.ico", Vec::new()).unwrap().content_type(), ContentType::Ico);
    assert!(ServedFile::load("a.htm", Vec::new()).is_none());
    assert!(ServedFile::load("a", Vec::new()).is_none());
    assert!(ServedFile::load(".txt", Vec::new()).is_none());
    assert!(ServedFile::load("", Vec::new()).is_none());
}

#[test]
fn compressible_files_must_be_text() {
    let binary = vec![0xc3, 0x28, 0xff];
    for path in ["a.html", "a.js", "a.svg", "a.css", "a.xml", "a.txt"] {
        assert!(ServedFile::load(path, binary.clone()).is_none(), "{path}");
        assert!(ServedFile::load(path, "na\u{ef}ve \u{1f980}".as_bytes().to_vec()).is_some());
    }
    for path in ["a.woff", "a.woff2", "a.png", "a.ico"] {
        assert!(ServedFile::load(path, binary.clone()).is_some(), "{path}");
    }
}

#[test]
fn opaque_resource_has_one_body() {
    let bytes = vec![1, 2, 3, 0xff];
    let file = ServedFile::load("img/a.png", bytes.clone()).unwrap();
    for encoding in [Encoding::Identity, Encoding::Gzip, Encoding::Brotli] {
        let response = file.to_response(encoding, None);
        assert_eq!(response.status.as_u16(), 200);
        assert_eq!(response.body, bytes);
        assert_eq!(
            headers(&response),
            vec![
                (HeaderName::Server, String::from("a-blog-out-of-deep-space/0.1.0")),
                (HeaderName::ContentType, String::from("image/png")),
                (HeaderName::CacheControl, String::from("max-age=300")),
                (HeaderName::ETag, fingerprint(&bytes)),
                (HeaderName::ContentLength, String::from("4")),
            ]
        );
    }
}

#[test]
fn identity_response_of_text() {
    let file = ServedFile::load("a.txt", text().into_bytes()).unwrap();
    let response = file.to_response(Encoding::Identity, None);
    assert_eq!(response.status.as_u16(), 200);
    assert_eq!(response.body, text().into_bytes());
    assert_eq!(
        headers(&response),
        vec![
            (HeaderName::Server, String::from("a-blog-out-of-deep-space/0.1.0")),
            (HeaderName::ContentType, String::from("text/plain")),
            (HeaderName::CacheControl, String::from("max-age=300")),
            (HeaderName::AcceptEncoding, String::from("gzip, br")),
            (HeaderName::ETag, fingerprint(text().as_bytes())),
            (HeaderName::ContentLength, String::from("1760")),
        ]
    );
}

#[test]
fn gzip_response_decodes_to_the_identity_body() {
    let file = ServedFile::load("a.css", text().into_bytes()).unwrap();
    let response = file.to_response(Encoding::Gzip, None);
    assert_eq!(response.status.as_u16(), 200);
    assert_eq!(&response.body[..3], [0x1f, 0x8b, 8]);
    assert!(response.body.len() < text().len());
    assert_eq!(
        headers(&response),
        vec![
            (HeaderName::Server, String::from("a-blog-out-of-deep-space/0.1.0")),
            (HeaderName::ContentType, String::from("text/css; charset=utf-8")),
            (HeaderName::CacheControl, String::from("max-age=300")),
            (HeaderName::AcceptEncoding, String::from("gzip, br")),
            (HeaderName::Vary, String::from("accept-encoding")),
            (HeaderName::ContentEncoding, String::from("gzip")),
            (HeaderName::ETag, fingerprint(text().as_bytes())),
            (HeaderName::ContentLength, response.body.len().to_string()),
        ]
    );
    let mut decoded = Vec::new();
    flate2::read::GzDecoder::new(&response.body[..]).read_to_end(&mut decoded).unwrap();
    assert_eq!(decoded, file.to_response(Encoding::Identity, None).body);
}

#[test]
fn brotli_response_decodes_to_the_identity_body() {
    let file = ServedFile::load("a.js", text().into_bytes()).unwrap();
    let response = file.to_response(Encoding::Brotli, None);
    assert!(response.body.len() < text().len());
    assert!(headers(&response).contains(&(HeaderName::ContentEncoding, String::from("br"))));
    assert!(headers(&response).contains(&(HeaderName::Vary, String::from("accept-encoding"))));
    let mut decoded = Vec::new();
    brotli::Decompressor::new(&response.body[..], 4096).read_to_end(&mut decoded).unwrap();
    assert_eq!(decoded, text().into_bytes());
}

#[test]
fn empty_text_still_has_encodings() {
    let file = ServedFile::load("empty.txt", Vec::new()).unwrap();
    assert!(file.to_response(Encoding::Identity, None).body.is_empty());
    for encoding in [Encoding::Gzip, Encoding::Brotli] {
        assert!(!file.to_response(encoding, None).body.is_empty());
    }
    assert!(file.poorly_compressed());
}

#[test]
fn matching_validator_gives_not_modified() {
    let file = ServedFile::load("a.html", text().into_bytes()).unwrap();
    let tag = file.e_tag().to_owned();
    for encoding in [Encoding::Identity, Encoding::Gzip, Encoding::Brotli] {
        let response = serve_file(encoding, Some(IfNoneMatch(tag.clone())), &file);
        assert_eq!(response.status.as_u16(), 304);
        assert!(response.body.is_empty());
        assert_eq!(
            headers(&response),
            vec![
                (HeaderName::Server, String::from("a-blog-out-of-deep-space/0.1.0")),
                (HeaderName::ContentType, String::from("text/html; charset=utf-8")),
                (HeaderName::CacheControl, String::from("max-age=300")),
            ]
        );
    }
    let stale = serve_file(Encoding::Identity, Some(IfNoneMatch(String::from("\"0\""))), &file);
    assert_eq!(stale.status.as_u16(), 200);
}

#[test]
fn poor_compression_is_told_apart() {
    assert!(!ServedFile::load("a.txt", text().into_bytes()).unwrap().poorly_compressed());
    assert!(ServedFile::load("a.txt", b"tiny".to_vec()).unwrap().poorly_compressed());
    assert!(!ServedFile::load("a.png", b"tiny".to_vec()).unwrap().poorly_compressed());
}

#[test]
fn total_size_counts_every_stored_form() {
    let opaque = ServedFile::load("a.png", vec![0; 10]).unwrap();
    assert_eq!(opaque.total_size(), opaque.e_tag().len() + 1 + 10);
    let file = ServedFile::load("a.txt", text().into_bytes()).unwrap();
    let gzip = file.to_response(Encoding::Gzip, None).body.len();
    let brotli = file.to_response(Encoding::Brotli, None).body.len();
    assert_eq!(file.total_size(), file.e_tag().len() + 1 + 1760 + gzip + brotli);
    assert_eq!(ContentType::Html.total_size(), 1);
    assert_eq!(vec![1u8, 2, 3].total_size(), 3);
}

#[test]
fn status_page_response_from_a_page() {
    let page = ServedFile::load("404.html", text().into_bytes()).unwrap();
    let response = status_code_page(Some(&page), StatusCode::not_found());
    assert_eq!(response.status.as_u16(), 404);
    assert_eq!(response.body, text().into_bytes());
    assert_eq!(
        headers(&response),
        vec![
            (HeaderName::Server, String::from("a-blog-out-of-deep-space/0.1.0")),
            (HeaderName::ContentType, String::from("text/html; charset=utf-8")),
            (HeaderName::ETag, fingerprint(text().as_bytes())),
            (HeaderName::ContentLength, String::from("1760")),
        ]
    );
}

#[test]
fn status_page_response_without_a_page() {
    let table = [
        (404, "404 Not Found"),
        (408, "408 Request Timeout"),
        (500, "500 Internal Server Error"),
        (503, "503 Service Unavailable"),
        (200, "200 OK"),
    ];
    for (code, text) in table {
        let status = StatusCode::from_u16(code).unwrap();
        assert_eq!(status.to_text(), text);
        let response = status_code_page(None, status);
        assert_eq!(response.status.as_u16(), code);
        assert!(response.headers.is_empty());
        assert_eq!(response.body, text.as_bytes());
    }
}

#[test]
fn every_text_file_loads() {
    let long = "0123456789abcdef".repeat(4_000);
    for contents in ["", "a", "\u{0}", "na\u{ef}ve \u{1f980}", long.as_str()] {
        for path in ["a.html", "b/c.js", "d.svg", "e.css", "f.xml", "g.txt"] {
            let file = ServedFile::load(path, contents.as_bytes().to_vec()).unwrap();
            assert_eq!(file.to_response(Encoding::Identity, None).body, contents.as_bytes());
            let brotli = file.to_response(Encoding::Brotli, None).body;
            let mut decoded = Vec::new();
            brotli::Decompressor::new(&brotli[..], 4096).read_to_end(&mut decoded).unwrap();
            assert_eq!(decoded, contents.as_bytes());
            let gzip = file.to_response(Encoding::Gzip, None).body;
            let mut decoded = Vec::new();
            flate2::read::GzDecoder::new(&gzip[..]).read_to_end(&mut decoded).unwrap();
            assert_eq!(decoded, contents.as_bytes());
        }
    }
}

#[test]
fn encodings_depend_on_the_bytes_alone() {
    let a = ServedFile::load("a.html", text().into_bytes()).unwrap();
    let b = ServedFile::load("other/b.txt", text().into_bytes()).unwrap();
    let c = ServedFile::load("c.txt", b"something else".to_vec()).unwrap();
    for encoding in [Encoding::Gzip, Encoding::Brotli] {
        assert_eq!(a.to_response(encoding, None).body, b.to_response(encoding, None).body);
        assert_ne!(a.to_response(encoding, None).body, c.to_response(encoding, None).body);
    }
}
