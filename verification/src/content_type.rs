//! Media types of servable files, decided by file extension alone.

use crate::text::{chars_eq, chars_of};
use vstd::prelude::*;

verus! {

/// The media type of a servable file.
#[derive(Clone, Copy, Debug, PartialEq, Eq, Structural)]
pub enum ContentType {
    Html,
    Js,
    Svg,
    Css,
    Xml,
    Txt,
    Woff,
    Woff2,
    Png,
    Ico,
}

/// The media type that belongs to a file extension; `None` for every
/// extension that is not listed. Extensions are matched exactly, in lower
/// case.
pub open spec fn content_type_of_ext(ext: Seq<char>) -> Option<ContentType> {
    if ext == "html"@ {
        Some(ContentType::Html)
    } else if ext == "js"@ {
        Some(ContentType::Js)
    } else if ext == "svg"@ {
        Some(ContentType::Svg)
    } else if ext == "css"@ {
        Some(ContentType::Css)
    } else if ext == "xml"@ {
        Some(ContentType::Xml)
    } else if ext == "txt"@ {
        Some(ContentType::Txt)
    } else if ext == "woff"@ {
        Some(ContentType::Woff)
    } else if ext == "woff2"@ {
        Some(ContentType::Woff2)
    } else if ext == "png"@ {
        Some(ContentType::Png)
    } else if ext == "ico"@ {
        Some(ContentType::Ico)
    } else {
        None
    }
}

/// Whether `v` holds exactly the text of `lit`.
pub fn is_text(v: &[char], lit: &str) -> (r: bool)
    ensures
        r == (v@ == lit@),
{
    let l = chars_of(lit);
    chars_eq(v, l.as_slice())
}

impl ContentType {
    /// Text types are compressible; fonts and images are not.
    pub open spec fn compressible(self) -> bool {
        match self {
            ContentType::Html
            | ContentType::Js
            | ContentType::Svg
            | ContentType::Css
            | ContentType::Xml
            | ContentType::Txt => true,
            ContentType::Woff | ContentType::Woff2 | ContentType::Png | ContentType::Ico => false,
        }
    }

    /// The canonical MIME string of the type.
    pub open spec fn mime(self) -> Seq<char> {
        match self {
            ContentType::Html => "text/html; charset=utf-8"@,
            ContentType::Js => "application/javascript; charset=utf-8"@,
            ContentType::Svg => "image/svg+xml"@,
            ContentType::Css => "text/css; charset=utf-8"@,
            ContentType::Xml => "application/xml"@,
            ContentType::Txt => "text/plain"@,
            ContentType::Woff => "font/woff"@,
            ContentType::Woff2 => "font/woff2"@,
            ContentType::Png => "image/png"@,
            ContentType::Ico => "image/x-icon"@,
        }
    }

    /// The value of the `Content-Type` header for this type.
    pub fn into_header_value(self) -> (value: &'static str)
        ensures
            value@ == self.mime(),
    {
        match self {
            ContentType::Html => "text/html; charset=utf-8",
            ContentType::Js => "application/javascript; charset=utf-8",
            ContentType::Svg => "image/svg+xml",
            ContentType::Css => "text/css; charset=utf-8",
            ContentType::Xml => "application/xml",
            ContentType::Txt => "text/plain",
            ContentType::Woff => "font/woff",
            ContentType::Woff2 => "font/woff2",
            ContentType::Png => "image/png",
            ContentType::Ico => "image/x-icon",
        }
    }

    /// Whether bodies of this type are stored with compressed variants.
    #[verifier::when_used_as_spec(compressible)]
    pub fn is_compressible(self) -> (r: bool)
        ensures
            r == self.compressible(),
    {
        match self {
            ContentType::Html
            | ContentType::Js
            | ContentType::Svg
            | ContentType::Css
            | ContentType::Xml
            | ContentType::Txt => true,
            ContentType::Woff | ContentType::Woff2 | ContentType::Png | ContentType::Ico => false,
        }
    }

    /// Classifies an extension given as characters.
    pub fn from_ext_chars(ext: &[char]) -> (ty: Option<ContentType>)
        ensures
            ty == content_type_of_ext(ext@),
    {
        if is_text(ext, "html") {
            Some(ContentType::Html)
        } else if is_text(ext, "js") {
            Some(ContentType::Js)
        } else if is_text(ext, "svg") {
            Some(ContentType::Svg)
        } else if is_text(ext, "css") {
            Some(ContentType::Css)
        } else if is_text(ext, "xml") {
            Some(ContentType::Xml)
        } else if is_text(ext, "txt") {
            Some(ContentType::Txt)
        } else if is_text(ext, "woff") {
            Some(ContentType::Woff)
        } else if is_text(ext, "woff2") {
            Some(ContentType::Woff2)
        } else if is_text(ext, "png") {
            Some(ContentType::Png)
        } else if is_text(ext, "ico") {
            Some(ContentType::Ico)
        } else {
            None
        }
    }

    /// Classifies a lower-case file extension; `None` means that the file is
    /// not servable.
    pub fn from_file_ext(ext: &str) -> (ty: Option<ContentType>)
        ensures
            ty == content_type_of_ext(ext@),
    {
        let chars = chars_of(ext);
        ContentType::from_ext_chars(chars.as_slice())
    }
}

} // verus!
