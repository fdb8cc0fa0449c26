//! A static site held in memory: resources loaded once from the files of a
//! directory, and the response that each request gets from them.

pub mod admission;
pub mod alias;
pub mod codec;
pub mod content_type;
pub mod dir;
pub mod extract;
pub mod file;
pub mod pages;
pub mod response;
pub mod router;
pub mod status;
pub mod text;
pub mod util;

pub use admission::Admission;
pub use content_type::ContentType;
pub use dir::{ServedDir, SourceFile};
pub use extract::{Encoding, IfNoneMatch};
pub use file::ServedFile;
pub use response::{Header, HeaderName, Response};
pub use router::ServeError;
pub use status::StatusCode;
pub use util::TotalSize;
