//! HTTP messages: request parsing, response serialisation and the helpers
//! that go with them.

pub mod headers;
pub mod message;
pub mod response;
pub mod utils;

pub use self::headers::Header;
pub use self::message::{HttpMethod, HttpParseError, HttpRequest};
pub use self::response::HttpResponse;
