pub mod method;
pub mod query_str;
pub mod request;
pub mod text;

pub use method::Method;
pub use method::MethodError;
pub use query_str::QueryString;
pub use query_str::Value;
pub use query_str::Value as QueryStringValue;
pub use request::get_next_word;
pub use request::ParseErrorInvalid;
pub use request::Request;
