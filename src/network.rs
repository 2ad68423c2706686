//! Networking data: URLs, HTTP messages and loaded resources.
pub mod url;
pub mod http;
