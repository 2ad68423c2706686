use astra_kernel::network::http::{parse_response, HttpError, HttpMethod, HttpRequest, HttpResponse, HttpHeader, HttpStatus};
use astra_kernel::network::url::{Url, UrlError};
use astra_kernel::resource::{Resource, ResourceType};

#[test]
fn test_parse_simple_url() {
    let url = Url::parse("http://example.com/path").unwrap();
    assert_eq!(url.scheme, "http");
    assert_eq!(url.host, Some(String::from("example.com")));
    assert_eq!(url.port, None);
    assert_eq!(url.path, "/path");
}

#[test]
fn test_parse_url_with_port() {
    let url = Url::parse("http://example.com:8080/path").unwrap();
    assert_eq!(url.port, Some(8080));
}

#[test]
fn test_parse_url_with_query() {
    let url = Url::parse("http://example.com/path?key=value").unwrap();
    assert_eq!(url.query, Some(String::from("key=value")));
}

#[test]
fn test_file_url() {
    let url = Url::parse("file:///home/user/file.html").unwrap();
    assert_eq!(url.scheme, "file");
    assert_eq!(url.path, "/home/user/file.html");
}

#[test]
fn url_errors() {
    assert_eq!(Url::parse("   ").unwrap_err(), UrlError::EmptyUrl);
    assert_eq!(Url::parse("example.com").unwrap_err(), UrlError::MissingScheme);
    assert_eq!(Url::parse("ht tp://x/").unwrap_err(), UrlError::InvalidScheme);
    assert_eq!(Url::parse("http://").unwrap_err(), UrlError::EmptyAuthority);
    assert_eq!(Url::parse("http://:80/").unwrap_err(), UrlError::EmptyHost);
    assert_eq!(Url::parse("http://h:99999/").unwrap_err(), UrlError::InvalidPort);
    assert_eq!(Url::parse("http://h:8x/").unwrap_err(), UrlError::InvalidPort);
    assert_eq!(UrlError::InvalidPort.message(), "Invalid port");
}

#[test]
fn url_parts_and_text() {
    let url = Url::parse("  https://Example.org:8443/a/b?x=1#top  ").unwrap();
    assert_eq!(url.scheme, "https");
    assert_eq!(url.host, Some(String::from("Example.org")));
    assert_eq!(url.port, Some(8443));
    assert_eq!(url.path, "/a/b");
    assert_eq!(url.query, Some(String::from("x=1")));
    assert_eq!(url.fragment, Some(String::from("top")));
    assert_eq!(url.to_string(), "https://Example.org:8443/a/b?x=1#top");
    let plain = Url::parse("http://example.com").unwrap();
    assert_eq!(plain.path, "/");
    assert_eq!(plain.default_port(), Some(80));
    assert_eq!(plain.port_or_default(), Some(80));
    let default_port = Url::parse("http://example.com:80/x").unwrap();
    assert_eq!(default_port.to_string(), "http://example.com/x");
    let other = Url::parse("gopher:rest").unwrap();
    assert_eq!(other.default_port(), None);
    assert_eq!(other.scheme, "gopher");
}

#[test]
fn test_http_request_get() {
    let url = Url::parse("http://example.com/path").unwrap();
    let request = HttpRequest::get(url);
    assert_eq!(request.method, HttpMethod::GET);
    let req_str = request.to_request_string();
    assert!(req_str.starts_with("GET /path HTTP/1.1\r\n"));
    assert!(req_str.contains("Host: example.com\r\n"));
}

#[test]
fn request_text_in_full() {
    let url = Url::parse("http://h/p?q=1").unwrap();
    let mut request = HttpRequest::get(url);
    request.add_header(String::from("X-A"), String::from("b"));
    assert_eq!(request.headers.len(), 5);
    assert_eq!(
        request.to_request_string(),
        "GET /p?q=1 HTTP/1.1\r\nHost: h\r\nUser-Agent: ASTRA.OS-Browser/0.1\r\nAccept: text/html,text/css,*/*\r\nConnection: close\r\nX-A: b\r\n\r\n"
    );
    assert_eq!(HttpMethod::POST.as_str(), "POST");
    assert_eq!(HttpMethod::HEAD.as_str(), "HEAD");
}

#[test]
fn status_classes() {
    let s = HttpStatus::new(204, String::from("No Content"));
    assert!(s.is_success() && !s.is_redirect());
    assert!(HttpStatus::new(301, String::new()).is_redirect());
    assert!(HttpStatus::new(404, String::new()).is_client_error());
    assert!(HttpStatus::new(503, String::new()).is_server_error());
    assert!(!HttpStatus::new(600, String::new()).is_server_error());
}

#[test]
fn response_headers() {
    let mut response = HttpResponse::new();
    assert_eq!(response.status.code, 0);
    response.headers.push(HttpHeader::new(String::from("content-type"), String::from("text/css")));
    response.headers.push(HttpHeader::new(String::from("Content-Length"), String::from("42")));
    response.headers.push(HttpHeader::new(String::from("CONTENT-TYPE"), String::from("ignored")));
    assert_eq!(response.content_type(), Some(&String::from("text/css")));
    assert_eq!(response.content_length(), Some(42));
    assert_eq!(response.get_header("missing"), None);
    response.body = b"Hi".to_vec();
    assert_eq!(response.body_as_string(), Some(String::from("Hi")));
    response.body = vec![0xff, 0xfe];
    assert_eq!(response.body_as_string(), None);
}

#[test]
fn test_resource_type_detection() {
    let url = Url::parse("http://example.com/style.css").unwrap();
    assert_eq!(ResourceType::from_url(&url), ResourceType::Css);
    let url = Url::parse("http://example.com/index.html").unwrap();
    assert_eq!(ResourceType::from_url(&url), ResourceType::Html);
}

#[test]
fn test_content_type_detection() {
    assert_eq!(ResourceType::from_content_type("text/html; charset=utf-8"), ResourceType::Html);
    assert_eq!(ResourceType::from_content_type("text/css"), ResourceType::Css);
}

#[test]
fn resource_kinds() {
    let url = Url::parse("http://example.com/PIC.JPEG").unwrap();
    assert_eq!(ResourceType::from_url(&url), ResourceType::Image);
    assert_eq!(ResourceType::from_content_type("Application/JavaScript"), ResourceType::JavaScript);
    assert_eq!(ResourceType::from_content_type("image/png"), ResourceType::Image);
    assert_eq!(ResourceType::from_content_type("application/octet-stream"), ResourceType::Unknown);
    let r = Resource::new(Url::parse("file:///a.js").unwrap(), b"x=1".to_vec());
    assert_eq!(r.resource_type, ResourceType::JavaScript);
    assert_eq!(r.as_string(), Some(String::from("x=1")));
}

#[test]
fn test_parse_response() {
    let response_data = b"HTTP/1.1 200 OK\r\nContent-Type: text/html\r\nContent-Length: 5\r\n\r\nHello";
    let response = parse_response(response_data).unwrap();
    assert_eq!(response.status.code, 200);
    assert_eq!(response.status.reason, "OK");
    assert_eq!(response.get_header("Content-Type"), Some(&String::from("text/html")));
    assert_eq!(response.body, b"Hello");
}

#[test]
fn response_errors() {
    assert_eq!(parse_response(b"HTTP/1.1 200 OK\r\n").err().unwrap(), HttpError::NoHeaderEnd);
    assert_eq!(parse_response(b"HTTP/1.1\r\n\r\n").err().unwrap(), HttpError::InvalidStatusLine);
    assert_eq!(parse_response(b"HTTP/1.1 OK\r\n\r\n").err().unwrap(), HttpError::InvalidStatusCode);
    assert_eq!(parse_response(b"\xff 200\r\n\r\n").err().unwrap(), HttpError::InvalidUtf8);
    assert_eq!(parse_response(b"\r\n\r\n").err().unwrap(), HttpError::MissingStatusLine);
    let r = parse_response(b"HTTP/1.0 404 Not Found\r\nbad line\r\n X :  y \r\n\r\n").unwrap();
    assert_eq!(r.status.reason, "Not Found");
    assert_eq!(r.headers.len(), 1);
    assert_eq!(r.headers[0].name, "X");
    assert_eq!(r.headers[0].value, "y");
    assert!(r.body.is_empty());
}

#[test]
fn unicode_white_space_is_trimmed() {
    let url = Url::parse("\u{3000}\t http://example.com/x \u{a0}\n").unwrap();
    assert_eq!(url.path, "/x");
    assert_eq!(url.host, Some(String::from("example.com")));
}
