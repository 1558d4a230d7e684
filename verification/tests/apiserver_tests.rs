use overlay_core::apiserver::{
    json_body, not_found_contents, Endpoint, Request, Response, Router, REQUEST_BYTES,
};

fn buffer_of(text: &[u8]) -> [u8; 1024] {
    let mut buffer = [0u8; 1024];
    buffer[..text.len()].copy_from_slice(text);
    buffer
}

#[test]
fn request_line_is_the_first_two_words() {
    let request = Request::parse(buffer_of(b"GET /api/menu HTTP/1.1\r\nHost: x\r\n\r\n"));
    assert_eq!(request.method(), "GET");
    assert_eq!(request.path(), "/api/menu");
    let request = Request::parse(buffer_of(b"  \r\n\tPUT\t\t/x/y?z=1 rest"));
    assert_eq!(request.method(), "PUT");
    assert_eq!(request.path(), "/x/y?z=1");
    assert_eq!(REQUEST_BYTES, 1024);
}

#[test]
fn request_of_one_word_is_a_post_of_the_root() {
    // the padding of zero bytes is no white space: it belongs to the one word
    let request = Request::parse(buffer_of(b"GET"));
    assert_eq!(request.method(), "POST");
    assert_eq!(request.path(), "/");
    let request = Request::parse([0u8; 1024]);
    assert_eq!(request.method(), "POST");
    assert_eq!(request.path(), "/");
    let request = Request::parse([b' '; 1024]);
    assert_eq!(request.method(), "POST");
    assert_eq!(request.path(), "/");
}

#[test]
fn request_path_takes_the_padding_when_it_is_last() {
    let request = Request::parse(buffer_of(b"GET /a"));
    assert_eq!(request.method(), "GET");
    let mut expected = String::from("/a");
    expected.push_str(&"\0".repeat(1024 - 6));
    assert_eq!(request.path(), expected);
}

#[test]
fn request_splits_on_unicode_white_space() {
    let request = Request::parse(buffer_of("GET\u{a0}/p\u{2003}x".as_bytes()));
    assert_eq!(request.method(), "GET");
    assert_eq!(request.path(), "/p");
}

#[test]
fn request_replaces_invalid_bytes() {
    let request = Request::parse(buffer_of(&[b'G', 0xff, b'T', b' ', b'/', 0xfe, b' ']));
    assert_eq!(request.method(), "G\u{fffd}T");
    assert_eq!(request.path(), "/\u{fffd}");
    let text = request.text();
    assert!(text.starts_with("G\u{fffd}T /\u{fffd} \0"));
    assert_eq!(text.chars().count(), 1024);
}

#[test]
fn request_agrees_with_split_whitespace() {
    let inputs: [&[u8]; 5] =
        [b"POST /api/menu HTTP/1.1 {}", b"a b", b" a  b ", b"\n\nDELETE\n/\n", b"x\x0by\x0cz"];
    for input in inputs {
        let buffer = buffer_of(input);
        let text = String::from_utf8_lossy(&buffer).to_string();
        let parts: Vec<&str> = text.split_whitespace().collect();
        let (method, path) = if parts.len() > 1 { (parts[0], parts[1]) } else { ("POST", "/") };
        let request = Request::parse(buffer);
        assert_eq!(request.method(), method);
        assert_eq!(request.path(), path);
    }
}

#[test]
fn routes() {
    let router = Router::new();
    assert_eq!(router.route("/api/menu"), (Endpoint::MenuSettings, "HTTP/1.1 200 OK"));
    assert_eq!(router.route("/"), (Endpoint::NotFound, "HTTP/1.1 404 NOT FOUND"));
    assert_eq!(router.route("/api/menu/"), (Endpoint::NotFound, "HTTP/1.1 404 NOT FOUND"));
    assert_eq!(router.route("/api"), (Endpoint::NotFound, "HTTP/1.1 404 NOT FOUND"));
    assert_eq!(router.route(""), (Endpoint::NotFound, "HTTP/1.1 404 NOT FOUND"));
    assert_eq!(router.route("/API/MENU"), (Endpoint::NotFound, "HTTP/1.1 404 NOT FOUND"));
}

#[test]
fn response_text() {
    let response = Response::new("HTTP/1.1 200 OK", "{}".to_string());
    assert_eq!(
        response.deserialize_into_string(),
        "HTTP/1.1 200 OK\r\nContent-Type: application/json\r\nContent-Length: 2\r\n\r\n{}"
    );
}

#[test]
fn response_of_the_default_route() {
    let contents = not_found_contents();
    assert_eq!(contents, "{ \"message\" : \"Resource not found\" }");
    let response = Response::new("HTTP/1.1 404 NOT FOUND", contents);
    assert_eq!(
        response.deserialize_into_string(),
        "HTTP/1.1 404 NOT FOUND\r\nContent-Type: application/json\r\nContent-Length: 36\r\n\r\n{ \"message\" : \"Resource not found\" }"
    );
}

#[test]
fn response_length_is_in_decimal_and_counts_bytes() {
    let response = Response::new("S", String::new());
    assert_eq!(
        response.deserialize_into_string(),
        "S\r\nContent-Type: application/json\r\nContent-Length: 0\r\n\r\n"
    );
    let response = Response::new("S", "x".repeat(10));
    assert!(response.deserialize_into_string().contains("Content-Length: 10\r\n"));
    let response = Response::new("S", "x".repeat(1907));
    assert!(response.deserialize_into_string().contains("Content-Length: 1907\r\n"));
    let response = Response::new("S", "\u{e9}\u{263a}".to_string());
    assert!(response.deserialize_into_string().contains("Content-Length: 5\r\n"));
    for n in [9usize, 99, 100, 101, 12345] {
        let response = Response::new("S", "y".repeat(n));
        let expected = format!(
            "S\r\nContent-Type: application/json\r\nContent-Length: {}\r\n\r\n{}",
            n,
            "y".repeat(n)
        );
        assert_eq!(response.deserialize_into_string(), expected);
    }
}

#[test]
fn body_lies_between_the_outer_braces() {
    let request = b"POST /api/menu HTTP/1.1\r\n\r\n{\"a\": {\"b\": 1}} trailing";
    assert_eq!(json_body(request), Some(&b"{\"a\": {\"b\": 1}}"[..]));
    assert_eq!(json_body(b"{}"), Some(&b"{}"[..]));
    assert_eq!(json_body(b"x{y}z{w}q"), Some(&b"{y}z{w}"[..]));
}

#[test]
fn body_without_braces() {
    // no opening brace: the body starts at the first byte
    assert_eq!(json_body(b"abc}def"), Some(&b"abc}"[..]));
    // no closing brace: the body ends behind the first byte
    assert_eq!(json_body(b"abc"), Some(&b"a"[..]));
    assert_eq!(json_body(b"{abc"), Some(&b"{"[..]));
    assert_eq!(json_body(b"a{bc"), Some(&b""[..]));
}

#[test]
fn body_that_cannot_be_cut() {
    assert_eq!(json_body(b""), None);
    assert_eq!(json_body(b"ab{cd"), None);
    assert_eq!(json_body(b"}ab{"), None);
    assert_eq!(json_body(b"a}b{c"), None);
}

#[test]
fn every_white_space_character_separates_words() {
    let spaces = [
        '\u{9}', '\u{a}', '\u{b}', '\u{c}', '\u{d}', ' ', '\u{85}', '\u{a0}', '\u{1680}',
        '\u{2000}', '\u{2001}', '\u{2002}', '\u{2003}', '\u{2004}', '\u{2005}', '\u{2006}',
        '\u{2007}', '\u{2008}', '\u{2009}', '\u{200a}', '\u{2028}', '\u{2029}', '\u{202f}',
        '\u{205f}', '\u{3000}',
    ];
    assert_eq!(spaces.len(), 25);
    for space in spaces {
        let text = format!("GET{}/p{}", space, space);
        let request = Request::parse(buffer_of(text.as_bytes()));
        assert_eq!(request.method(), "GET", "{:?}", space);
        assert_eq!(request.path(), "/p", "{:?}", space);
    }
}

#[test]
fn other_characters_separate_nothing() {
    for other in ['\0', '\u{8}', '\u{e}', '\u{1f}', '\u{180e}', '\u{200b}', '\u{2060}', '\u{feff}'] {
        let text = format!("GET{}/p x ", other);
        let request = Request::parse(buffer_of(text.as_bytes()));
        assert_eq!(request.method(), format!("GET{}/p", other), "{:?}", other);
        assert_eq!(request.path(), "x", "{:?}", other);
    }
}
