//! The control channel's request handling, without its sockets: what a
//! request asks for, where it is routed, and the text of the response.

use vstd::prelude::*;
use vstd::utf8::{decode_utf8, encode_utf8, valid_utf8};
use crate::memory::{lossy_string, utf8_lossy};
use crate::text::{
    find_byte, first_index_of, is_first_index_of, lemma_first_index_of, str_eq, text_chars,
};

verus! {

/// The size of the buffer that a request is read into.
pub const REQUEST_BYTES: usize = 1024;

/// Whether a character has the Unicode property White_Space: the controls
/// from tab to carriage return, the space, the next-line control, the
/// no-break space, the ogham space mark, the spaces of fixed width, the line
/// and paragraph separators, the narrow no-break space, the medium
/// mathematical space and the ideographic space.
pub open spec fn white_space(c: char) -> bool {
    let v = c as u32;
    ||| 0x09 <= v <= 0x0D
    ||| v == 0x20
    ||| v == 0x85
    ||| v == 0xA0
    ||| v == 0x1680
    ||| 0x2000 <= v <= 0x200A
    ||| v == 0x2028
    ||| v == 0x2029
    ||| v == 0x202F
    ||| v == 0x205F
    ||| v == 0x3000
}

/// `char::is_whitespace`: whether the character has the property
/// White_Space, which is the list of code points above.
pub assume_specification[ char::is_whitespace ](c: char) -> (b: bool)
    ensures
        b == white_space(c),
;

/// The position of the first character of `s` that is white space (for
/// `space`) or is not (for `!space`), or the length of `s` where there is
/// none.
pub open spec fn first_with(s: Seq<char>, space: bool) -> int
    decreases s.len(),
{
    if s.len() == 0 {
        0
    } else if white_space(s[0]) == space {
        0
    } else {
        1 + first_with(s.drop_first(), space)
    }
}

/// Whether `i` is the position that `first_with` names.
pub open spec fn is_first_with(s: Seq<char>, space: bool, i: int) -> bool {
    &&& 0 <= i <= s.len()
    &&& forall|k: int| 0 <= k < i ==> white_space(s[k]) != space
    &&& i < s.len() ==> white_space(s[i]) == space
}

/// `first_with` is the one position that `is_first_with` describes.
pub proof fn lemma_first_with(s: Seq<char>, space: bool)
    ensures
        is_first_with(s, space, first_with(s, space)),
        forall|i: int| is_first_with(s, space, i) ==> i == first_with(s, space),
    decreases s.len(),
{
    if s.len() > 0 && white_space(s[0]) != space {
        let rest = s.drop_first();
        lemma_first_with(rest, space);
        let r = first_with(rest, space);
        assert forall|k: int| 0 <= k < 1 + r implies white_space(s[k]) != space by {
            if k > 0 {
                assert(rest[k - 1] == s[k]);
            }
        }
        assert forall|i: int| is_first_with(s, space, i) implies i == 1 + r by {
            assert(i > 0) by {
                if i == 0 {
                    assert(white_space(s[0]) == space);
                }
            }
            assert forall|k: int| 0 <= k < i - 1 implies white_space(rest[k]) != space by {
                assert(rest[k] == s[k + 1]);
            }
            assert(is_first_with(rest, space, i - 1));
        }
    } else {
        assert forall|i: int| is_first_with(s, space, i) implies i == 0 by {
            if i > 0 {
                assert(white_space(s[0]) != space);
            }
        }
    }
}

/// The words of a text: its maximal runs of characters that are not white
/// space, in order.
pub open spec fn words(s: Seq<char>) -> Seq<Seq<char>>
    decreases s.len(),
{
    let start = first_with(s, false);
    if 0 <= start < s.len() {
        let tail = s.skip(start);
        let end = first_with(tail, true);
        if 0 < end <= tail.len() {
            seq![tail.take(end)] + words(tail.skip(end))
        } else {
            Seq::empty()
        }
    } else {
        Seq::empty()
    }
}

/// The method and the path that a request names: its first two words. A
/// request of fewer than two words counts as a `POST` of `/`.
pub open spec fn request_line(text: Seq<char>) -> (Seq<char>, Seq<char>) {
    let parts = words(text);
    if parts.len() > 1 {
        (parts[0], parts[1])
    } else {
        ("POST"@, "/"@)
    }
}

/// A request as it was read, with the method and the path it names.
pub struct Request {
    buffer: [u8; 1024],
    method: String,
    path: String,
}

/// Where a request is routed.
#[derive(Clone, Copy, Debug, PartialEq, Eq, Structural)]
pub enum Endpoint {
    /// The parameter record: the body of the request replaces the
    /// parameters in force.
    MenuSettings,
    /// No resource: the request is answered with a message.
    NotFound,
}

/// One route: the path it answers, the status line of its response, and
/// the endpoint that makes the contents.
pub struct Route {
    pub path: &'static str,
    pub status: &'static str,
    pub endpoint: Endpoint,
}

/// A route with its texts as sequences of characters.
pub ghost struct RouteView {
    pub path: Seq<char>,
    pub status: Seq<char>,
    pub endpoint: Endpoint,
}

impl View for Route {
    type V = RouteView;

    open spec fn view(&self) -> RouteView {
        RouteView { path: self.path@, status: self.status@, endpoint: self.endpoint }
    }
}

/// The table of routes. It always holds a route for the path `/`, which is
/// the default route: it answers every path that has no route of its own.
pub struct Router {
    routes: Vec<Route>,
}

/// A response: the status line, the contents, and their length in bytes.
pub struct Response {
    status: String,
    contents: String,
    contents_size: usize,
}

/// A table of routes by view.
pub open spec fn routes_view(routes: Seq<Route>) -> Seq<RouteView> {
    routes.map_values(|route: Route| route@)
}

/// The paths of a table of routes, in the table's order.
pub open spec fn route_paths(routes: Seq<RouteView>) -> Seq<Seq<char>> {
    routes.map_values(|route: RouteView| route.path)
}

/// The place of the first route for `path`, or the length of the table
/// where it has none.
pub open spec fn route_index(routes: Seq<RouteView>, path: Seq<char>) -> int {
    first_index_of(route_paths(routes), path)
}

/// Whether a table holds the default route.
pub open spec fn has_default_route(routes: Seq<RouteView>) -> bool {
    route_index(routes, "/"@) < routes.len()
}

/// The route that a table gives a path: the path's own route where it has
/// one, else the default route.
pub open spec fn routed(routes: Seq<RouteView>, path: Seq<char>) -> RouteView {
    let own = route_index(routes, path);
    if own < routes.len() {
        routes[own]
    } else {
        routes[route_index(routes, "/"@)]
    }
}

/// The routes of the control channel: the parameter record under
/// `/api/menu`, and the default route, which answers that there is no such
/// resource.
pub open spec fn default_routes() -> Seq<RouteView> {
    seq![
        RouteView {
            path: "/api/menu"@,
            status: "HTTP/1.1 200 OK"@,
            endpoint: Endpoint::MenuSettings,
        },
        RouteView {
            path: "/"@,
            status: "HTTP/1.1 404 NOT FOUND"@,
            endpoint: Endpoint::NotFound,
        },
    ]
}

/// The endpoint of a path: the parameter record under `/api/menu`, and
/// no resource anywhere else.
pub open spec fn endpoint_of(path: Seq<char>) -> Endpoint {
    if path == "/api/menu"@ {
        Endpoint::MenuSettings
    } else {
        Endpoint::NotFound
    }
}

/// The status line for an endpoint.
pub open spec fn status_of(endpoint: Endpoint) -> Seq<char> {
    match endpoint {
        Endpoint::MenuSettings => "HTTP/1.1 200 OK"@,
        Endpoint::NotFound => "HTTP/1.1 404 NOT FOUND"@,
    }
}

/// The character of a decimal digit.
pub open spec fn digit_char(d: int) -> char {
    if d == 0 {
        '0'
    } else if d == 1 {
        '1'
    } else if d == 2 {
        '2'
    } else if d == 3 {
        '3'
    } else if d == 4 {
        '4'
    } else if d == 5 {
        '5'
    } else if d == 6 {
        '6'
    } else if d == 7 {
        '7'
    } else if d == 8 {
        '8'
    } else {
        '9'
    }
}

/// A number in decimal, without leading zeros.
pub open spec fn decimal(n: nat) -> Seq<char>
    decreases n,
{
    if n < 10 {
        seq![digit_char(n as int)]
    } else {
        decimal(n / 10).push(digit_char((n % 10) as int))
    }
}

/// The text of a response: the status line, the two header lines, an empty
/// line, and the contents.
pub open spec fn response_text(status: Seq<char>, size: nat, contents: Seq<char>) -> Seq<char> {
    status + "\r\nContent-Type: application/json\r\nContent-Length: "@ + decimal(size)
        + "\r\n\r\n"@ + contents
}

/// Appends the characters `chars[from..to]` to a string.
fn push_range(text: &mut String, chars: &Vec<char>, from: usize, to: usize)
    requires
        from <= to <= chars@.len(),
    ensures
        final(text)@ == old(text)@ + chars@.subrange(from as int, to as int),
{
    let mut i: usize = from;
    assert(text@ =~= old(text)@ + chars@.subrange(from as int, i as int));
    while i < to
        invariant
            from <= i <= to <= chars@.len(),
            text@ == old(text)@ + chars@.subrange(from as int, i as int),
        decreases to - i,
    {
        text.push(chars[i]);
        assert(chars@.subrange(from as int, i + 1) =~= chars@.subrange(from as int, i as int).push(
            chars@[i as int],
        ));
        assert(text@ =~= old(text)@ + chars@.subrange(from as int, i + 1));
        i = i + 1;
    }
}

/// Finds the first character at or after `from` that is white space (for
/// `space`) or is not (for `!space`).
fn find_with(chars: &Vec<char>, from: usize, space: bool) -> (at: usize)
    requires
        from <= chars@.len(),
    ensures
        at == from + first_with(chars@.skip(from as int), space),
        from <= at <= chars@.len(),
{
    let mut at: usize = from;
    while at < chars.len() && chars[at].is_whitespace() != space
        invariant
            from <= at <= chars@.len(),
            forall|k: int| from <= k < at ==> white_space(chars@[k]) != space,
        decreases chars@.len() - at,
    {
        at = at + 1;
    }
    proof {
        let tail = chars@.skip(from as int);
        assert(is_first_with(tail, space, at - from)) by {
            assert forall|k: int| 0 <= k < at - from implies white_space(tail[k]) != space by {
                assert(tail[k] == chars@[from + k]);
            }
        }
        lemma_first_with(tail, space);
    }
    at
}

/// Appends a number in decimal to a string.
fn push_decimal(text: &mut String, n: usize)
    ensures
        final(text)@ == old(text)@ + decimal(n as nat),
    decreases n,
{
    if n >= 10 {
        push_decimal(text, n / 10);
    }
    let d: usize = n % 10;
    let c: char = if d == 0 {
        '0'
    } else if d == 1 {
        '1'
    } else if d == 2 {
        '2'
    } else if d == 3 {
        '3'
    } else if d == 4 {
        '4'
    } else if d == 5 {
        '5'
    } else if d == 6 {
        '6'
    } else if d == 7 {
        '7'
    } else if d == 8 {
        '8'
    } else {
        '9'
    };
    text.push(c);
    proof {
        if n >= 10 {
            assert(text@ =~= old(text)@ + decimal((n / 10) as nat).push(c));
        } else {
            assert(text@ =~= old(text)@ + seq![c]);
        }
    }
}

impl Request {
    /// The bytes of the request as they were read.
    pub closed spec fn bytes(&self) -> Seq<u8> {
        self.buffer@
    }

    /// The method that the request names.
    pub closed spec fn method_text(&self) -> Seq<char> {
        self.method@
    }

    /// The path that the request names.
    pub closed spec fn path_text(&self) -> Seq<char> {
        self.path@
    }

    /// Reads the request line out of a request buffer. Bytes that are no
    /// valid UTF-8 are replaced before the text is cut into words; the zero
    /// bytes behind a short request are no white space and belong to its
    /// last word.
    pub fn parse(buffer: [u8; 1024]) -> (request: Request)
        ensures
            request.bytes() == buffer@,
            (request.method_text(), request.path_text()) == request_line(utf8_lossy(buffer@)),
            valid_utf8(buffer@) ==> (request.method_text(), request.path_text()) == request_line(
                decode_utf8(buffer@),
            ),
    {
        let text: String = lossy_string(buffer.as_slice());
        let chars: Vec<char> = text_chars(text.as_str());
        let ghost s = chars@;
        let a: usize = find_with(&chars, 0, false);
        assert(s.skip(0) =~= s);
        if a >= chars.len() {
            return Request { buffer, method: "POST".to_owned(), path: "/".to_owned() };
        }
        let b: usize = find_with(&chars, a, true);
        let ghost tail = s.skip(a as int);
        proof {
            lemma_first_with(s, false);
            lemma_first_with(tail, true);
            assert(tail[0] == s[a as int]);
            assert(b > a);
            assert(tail.take(b - a) =~= s.subrange(a as int, b as int));
            assert(tail.skip(b - a) =~= s.skip(b as int));
        }
        let c: usize = find_with(&chars, b, false);
        let ghost rest = s.skip(b as int);
        if c >= chars.len() {
            assert(words(rest) =~= Seq::<Seq<char>>::empty());
            assert(words(s).len() == 1);
            return Request { buffer, method: "POST".to_owned(), path: "/".to_owned() };
        }
        let d: usize = find_with(&chars, c, true);
        let ghost tail2 = rest.skip(c - b);
        proof {
            lemma_first_with(rest, false);
            lemma_first_with(tail2, true);
            assert(tail2 =~= s.skip(c as int));
            assert(rest[c - b] == s[c as int]);
            assert(tail2[0] == s[c as int]);
            assert(d > c);
            assert(tail2.take(d - c) =~= s.subrange(c as int, d as int));
            assert(words(rest) == seq![tail2.take(d - c)] + words(tail2.skip(d - c)));
            assert(words(s) == seq![tail.take(b - a)] + words(rest));
            assert(words(s)[0] == s.subrange(a as int, b as int));
            assert(words(s)[1] == s.subrange(c as int, d as int));
        }
        let mut method = String::new();
        push_range(&mut method, &chars, a, b);
        let mut path = String::new();
        push_range(&mut path, &chars, c, d);
        assert(method@ =~= s.subrange(a as int, b as int));
        assert(path@ =~= s.subrange(c as int, d as int));
        Request { buffer, method, path }
    }

    /// The method that the request names.
    pub fn method(&self) -> (method: &str)
        ensures
            method@ == self.method_text(),
    {
        self.method.as_str()
    }

    /// The path that the request names.
    pub fn path(&self) -> (path: &str)
        ensures
            path@ == self.path_text(),
    {
        self.path.as_str()
    }

    /// The text of the whole request, with invalid bytes replaced: what an
    /// endpoint is handed.
    pub fn text(&self) -> (text: String)
        ensures
            text@ == utf8_lossy(self.bytes()),
            valid_utf8(self.bytes()) ==> text@ == decode_utf8(self.bytes()),
    {
        lossy_string(self.buffer.as_slice())
    }
}

impl View for Router {
    type V = Seq<RouteView>;

    closed spec fn view(&self) -> Seq<RouteView> {
        routes_view(self.routes@)
    }
}

impl Router {
    #[verifier::type_invariant]
    spec fn holds_default_route(&self) -> bool {
        has_default_route(self@)
    }

    /// The table with the routes of the control channel.
    pub fn new() -> (router: Router)
        ensures
            router@ == default_routes(),
    {
        let mut routes: Vec<Route> = Vec::new();
        routes.push(
            Route { path: "/api/menu", status: "HTTP/1.1 200 OK", endpoint: Endpoint::MenuSettings },
        );
        routes.push(
            Route { path: "/", status: "HTTP/1.1 404 NOT FOUND", endpoint: Endpoint::NotFound },
        );
        proof {
            assert(routes_view(routes@) =~= default_routes());
            let paths = route_paths(default_routes());
            assert(paths[1] == "/"@);
            lemma_first_index_of(paths, "/"@);
        }
        Router { routes }
    }

    /// The place of the first route for `path`, or the length of the table.
    fn find(&self, path: &str) -> (at: usize)
        ensures
            at == route_index(self@, path@),
            at <= self@.len(),
            self@.len() == self.routes@.len(),
    {
        let mut at: usize = 0;
        while at < self.routes.len() && !str_eq(self.routes[at].path, path)
            invariant
                0 <= at <= self.routes@.len(),
                forall|k: int| 0 <= k < at ==> self.routes@[k].path@ != path@,
            decreases self.routes@.len() - at,
        {
            at = at + 1;
        }
        proof {
            let paths = route_paths(self@);
            assert(is_first_index_of(paths, path@, at as int));
            lemma_first_index_of(paths, path@);
        }
        at
    }

    /// Routes a path: the endpoint that answers it, with the status line of
    /// the response. A path without a route of its own goes to the default
    /// route.
    pub fn route(&self, path: &str) -> (route: (Endpoint, &'static str))
        ensures
            route.0 == routed(self@, path@).endpoint,
            route.1@ == routed(self@, path@).status,
    {
        proof {
            use_type_invariant(self);
        }
        let own: usize = self.find(path);
        let at: usize = if own < self.routes.len() {
            own
        } else {
            self.find("/")
        };
        (self.routes[at].endpoint, self.routes[at].status)
    }
}

/// The routes of the control channel send `/api/menu` to the parameter
/// record and every other path to the default route, each with its status
/// line.
pub proof fn lemma_default_routing(path: Seq<char>)
    ensures
        has_default_route(default_routes()),
        routed(default_routes(), path).endpoint == endpoint_of(path),
        routed(default_routes(), path).status == status_of(endpoint_of(path)),
{
    reveal_strlit("/api/menu");
    reveal_strlit("/");
    assert("/api/menu"@.len() == 9);
    assert("/"@.len() == 1);
    let paths = route_paths(default_routes());
    assert(paths.len() == 2);
    assert(paths[0] == "/api/menu"@);
    assert(paths[1] == "/"@);
    assert(is_first_index_of(paths, "/"@, 1));
    lemma_first_index_of(paths, "/"@);
    if path == "/api/menu"@ {
        assert(is_first_index_of(paths, path, 0));
    } else if path == "/"@ {
        assert(is_first_index_of(paths, path, 1));
    } else {
        assert(is_first_index_of(paths, path, 2));
    }
    lemma_first_index_of(paths, path);
}

impl Response {
    /// The status line.
    pub closed spec fn status_text(&self) -> Seq<char> {
        self.status@
    }

    /// The contents.
    pub closed spec fn contents_text(&self) -> Seq<char> {
        self.contents@
    }

    /// The length that the response declares for its contents.
    pub closed spec fn declared_size(&self) -> nat {
        self.contents_size as nat
    }

    /// A response with the given status line and contents; the declared
    /// length is that of the contents in bytes.
    pub fn new(status: &str, contents: String) -> (response: Response)
        ensures
            response.status_text() == status@,
            response.contents_text() == contents@,
            response.declared_size() == encode_utf8(contents@).len(),
    {
        let contents_size: usize = contents.as_str().as_bytes().len();
        Response { status: status.to_owned(), contents, contents_size }
    }

    /// The response as it goes over the wire.
    pub fn deserialize_into_string(&self) -> (text: String)
        ensures
            text@ == response_text(
                self.status_text(),
                self.declared_size(),
                self.contents_text(),
            ),
    {
        let mut text: String = self.status.clone();
        text.append("\r\nContent-Type: application/json\r\nContent-Length: ");
        push_decimal(&mut text, self.contents_size);
        text.append("\r\n\r\n");
        text.append(self.contents.as_str());
        text
    }
}

/// The contents with which the default route answers.
pub fn not_found_contents() -> (contents: String)
    ensures
        contents@ == "{ \"message\" : \"Resource not found\" }"@,
{
    "{ \"message\" : \"Resource not found\" }".to_owned()
}

/// Where the body of a parameter request lies among the bytes of the
/// request: from the first opening brace, or from the start where there is
/// none, to just behind the last closing brace, or to just behind the first
/// byte where there is none.
pub open spec fn body_range(request: Seq<u8>) -> (int, int) {
    let open = first_index_of(request, 123u8);
    let start = if open < request.len() {
        open
    } else {
        0
    };
    let close = last_index_of(request, 125u8);
    let end = if close >= 0 {
        close + 1
    } else {
        1
    };
    (start, end)
}

/// The position of the last `sep` in `s`, or `-1` where `s` holds none.
pub open spec fn last_index_of(s: Seq<u8>, sep: u8) -> int
    decreases s.len(),
{
    if s.len() == 0 {
        -1
    } else if s.last() == sep {
        s.len() - 1
    } else {
        last_index_of(s.drop_last(), sep)
    }
}

/// Finds the last `sep` in `s`.
fn rfind_byte(s: &[u8], sep: u8) -> (at: Option<usize>)
    ensures
        match at {
            Some(i) => i == last_index_of(s@, sep) && i < s@.len(),
            None => last_index_of(s@, sep) == -1,
        },
{
    let mut n: usize = s.len();
    assert(s@.take(n as int) =~= s@);
    while n > 0
        invariant
            0 <= n <= s@.len(),
            last_index_of(s@, sep) == last_index_of(s@.take(n as int), sep),
        decreases n,
    {
        proof {
            let head = s@.take(n as int);
            assert(head.last() == s@[n - 1]);
            assert(head.drop_last() =~= s@.take(n - 1));
        }
        if s[n - 1] == sep {
            return Some(n - 1);
        }
        n = n - 1;
    }
    None
}

/// Cuts the body out of a parameter request. There is none where the last
/// closing brace lies before the first opening one, and none in an empty
/// request.
pub fn json_body<'a>(request: &'a [u8]) -> (body: Option<&'a [u8]>)
    ensures
        match body {
            Some(b) => {
                let (start, end) = body_range(request@);
                start <= end <= request@.len() && b@ == request@.subrange(start, end)
            },
            None => {
                let (start, end) = body_range(request@);
                !(start <= end <= request@.len())
            },
        },
{
    let open: usize = find_byte(request, 0, 123);
    assert(request@.skip(0) =~= request@);
    let start: usize = if open < request.len() {
        open
    } else {
        0
    };
    let end: usize = match rfind_byte(request, 125) {
        Some(close) => close + 1,
        None => 1,
    };
    if start <= end && end <= request.len() {
        Some(vstd::slice::slice_subrange(request, start, end))
    } else {
        None
    }
}

} // verus!
