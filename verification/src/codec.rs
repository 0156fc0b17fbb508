//! The message codec: parsing a raw line-delimited text buffer into a
//! structured request, and serializing a request outcome into a response
//! buffer.

use vstd::prelude::*;

verus! {

/// Reason a raw buffer could not be decoded into a request.
#[derive(Debug, PartialEq, Eq, Structural)]
pub enum DecodeError {
    /// The buffer's first line is empty: either no data has arrived yet, or
    /// the input is malformed.
    MissingRequestLine,
}

/// A GET request as read off the wire.
pub struct GetReq {
    /// The request-target token from the request line. Unvalidated; may be
    /// empty when the request line has fewer than two tokens.
    pub route: String,
}

/// The methods the codec understands. The decoder never inspects the method
/// token, so any method name decodes to the one supported variant.
pub enum HttpMethod {
    Get(GetReq),
}

/// Does a line break ("\r\n") start at position `i` of `s`?
pub open spec fn crlf_at(s: Seq<char>, i: int) -> bool {
    0 <= i && i + 1 < s.len() && s[i] == '\r' && s[i + 1] == '\n'
}

/// Number of characters before the first "\r\n" in `s`; the length of `s`
/// when no line break occurs.
pub open spec fn first_line_len(s: Seq<char>) -> nat
    decreases s.len(),
{
    if s.len() == 0 {
        0
    } else if crlf_at(s, 0) {
        0
    } else {
        1 + first_line_len(s.skip(1))
    }
}

/// The first line of `s`: everything before the first "\r\n", or all of `s`
/// when no line break occurs.
pub open spec fn first_line(s: Seq<char>) -> Seq<char> {
    s.take(first_line_len(s) as int)
}

/// Length of the leading space-free token of `s`.
pub open spec fn token_len(s: Seq<char>) -> nat
    decreases s.len(),
{
    if s.len() == 0 {
        0
    } else if s[0] == ' ' {
        0
    } else {
        1 + token_len(s.skip(1))
    }
}

/// The second space-separated token of `line` — the request target of a
/// request line — or the empty sequence when the line holds no space.
pub open spec fn route_of_line(line: Seq<char>) -> Seq<char> {
    let method_len = token_len(line) as int;
    if method_len == line.len() {
        Seq::<char>::empty()
    } else {
        let rest = line.skip(method_len + 1);
        rest.take(token_len(rest) as int)
    }
}

/// The route that decoding `s` yields: the second token of its first line.
pub open spec fn decoded_route(s: Seq<char>) -> Seq<char> {
    route_of_line(first_line(s))
}

/// A position with no "\r\n" before it and one at it (or the buffer's end)
/// is exactly where the first line ends.
proof fn lemma_first_line_len_is(s: Seq<char>, i: int)
    requires
        0 <= i <= s.len(),
        forall|j: int| 0 <= j < i ==> !crlf_at(s, j),
        i == s.len() || crlf_at(s, i),
    ensures
        first_line_len(s) == i,
    decreases s.len(),
{
    if i == 0 {
    } else {
        let t = s.skip(1);
        assert(!crlf_at(s, 0));
        assert forall|j: int| 0 <= j < i - 1 implies !crlf_at(t, j) by {
            assert(!crlf_at(s, j + 1));
            assert(t.len() == s.len() - 1);
            if 0 <= j && j + 1 < t.len() {
                assert(t[j] == s[j + 1]);
                assert(t[j + 1] == s[j + 2]);
            }
        }
        if i < s.len() {
            assert(crlf_at(s, i));
            assert(t[i - 1] == s[i]);
            assert(t[i] == s[i + 1]);
            assert(crlf_at(t, i - 1));
        }
        lemma_first_line_len_is(t, i - 1);
    }
}

/// A position with no space before it and a space at it (or the line's end)
/// is exactly the leading token's length.
proof fn lemma_token_len_is(s: Seq<char>, i: int)
    requires
        0 <= i <= s.len(),
        forall|j: int| 0 <= j < i ==> s[j] != ' ',
        i == s.len() || s[i] == ' ',
    ensures
        token_len(s) == i,
    decreases s.len(),
{
    if i == 0 {
    } else {
        let t = s.skip(1);
        assert forall|j: int| 0 <= j < i - 1 implies t[j] != ' ' by {
            assert(t[j] == s[j + 1]);
        }
        if i < s.len() {
            assert(t[i - 1] == s[i]);
        }
        lemma_token_len_is(t, i - 1);
    }
}

/// The decimal digit `d` as a character.
pub open spec fn digit_char(d: nat) -> char {
    if d == 0 {
        '0'
    } else if d == 1 {
        '1'
    } else if d == 2 {
        '2'
    } else if d == 3 {
        '3'
    } else if d == 4 {
        '4'
    } else if d == 5 {
        '5'
    } else if d == 6 {
        '6'
    } else if d == 7 {
        '7'
    } else if d == 8 {
        '8'
    } else {
        '9'
    }
}

/// The decimal digit sequence of `n`, most significant digit first, with no
/// leading zeros (a single '0' for zero).
pub open spec fn decimal_rep(n: nat) -> Seq<char>
    decreases n,
{
    if n < 10 {
        seq![digit_char(n)]
    } else {
        decimal_rep(n / 10) + seq![digit_char(n % 10)]
    }
}

/// The byte length of `s` under UTF-8 — what `Content-Length` counts.
pub open spec fn byte_len(s: Seq<char>) -> nat {
    vstd::utf8::encode_utf8(s).len()
}

/// The response text up to and including "Date: ", before the date value.
pub open spec fn response_pre_date() -> Seq<char> {
    "HTTP/1.1 200 OK\r\n"@ + "Date: "@
}

/// The index-route tail of a response: a Content-Length header over the
/// body's byte length, a blank line, then the body itself.
pub open spec fn index_section(body: Seq<char>) -> Seq<char> {
    "Content-Length: "@ + decimal_rep(byte_len(body)) + "\r\n\r\n"@ + body
}

/// The response text after the date value: the rest of the Date line, the
/// Content-Type line, and — for the index route only — the index section.
/// For every other route nothing follows the Content-Type line: no
/// Content-Length header, no blank line, no body.
pub open spec fn response_post_date(route: Seq<char>, body: Seq<char>) -> Seq<char> {
    "\r\n"@ + "Content-Type: text/html; charset=UTF-8\r\n"@ + if route == "/"@ {
        index_section(body)
    } else {
        Seq::<char>::empty()
    }
}

/// The full response for `route`, dated `date`, with `body` as the index
/// page's contents.
pub open spec fn encoded_response(route: Seq<char>, date: Seq<char>, body: Seq<char>) -> Seq<
    char,
> {
    response_pre_date() + date + response_post_date(route, body)
}

/// The route a request carries.
pub open spec fn route_of_request(m: HttpMethod) -> Seq<char> {
    match m {
        HttpMethod::Get(g) => g.route@,
    }
}

/// The body the index file yields: its contents, or empty text when the file
/// could not be read.
pub open spec fn index_body(file: Option<String>) -> Seq<char> {
    match file {
        Some(s) => s@,
        None => Seq::<char>::empty(),
    }
}

/// The response for the index route carries a Content-Length header equal to
/// the byte length of the index body, then a blank line, then — immediately
/// after — the body itself.
pub proof fn lemma_index_route_has_body(date: Seq<char>, body: Seq<char>)
    ensures
        encoded_response("/"@, date, body) == response_pre_date() + date + "\r\n"@
            + "Content-Type: text/html; charset=UTF-8\r\n"@ + "Content-Length: "@ + decimal_rep(
            byte_len(body),
        ) + "\r\n\r\n"@ + body,
{
    assert(encoded_response("/"@, date, body) =~= response_pre_date() + date + "\r\n"@
        + "Content-Type: text/html; charset=UTF-8\r\n"@ + "Content-Length: "@ + decimal_rep(
        byte_len(body),
    ) + "\r\n\r\n"@ + body);
}

/// The response for any route other than the index route is the three header
/// lines alone, whatever the route holds and whatever the index body is: no
/// Content-Length header and no body follow the Content-Type line.
pub proof fn lemma_other_route_headers_only(route: Seq<char>, date: Seq<char>, body: Seq<char>)
    requires
        route != "/"@,
    ensures
        encoded_response(route, date, body) == response_pre_date() + date + "\r\n"@
            + "Content-Type: text/html; charset=UTF-8\r\n"@,
{
    assert(encoded_response(route, date, body) =~= response_pre_date() + date + "\r\n"@
        + "Content-Type: text/html; charset=UTF-8\r\n"@);
}

/// Re-encoding a decoded request is idempotent in content: the response is a
/// function of the decoded route, the date and the index body alone, so two
/// encodings of one raw request over one index body are equal whenever their
/// dates agree, and differ at most in the date value between "Date: " and
/// the line break that follows it.
pub proof fn lemma_round_trip_idempotent(
    raw: Seq<char>,
    d1: Seq<char>,
    d2: Seq<char>,
    body: Seq<char>,
)
    requires
        first_line_len(raw) != 0,
    ensures
        d1 == d2 ==> encoded_response(decoded_route(raw), d1, body) == encoded_response(
            decoded_route(raw),
            d2,
            body,
        ),
        encoded_response(decoded_route(raw), d1, body) == response_pre_date() + d1
            + response_post_date(decoded_route(raw), body),
{
}

/// The one-character string for decimal digit `d`.
fn digit_str(d: u64) -> (r: &'static str)
    requires
        d < 10,
    ensures
        r@ == seq![digit_char(d as nat)],
{
    proof {
        reveal_strlit("0");
        reveal_strlit("1");
        reveal_strlit("2");
        reveal_strlit("3");
        reveal_strlit("4");
        reveal_strlit("5");
        reveal_strlit("6");
        reveal_strlit("7");
        reveal_strlit("8");
        reveal_strlit("9");
    }
    if d == 0 {
        "0"
    } else if d == 1 {
        "1"
    } else if d == 2 {
        "2"
    } else if d == 3 {
        "3"
    } else if d == 4 {
        "4"
    } else if d == 5 {
        "5"
    } else if d == 6 {
        "6"
    } else if d == 7 {
        "7"
    } else if d == 8 {
        "8"
    } else {
        "9"
    }
}

/// Renders `n` in decimal, most significant digit first.
pub fn u64_to_dec(n: u64) -> (s: String)
    ensures
        s@ == decimal_rep(n as nat),
    decreases n,
{
    if n < 10 {
        String::from_str(digit_str(n))
    } else {
        proof {
            assert(n / 10 < n) by (nonlinear_arith)
                requires
                    n >= 10,
            ;
        }
        let mut s = u64_to_dec(n / 10);
        s.append(digit_str(n % 10));
        s
    }
}

/// Relies on chrono's `Utc::now` and `DateTime::format`: renders the current
/// wall-clock time in the RFC 1123 style (day-of-week, day, month, year,
/// time, "GMT"). The result depends on the clock, so nothing is promised of
/// its value.
#[verifier::external_body]
fn http_date_now() -> (r: String) {
    let now = chrono::Utc::now();
    format!("{}", now.format("%a, %d %b %Y %H:%M:%S GMT"))
}

/// Handle for the server core. Construction point for the codec and, through
/// an embedding runtime, the listener.
pub struct SRVR;

impl SRVR {
    /// Creates a server handle.
    pub fn new() -> (s: SRVR) {
        SRVR
    }

    /// Decodes the text accumulated so far for one connection.
    ///
    /// Fails exactly when the first line is empty. Otherwise the method token
    /// is ignored and the second space-separated token of the request line —
    /// empty when there is no such token — becomes the route.
    pub fn decode_message(bytes_received: &String) -> (r: Result<HttpMethod, DecodeError>)
        ensures
            match r {
                Ok(m) => first_line_len(bytes_received@) != 0 && (m matches HttpMethod::Get(g)
                    && g.route@ == decoded_route(bytes_received@)),
                Err(e) => first_line_len(bytes_received@) == 0 && e
                    == DecodeError::MissingRequestLine,
            },
    {
        let s: &str = bytes_received.as_str();
        let n: usize = s.unicode_len();
        let mut i: usize = 0;
        while i < n && !(i + 1 < n && s.get_char(i) == '\r' && s.get_char(i + 1) == '\n')
            invariant
                n == s@.len(),
                i <= n,
                forall|j: int| 0 <= j < i ==> !crlf_at(s@, j),
            decreases n - i,
        {
            i = i + 1;
        }
        proof {
            lemma_first_line_len_is(s@, i as int);
        }
        if i == 0 {
            return Err(DecodeError::MissingRequestLine);
        }
        let line: &str = s.substring_char(0, i);
        proof {
            assert(line@ =~= first_line(s@));
        }
        let m: usize = line.unicode_len();
        let mut p: usize = 0;
        while p < m && line.get_char(p) != ' '
            invariant
                m == line@.len(),
                p <= m,
                forall|j: int| 0 <= j < p ==> line@[j] != ' ',
            decreases m - p,
        {
            p = p + 1;
        }
        proof {
            lemma_token_len_is(line@, p as int);
        }
        if p == m {
            let route = String::new();
            return Ok(HttpMethod::Get(GetReq { route }));
        }
        let mut q: usize = p + 1;
        while q < m && line.get_char(q) != ' '
            invariant
                m == line@.len(),
                p + 1 <= q <= m,
                forall|j: int| p + 1 <= j < q ==> line@[j] != ' ',
            decreases m - q,
        {
            q = q + 1;
        }
        let route_str: &str = line.substring_char(p + 1, q);
        proof {
            let rest = line@.skip(p + 1);
            assert forall|j: int| 0 <= j < q - p - 1 implies rest[j] != ' ' by {
                assert(rest[j] == line@[j + p + 1]);
            }
            if q < m {
                assert(rest[q - p - 1] == line@[q as int]);
            }
            lemma_token_len_is(rest, q - p - 1);
            assert(route_str@ =~= rest.take(token_len(rest) as int));
            assert(route_str@ == route_of_line(line@));
        }
        Ok(HttpMethod::Get(GetReq { route: route_str.to_owned() }))
    }

    /// Serializes `request` into a response, with `date` as the Date header's
    /// value and `index_file` as the index page's contents (`None` when the
    /// page could not be read: the body degrades to empty text). Only the
    /// index route "/" gets a Content-Length header, a blank line and a body;
    /// every other route gets the three header lines alone.
    pub fn encode_with_date(request: HttpMethod, date: &String, index_file: &Option<String>) -> (r:
        String)
        ensures
            r@ == encoded_response(route_of_request(request), date@, index_body(*index_file)),
    {
        let mut response = String::from_str("HTTP/1.1 200 OK\r\n");
        response.append("Date: ");
        response.append(date.as_str());
        response.append("\r\n");
        response.append("Content-Type: text/html; charset=UTF-8\r\n");
        match request {
            HttpMethod::Get(req) => {
                let slash = String::from_str("/");
                if req.route == slash {
                    let empty = String::new();
                    let body: &String = match index_file {
                        Some(s) => s,
                        None => &empty,
                    };
                    response.append("Content-Length: ");
                    let blen: usize = body.as_str().as_bytes().len();
                    let digits = u64_to_dec(blen as u64);
                    response.append(digits.as_str());
                    response.append("\r\n\r\n");
                    response.append(body.as_str());
                }
            }
        }
        proof {
            assert(response@ =~= encoded_response(
                route_of_request(request),
                date@,
                index_body(*index_file),
            ));
        }
        response
    }

    /// Serializes `request` into a response dated with the current wall-clock
    /// time. The date is the one part of the result that varies between
    /// calls; everything else is a function of the route and the index body.
    pub fn encode_message(request: HttpMethod, index_file: &Option<String>) -> (r: String)
        ensures
            exists|d: Seq<char>|
                r@ == encoded_response(route_of_request(request), d, index_body(*index_file)),
    {
        let date = http_date_now();
        let r = SRVR::encode_with_date(request, &date, index_file);
        proof {
            assert(r@ == encoded_response(
                route_of_request(request),
                date@,
                index_body(*index_file),
            ));
        }
        r
    }
}

} // verus!
