//! The HTTP control protocol of the server: request lines and headers,
//! routes, responses, and how the server binary is launched.
use vstd::prelude::*;

use crate::text::{
    chars_of, decimal_text, parse_u64, parse_u64_text, push_decimal, string_of_chars, trim,
    str_equal, trim_ws, unicode_white_space,
};
use vstd::string::StringSliceAdditionalSpecFns;

verus! {

/// A response of the control server.
#[derive(Debug, Clone)]
pub struct HttpResponse {
    pub status_code: u16,
    pub status_text: String,
    pub body: Vec<u8>,
}

fn text_bytes(s: &str) -> (v: Vec<u8>)
    ensures
        v@ == s.spec_bytes(),
{
    vstd::slice::slice_to_vec(s.as_bytes())
}

impl HttpResponse {
    /// `200 OK` with a text body.
    pub fn ok_text(body: &str) -> (r: Self)
        ensures
            r.status_code == 200,
            r.status_text@ == "OK"@,
            r.body@ == body.spec_bytes(),
    {
        HttpResponse { status_code: 200, status_text: String::from_str("OK"), body: text_bytes(body) }
    }

    /// `400 Bad Request` with a text body.
    pub fn bad_request(body: String) -> (r: Self)
        ensures
            r.status_code == 400,
            r.status_text@ == "Bad Request"@,
            r.body@ == vstd::utf8::encode_utf8(body@),
    {
        HttpResponse {
            status_code: 400,
            status_text: String::from_str("Bad Request"),
            body: text_bytes(body.as_str()),
        }
    }

    /// `500 Internal Server Error` with a text body.
    pub fn internal_server_error(body: String) -> (r: Self)
        ensures
            r.status_code == 500,
            r.status_text@ == "Internal Server Error"@,
            r.body@ == vstd::utf8::encode_utf8(body@),
    {
        HttpResponse {
            status_code: 500,
            status_text: String::from_str("Internal Server Error"),
            body: text_bytes(body.as_str()),
        }
    }

    /// `404 Not Found` with a text body.
    pub fn not_found(body: &str) -> (r: Self)
        ensures
            r.status_code == 404,
            r.status_text@ == "Not Found"@,
            r.body@ == body.spec_bytes(),
    {
        HttpResponse {
            status_code: 404,
            status_text: String::from_str("Not Found"),
            body: text_bytes(body),
        }
    }
}

/// The header block written before a response body.
pub open spec fn response_header_text(status_code: u16, status_text: Seq<char>, body_len: nat) -> Seq<
    char,
> {
    "HTTP/1.1 "@ + decimal_text(status_code as nat) + " "@ + status_text + "\r\nContent-Length: "@
        + decimal_text(body_len) + "\r\nContent-Type: text/plain; charset=utf-8\r\nConnection: close\r\n\r\n"@
}

/// The header block of a response, as `response_header_text` says.
pub fn response_header(response: &HttpResponse) -> (s: String)
    ensures
        s@ == response_header_text(
            response.status_code,
            response.status_text@,
            response.body@.len(),
        ),
{
    let mut s = String::from_str("HTTP/1.1 ");
    push_decimal(&mut s, response.status_code as u128);
    s.append(" ");
    s.append(response.status_text.as_str());
    s.append("\r\nContent-Length: ");
    push_decimal(&mut s, response.body.len() as u128);
    s.append("\r\nContent-Type: text/plain; charset=utf-8\r\nConnection: close\r\n\r\n");
    s
}

/// `p` without trailing `/`s, unless it is a single character.
pub open spec fn canonical_path_text(p: Seq<char>) -> Seq<char>
    decreases p.len(),
{
    if p.len() > 1 {
        strip_trailing_slashes(p)
    } else {
        p
    }
}

/// `p` without its trailing `/`s.
pub open spec fn strip_trailing_slashes(p: Seq<char>) -> Seq<char>
    decreases p.len(),
{
    if p.len() > 0 && p.last() == '/' {
        strip_trailing_slashes(p.drop_last())
    } else {
        p
    }
}

/// The request path with trailing slashes removed (a lone `/` stays).
pub fn canonical_path(path: &str) -> (r: String)
    ensures
        r@ == canonical_path_text(path@),
{
    let v = chars_of(path);
    if v.len() <= 1 {
        return string_of_chars(&v);
    }
    let mut end: usize = v.len();
    assert(v@.take(v.len() as int) =~= v@);
    while end > 0 && v[end - 1] == '/'
        invariant
            end <= v.len(),
            strip_trailing_slashes(v@) == strip_trailing_slashes(v@.take(end as int)),
        decreases end,
    {
        assert(v@.take(end as int).drop_last() =~= v@.take(end - 1));
        end = end - 1;
    }
    let mut out: Vec<char> = Vec::new();
    let mut k: usize = 0;
    while k < end
        invariant
            k <= end <= v.len(),
            out@ == v@.take(k as int),
        decreases end - k,
    {
        out.push(v[k]);
        assert(v@.take(k + 1) =~= v@.take(k as int).push(v@[k as int]));
        k = k + 1;
    }
    proof {
        if end > 0 {
            assert(v@.take(end as int).last() == v@[end - 1]);
        } else {
            assert(v@.take(0) =~= Seq::<char>::empty());
        }
    }
    string_of_chars(&out)
}

proof fn lemma_strip_trailing_slashes(p: Seq<char>)
    ensures
        strip_trailing_slashes(p).len() <= p.len(),
        strip_trailing_slashes(p).len() > 0 ==> strip_trailing_slashes(p).last() != '/',
        strip_trailing_slashes(strip_trailing_slashes(p)) == strip_trailing_slashes(p),
    decreases p.len(),
{
    if p.len() > 0 && p.last() == '/' {
        lemma_strip_trailing_slashes(p.drop_last());
    }
}

/// Making a path canonical twice gives the same as once, so a canonical
/// path is routed as it stands.
pub proof fn lemma_canonical_path_idempotent(p: Seq<char>)
    ensures
        canonical_path_text(canonical_path_text(p)) == canonical_path_text(p),
{
    lemma_strip_trailing_slashes(p);
}

/// What the control server does with a request.
#[derive(Debug, Clone, Copy, PartialEq, Eq, Structural)]
pub enum ControlRoute {
    /// `GET /health`: answer `ok`.
    Health,
    /// `POST /show`: show the window.
    Show,
    /// `POST /hide`: hide the window.
    Hide,
    /// `POST /change-skin`: switch to the PNG given in the JSON body.
    ChangeSkin,
    /// `POST /timeline`: play the motion timeline given in the JSON body.
    Timeline,
    /// Anything else: `404 not found`.
    NotFound,
}

/// The route of a request by method and canonical path.
pub open spec fn route_of(method: Seq<char>, path: Seq<char>) -> ControlRoute {
    let p = canonical_path_text(path);
    if method == "GET"@ && p == "/health"@ {
        ControlRoute::Health
    } else if method == "POST"@ && p == "/show"@ {
        ControlRoute::Show
    } else if method == "POST"@ && p == "/hide"@ {
        ControlRoute::Hide
    } else if method == "POST"@ && p == "/change-skin"@ {
        ControlRoute::ChangeSkin
    } else if method == "POST"@ && p == "/timeline"@ {
        ControlRoute::Timeline
    } else {
        ControlRoute::NotFound
    }
}

/// Routes a request, as `route_of` says.
pub fn route_request(method: &str, path: &str) -> (r: ControlRoute)
    ensures
        r == route_of(method@, path@),
{
    let p = canonical_path(path);
    if str_equal(method, "GET") && str_equal(p.as_str(), "/health") {
        ControlRoute::Health
    } else if str_equal(method, "POST") && str_equal(p.as_str(), "/show") {
        ControlRoute::Show
    } else if str_equal(method, "POST") && str_equal(p.as_str(), "/hide") {
        ControlRoute::Hide
    } else if str_equal(method, "POST") && str_equal(p.as_str(), "/change-skin") {
        ControlRoute::ChangeSkin
    } else if str_equal(method, "POST") && str_equal(p.as_str(), "/timeline") {
        ControlRoute::Timeline
    } else {
        ControlRoute::NotFound
    }
}

/// Why an HTTP request could not be read.
#[derive(Debug, Clone, Copy, PartialEq, Eq, Structural)]
pub enum HttpParseError {
    EmptyRequest,
    MissingMethod,
    MissingPath,
    MissingVersion,
    InvalidContentLength,
}

/// The text an HTTP reading error is reported with.
pub open spec fn http_error_text(e: HttpParseError) -> Seq<char> {
    match e {
        HttpParseError::EmptyRequest => "empty HTTP request"@,
        HttpParseError::MissingMethod => "missing HTTP method"@,
        HttpParseError::MissingPath => "missing HTTP path"@,
        HttpParseError::MissingVersion => "missing HTTP version"@,
        HttpParseError::InvalidContentLength => "invalid Content-Length header"@,
    }
}

impl HttpParseError {
    /// The text this error is reported with.
    pub fn message(&self) -> (s: String)
        ensures
            s@ == http_error_text(*self),
    {
        match self {
            HttpParseError::EmptyRequest => String::from_str("empty HTTP request"),
            HttpParseError::MissingMethod => String::from_str("missing HTTP method"),
            HttpParseError::MissingPath => String::from_str("missing HTTP path"),
            HttpParseError::MissingVersion => String::from_str("missing HTTP version"),
            HttpParseError::InvalidContentLength => String::from_str(
                "invalid Content-Length header",
            ),
        }
    }
}

/// The words of a text split at whitespace: finished words and the word
/// still being read.
pub open spec fn words_state(s: Seq<char>) -> (Seq<Seq<char>>, Seq<char>)
    decreases s.len(),
{
    if s.len() == 0 {
        (Seq::empty(), Seq::empty())
    } else {
        let (w, cur) = words_state(s.drop_last());
        if unicode_white_space(s.last()) {
            if cur.len() > 0 {
                (w.push(cur), Seq::empty())
            } else {
                (w, Seq::empty())
            }
        } else {
            (w, cur.push(s.last()))
        }
    }
}

/// The whitespace-separated words of a text, as `str::split_whitespace`
/// gives them.
pub open spec fn words_of(s: Seq<char>) -> Seq<Seq<char>> {
    let (w, cur) = words_state(s);
    if cur.len() > 0 {
        w.push(cur)
    } else {
        w
    }
}

/// The whitespace-separated words of `s`, as `words_of` says.
pub fn split_words(s: &str) -> (r: Vec<String>)
    ensures
        r@.map_values(|w: String| w@) == words_of(s@),
{
    let v = chars_of(s);
    let mut done: Vec<String> = Vec::new();
    let mut cur: Vec<char> = Vec::new();
    let mut i: usize = 0;
    assert(v@.take(0) =~= Seq::<char>::empty());
    while i < v.len()
        invariant
            i <= v.len(),
            v@ == s@,
            done@.map_values(|w: String| w@) == words_state(v@.take(i as int)).0,
            cur@ == words_state(v@.take(i as int)).1,
        decreases v.len() - i,
    {
        let c = v[i];
        assert(v@.take(i + 1).drop_last() =~= v@.take(i as int));
        assert(v@.take(i + 1).last() == c);
        if c.is_whitespace() {
            if cur.len() > 0 {
                let ghost old_done = done@.map_values(|w: String| w@);
                let word = string_of_chars(&cur);
                done.push(word);
                assert(done@.map_values(|w: String| w@) =~= old_done.push(cur@));
            }
            cur = Vec::new();
            assert(cur@ =~= Seq::<char>::empty());
        } else {
            cur.push(c);
        }
        i = i + 1;
    }
    assert(v@.take(v.len() as int) =~= v@);
    if cur.len() > 0 {
        let ghost old_done = done@.map_values(|w: String| w@);
        let word = string_of_chars(&cur);
        done.push(word);
        assert(done@.map_values(|w: String| w@) =~= old_done.push(cur@));
    }
    done
}

/// The method and path of a request line, or why it is refused: an empty
/// line, or fewer than three words (method, path, version).
pub open spec fn request_line_parse(line: Seq<char>) -> Result<(Seq<char>, Seq<char>), HttpParseError> {
    let w = words_of(line);
    if trim_ws(line).len() == 0 {
        Err(HttpParseError::EmptyRequest)
    } else if w.len() < 1 {
        Err(HttpParseError::MissingMethod)
    } else if w.len() < 2 {
        Err(HttpParseError::MissingPath)
    } else if w.len() < 3 {
        Err(HttpParseError::MissingVersion)
    } else {
        Ok((w[0], w[1]))
    }
}

/// Reads the method and path from an HTTP request line, as
/// `request_line_parse` says.
pub fn parse_request_line(line: &str) -> (r: Result<(String, String), HttpParseError>)
    ensures
        match request_line_parse(line@) {
            Ok((m, p)) => r matches Ok((rm, rp)) && rm@ == m && rp@ == p,
            Err(e) => r == Err::<(String, String), HttpParseError>(e),
        },
{
    let trimmed = trim(line);
    if trimmed.as_str().is_empty() {
        return Err(HttpParseError::EmptyRequest);
    }
    let words = split_words(line);
    let ghost wv = words@.map_values(|w: String| w@);
    if words.len() < 1 {
        return Err(HttpParseError::MissingMethod);
    }
    if words.len() < 2 {
        return Err(HttpParseError::MissingPath);
    }
    if words.len() < 3 {
        return Err(HttpParseError::MissingVersion);
    }
    let method = words[0].clone();
    let path = words[1].clone();
    assert(wv[0] == words@[0]@);
    assert(wv[1] == words@[1]@);
    Ok((method, path))
}

/// Whether a header line ends the header block.
pub open spec fn is_header_end(line: Seq<char>) -> bool {
    line == "\r\n"@ || line == "\n"@
}

/// Whether a line read from the request ends the header block.
pub fn header_block_ended(line: &str) -> (b: bool)
    ensures
        b == is_header_end(line@),
{
    str_equal(line, "\r\n") || str_equal(line, "\n")
}

/// The code point of a character with ASCII capitals mapped to small
/// letters.
pub open spec fn ascii_lower(c: char) -> u32 {
    if 'A' <= c && c <= 'Z' {
        (c as u32 + 32) as u32
    } else {
        c as u32
    }
}

/// Two texts are equal up to ASCII case.
pub open spec fn eq_ignoring_ascii_case(a: Seq<char>, b: Seq<char>) -> bool {
    a.len() == b.len() && forall|i: int| 0 <= i < a.len() ==> #[trigger] ascii_lower(a[i]) == ascii_lower(b[i])
}

/// The position of the first `:` of a text.
pub open spec fn first_colon(s: Seq<char>) -> Option<int> {
    if exists|i: int| 0 <= i < s.len() && s[i] == ':' {
        Some(choose|i: int| 0 <= i < s.len() && s[i] == ':' && forall|j: int| 0 <= j < i ==> s[j] != ':')
    } else {
        None
    }
}

/// The `usize` a text denotes the way `str::parse::<usize>` reads it.
pub open spec fn parse_usize_text(s: Seq<char>) -> Option<usize> {
    match parse_u64_text(s) {
        Some(v) => if v <= usize::MAX {
            Some(v as usize)
        } else {
            None
        },
        None => None,
    }
}

/// What a header line says of the body length: `None` for a line that is
/// not a `Content-Length` header (name compared up to ASCII case, after
/// trimming), the length for one, or an error when its value is not a
/// `usize`.
pub open spec fn header_content_length(line: Seq<char>) -> Result<Option<usize>, HttpParseError> {
    match first_colon(line) {
        None => Ok(None),
        Some(c) => {
            let name = trim_ws(line.take(c));
            let value = trim_ws(line.skip(c + 1));
            if !eq_ignoring_ascii_case(name, "content-length"@) {
                Ok(None)
            } else {
                match parse_usize_text(value) {
                    Some(n) => Ok(Some(n)),
                    None => Err(HttpParseError::InvalidContentLength),
                }
            }
        },
    }
}

fn lower_ascii(c: char) -> (r: u32)
    ensures
        r == ascii_lower(c),
{
    if 'A' <= c && c <= 'Z' {
        (c as u32) + 32
    } else {
        c as u32
    }
}

/// Whether two texts are equal up to ASCII case.
pub fn equals_ignoring_ascii_case(a: &str, b: &str) -> (r: bool)
    ensures
        r == eq_ignoring_ascii_case(a@, b@),
{
    let av = chars_of(a);
    let bv = chars_of(b);
    if av.len() != bv.len() {
        return false;
    }
    let mut i: usize = 0;
    while i < av.len()
        invariant
            av@ == a@,
            bv@ == b@,
            av.len() == bv.len(),
            i <= av.len(),
            forall|j: int| 0 <= j < i ==> #[trigger] ascii_lower(a@[j]) == ascii_lower(b@[j]),
        decreases av.len() - i,
    {
        if lower_ascii(av[i]) != lower_ascii(bv[i]) {
            return false;
        }
        i = i + 1;
    }
    true
}

/// Reads a `usize` the way `str::parse::<usize>` does.
pub fn parse_usize(s: &str) -> (r: Option<usize>)
    ensures
        r == parse_usize_text(s@),
{
    match parse_u64(s) {
        Some(v) => if v <= usize::MAX as u64 {
            Some(v as usize)
        } else {
            None
        },
        None => None,
    }
}

/// What a header line says of the body length, as `header_content_length`
/// says.
pub fn parse_content_length_header(line: &str) -> (r: Result<Option<usize>, HttpParseError>)
    ensures
        r == header_content_length(line@),
{
    let v = chars_of(line);
    let mut i: usize = 0;
    while i < v.len() && v[i] != ':'
        invariant
            i <= v.len(),
            v@ == line@,
            forall|j: int| 0 <= j < i ==> v@[j] != ':',
        decreases v.len() - i,
    {
        i = i + 1;
    }
    if i == v.len() {
        return Ok(None);
    }
    let ghost c = choose|k: int| 0 <= k < line@.len() && line@[k] == ':' && forall|j: int|
        0 <= j < k ==> line@[j] != ':';
    assert(c == i as int) by {
        if c < i as int {
        } else if c > i as int {
            assert(line@[i as int] == ':');
        }
    }
    let mut name_chars: Vec<char> = Vec::new();
    let mut k: usize = 0;
    while k < i
        invariant
            k <= i < v.len(),
            name_chars@ == v@.take(k as int),
        decreases i - k,
    {
        name_chars.push(v[k]);
        assert(v@.take(k + 1) =~= v@.take(k as int).push(v@[k as int]));
        k = k + 1;
    }
    let value_chars = crate::path_text::chars_from(&v, i + 1);
    let name = trim(string_of_chars(&name_chars).as_str());
    let value = trim(string_of_chars(&value_chars).as_str());
    if !equals_ignoring_ascii_case(name.as_str(), "content-length") {
        return Ok(None);
    }
    match parse_usize(value.as_str()) {
        Some(n) => Ok(Some(n)),
        None => Err(HttpParseError::InvalidContentLength),
    }
}

/// The programs tried, in order, to start the server: the binary next to
/// the current executable when it exists, then `cargo run`.
pub open spec fn spawn_candidates_text(
    sibling_binary: Option<Seq<char>>,
    config_path: Seq<char>,
) -> Seq<(Seq<char>, Seq<Seq<char>>)> {
    let cargo = (
        "cargo"@,
        seq![
            "run"@,
            "-p"@,
            "mascot-render-server"@,
            "--bin"@,
            "mascot-render-server"@,
            "--"@,
            "--config"@,
            config_path,
        ],
    );
    match sibling_binary {
        Some(b) => seq![(b, seq!["--config"@, config_path]), cargo],
        None => seq![cargo],
    }
}

/// The view of a candidate command.
pub open spec fn command_view(c: (String, Vec<String>)) -> (Seq<char>, Seq<Seq<char>>) {
    (c.0@, c.1@.map_values(|a: String| a@))
}

/// The commands tried to start the server, as `spawn_candidates_text` says.
/// `sibling_binary` is the server binary next to the current executable,
/// when it exists.
pub fn spawn_command_candidates(sibling_binary: Option<String>, config_path: &str) -> (r: Vec<
    (String, Vec<String>),
>)
    ensures
        r@.map_values(|c: (String, Vec<String>)| command_view(c)) == spawn_candidates_text(
            match sibling_binary {
                Some(b) => Some(b@),
                None => None,
            },
            config_path@,
        ),
{
    let mut candidates: Vec<(String, Vec<String>)> = Vec::new();
    let ghost sib = match &sibling_binary {
        Some(b) => Some(b@),
        None => None::<Seq<char>>,
    };
    match sibling_binary {
        Some(binary) => {
            let mut args: Vec<String> = Vec::new();
            args.push(String::from_str("--config"));
            args.push(String::from_str(config_path));
            assert(args@.map_values(|a: String| a@) =~= seq!["--config"@, config_path@]);
            candidates.push((binary, args));
        },
        None => {},
    }
    let mut args: Vec<String> = Vec::new();
    args.push(String::from_str("run"));
    args.push(String::from_str("-p"));
    args.push(String::from_str("mascot-render-server"));
    args.push(String::from_str("--bin"));
    args.push(String::from_str("mascot-render-server"));
    args.push(String::from_str("--"));
    args.push(String::from_str("--config"));
    args.push(String::from_str(config_path));
    assert(args@.map_values(|a: String| a@) =~= seq![
        "run"@,
        "-p"@,
        "mascot-render-server"@,
        "--bin"@,
        "mascot-render-server"@,
        "--"@,
        "--config"@,
        config_path@,
    ]);
    candidates.push((String::from_str("cargo"), args));
    assert(candidates@.map_values(|c: (String, Vec<String>)| command_view(c)) =~= spawn_candidates_text(
        sib,
        config_path@,
    ));
    candidates
}

} // verus!
