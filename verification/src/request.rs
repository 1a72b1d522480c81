//! Request values: parsing a request from its request line, header
//! lines, and body bytes, and dispatching it to the fixed routing
//! table.
//!
//! The caller owns the stream: it hands over the request line and the
//! header lines with line endings stripped, reads exactly the number
//! of body bytes `body_length` names, and performs the file read or
//! write that a dispatched [`Action`] asks for.

use vstd::prelude::*;
use vstd::string::StringSliceAdditionalSpecFns;

use crate::bytes_util::{
    ascii_lower, bytes_eq, bytes_skip, bytes_take, bytes_to_vec, find_sub, lemma_find_matches,
    parse_decimal, spec_find, spec_lower, spec_parse_decimal, spec_split, spec_starts_with,
    split_bytes, starts_with,
};
use crate::http::{spec_method, Method, RequestError, Status};
use crate::response::{
    opt_bytes_view, spec_binary_response, spec_empty_response, spec_text_response, Response,
    ResponseModel,
};

verus! {

/// What the process was configured with at startup: the optional root
/// directory that the file-serving routes use. Shared read-only by
/// every request.
pub struct Config {
    pub files_dir: Option<String>,
}

impl Default for Config {
    /// A configuration with no file-serving directory.
    fn default() -> (r: Config)
        ensures
            r.files_dir is None,
    {
        Config { files_dir: None }
    }
}

/// The views of a sequence of owned header pairs.
pub open spec fn pairs_view(s: Seq<(Vec<u8>, Vec<u8>)>) -> Seq<(Seq<u8>, Seq<u8>)> {
    s.map_values(|p: (Vec<u8>, Vec<u8>)| (p.0@, p.1@))
}

/// The mapping a sequence of key-value pairs builds up: a later pair
/// with the same key wins.
pub open spec fn map_of_pairs(s: Seq<(Seq<u8>, Seq<u8>)>) -> Map<Seq<u8>, Seq<u8>>
    decreases s.len(),
{
    if s.len() == 0 {
        Map::empty()
    } else {
        map_of_pairs(s.drop_last()).insert(s.last().0, s.last().1)
    }
}

/// What one header line contributes: the line split at the first
/// `": "`, the key lower-cased, the value taken verbatim. A line
/// without the separator contributes nothing and is silently skipped.
pub open spec fn spec_header_entry(line: Seq<u8>) -> Option<(Seq<u8>, Seq<u8>)> {
    match spec_find(line, ": ".spec_bytes(), 0) {
        Some(i) => Some(
            (spec_lower(line.take(i)), line.skip(i + ": ".spec_bytes().len())),
        ),
        None => None,
    }
}

/// The header mapping of a sequence of header lines, in order:
/// duplicate names resolve to the last line that carries them.
pub open spec fn spec_headers(lines: Seq<Seq<u8>>) -> Map<Seq<u8>, Seq<u8>>
    decreases lines.len(),
{
    if lines.len() == 0 {
        Map::empty()
    } else {
        let m = spec_headers(lines.drop_last());
        match spec_header_entry(lines.last()) {
            Some(p) => m.insert(p.0, p.1),
            None => m,
        }
    }
}

/// Parse one header line.
fn header_entry(line: &[u8]) -> (r: Option<(Vec<u8>, Vec<u8>)>)
    ensures
        match r {
            Some(p) => spec_header_entry(line@) == Some((p.0@, p.1@)),
            None => spec_header_entry(line@) is None,
        },
{
    let sep = ": ".as_bytes();
    let line_len = line.len();
    match find_sub(line, sep) {
        Some(i) => {
            proof {
                lemma_find_matches(line@, sep@, 0);
                assert(i + sep@.len() <= line_len);
            }
            let raw_key = bytes_take(line, i);
            let key = ascii_lower(raw_key.as_slice());
            let value = bytes_skip(line, i + sep.len());
            Some((key, value))
        },
        None => None,
    }
}

/// Parse a sequence of header lines into ordered pairs.
fn parse_header_lines(lines: &Vec<Vec<u8>>) -> (r: Vec<(Vec<u8>, Vec<u8>)>)
    ensures
        map_of_pairs(pairs_view(r@)) == spec_headers(lines.deep_view()),
{
    let ghost all = lines.deep_view();
    let mut out: Vec<(Vec<u8>, Vec<u8>)> = Vec::new();
    let mut i: usize = 0;
    proof {
        assert(pairs_view(out@) =~= Seq::<(Seq<u8>, Seq<u8>)>::empty());
    }
    while i < lines.len()
        invariant
            i <= lines@.len(),
            all == lines.deep_view(),
            all.len() == lines@.len(),
            forall|j: int| 0 <= j < lines@.len() ==> all[j] == lines@[j]@,
            map_of_pairs(pairs_view(out@)) == spec_headers(all.take(i as int)),
        decreases lines@.len() - i,
    {
        let ghost pre = pairs_view(out@);
        proof {
            assert(all.take(i + 1).drop_last() =~= all.take(i as int));
            assert(all.take(i + 1).last() == lines@[i as int]@);
        }
        match header_entry(lines[i].as_slice()) {
            Some(p) => {
                let ghost pv = (p.0@, p.1@);
                out.push(p);
                proof {
                    assert(pairs_view(out@) =~= pre.push(pv));
                    assert(pairs_view(out@).drop_last() =~= pre);
                    assert(map_of_pairs(pairs_view(out@)) == spec_headers(all.take(i + 1)));
                }
            },
            None => {
                proof {
                    assert(map_of_pairs(pairs_view(out@)) == spec_headers(all.take(i + 1)));
                }
            },
        }
        i += 1;
    }
    proof {
        assert(all.take(lines@.len() as int) =~= all);
    }
    out
}

/// Find the value of a header, the last pair with that key winning.
fn header_lookup<'a>(headers: &'a Vec<(Vec<u8>, Vec<u8>)>, key: &[u8]) -> (r: Option<
    &'a Vec<u8>,
>)
    ensures
        match r {
            Some(v) => map_of_pairs(pairs_view(headers@)).contains_key(key@)
                && map_of_pairs(pairs_view(headers@))[key@] == v@,
            None => !map_of_pairs(pairs_view(headers@)).contains_key(key@),
        },
{
    let ghost full = map_of_pairs(pairs_view(headers@));
    let mut i: usize = headers.len();
    proof {
        assert(pairs_view(headers@).take(i as int) =~= pairs_view(headers@));
    }
    while i > 0
        invariant
            i <= headers@.len(),
            full == map_of_pairs(pairs_view(headers@)),
            full.contains_key(key@) == map_of_pairs(
                pairs_view(headers@).take(i as int),
            ).contains_key(key@),
            map_of_pairs(pairs_view(headers@).take(i as int)).contains_key(key@)
                ==> full[key@] == map_of_pairs(pairs_view(headers@).take(i as int))[key@],
        decreases i,
    {
        i -= 1;
        let ghost part = pairs_view(headers@).take(i + 1);
        proof {
            assert(part.drop_last() =~= pairs_view(headers@).take(i as int));
            assert(part.last() == (headers@[i as int].0@, headers@[i as int].1@));
        }
        let p = &headers[i];
        if bytes_eq(p.0.as_slice(), key) {
            return Some(&p.1);
        }
    }
    proof {
        assert(pairs_view(headers@).take(0) =~= Seq::<(Seq<u8>, Seq<u8>)>::empty());
    }
    None
}

/// The abstract value of a parsed request.
pub struct RequestModel {
    pub method: Method,
    pub path: Seq<u8>,
    pub http_version: Seq<u8>,
    pub headers: Map<Seq<u8>, Seq<u8>>,
    pub content: Option<Seq<u8>>,
    pub has_dir: bool,
}

/// One parsed request: method, path, version (informational only),
/// lower-cased headers, the body if a `content-length` header declared
/// one, and the configuration it is served under.
pub struct Request {
    config: Config,
    http_version: Vec<u8>,
    headers: Vec<(Vec<u8>, Vec<u8>)>,
    method: Method,
    path: Vec<u8>,
    content: Option<Vec<u8>>,
}

impl View for Request {
    type V = RequestModel;

    closed spec fn view(&self) -> RequestModel {
        RequestModel {
            method: self.method,
            path: self.path@,
            http_version: self.http_version@,
            headers: map_of_pairs(pairs_view(self.headers@)),
            content: match self.content {
                Some(c) => Some(c@),
                None => None,
            },
            has_dir: self.config.files_dir is Some,
        }
    }
}

/// The body length a header mapping declares: none without a
/// `content-length` header; fatal when the header's value is not a
/// plain decimal number that fits in `usize`.
pub open spec fn spec_body_length(headers: Map<Seq<u8>, Seq<u8>>) -> Result<
    Option<int>,
    RequestError,
> {
    if headers.contains_key("content-length".spec_bytes()) {
        match spec_parse_decimal(headers["content-length".spec_bytes()]) {
            Some(n) => Ok(Some(n)),
            None => Err(RequestError::FatalError),
        }
    } else {
        Ok(None)
    }
}

/// The supplied body is exactly what the headers declared: `n` bytes
/// when a `content-length` of `n` was given, absent otherwise.
pub open spec fn spec_body_matches(need: Option<int>, body: Option<Seq<u8>>) -> bool {
    match need {
        Some(n) => body matches Some(b) && b.len() == n,
        None => body is None,
    }
}

/// The request invariant: a readable `content-length` header declares
/// the body, and the body is present exactly when one was declared,
/// with that very length.
pub open spec fn spec_request_wf(m: RequestModel) -> bool {
    match spec_body_length(m.headers) {
        Ok(need) => spec_body_matches(need, m.content),
        Err(_) => false,
    }
}

/// What parsing a request yields. The request line must split on
/// single spaces into exactly three tokens — method, path, version —
/// else the request is bad; an unknown method is its own error; header
/// lines bind lower-cased names, later duplicates winning; a declared
/// `content-length` must be a readable number matched by the body
/// handed in, else the failure is fatal.
pub open spec fn spec_parse_request(
    line: Seq<u8>,
    header_lines: Seq<Seq<u8>>,
    body: Option<Seq<u8>>,
    has_dir: bool,
) -> Result<RequestModel, RequestError> {
    let toks = spec_split(line, 32);  // 32 is the ASCII space
    if toks.len() != 3 {
        Err(RequestError::BadRequestError)
    } else {
        match spec_method(toks[0]) {
            None => Err(RequestError::MethodNotAllowedError),
            Some(method) => {
                let headers = spec_headers(header_lines);
                match spec_body_length(headers) {
                    Err(e) => Err(e),
                    Ok(need) => if spec_body_matches(need, body) {
                        Ok(
                            RequestModel {
                                method,
                                path: toks[1],
                                http_version: toks[2],
                                headers,
                                content: body,
                                has_dir,
                            },
                        )
                    } else {
                        Err(RequestError::FatalError)
                    },
                }
            },
        }
    }
}

/// How many body bytes the caller must read before building the
/// request: the value of the `content-length` header among the given
/// header lines, if one was sent. A value that is not a plain decimal
/// number fitting `usize` is a fatal error.
pub fn body_length(header_lines: &Vec<Vec<u8>>) -> (r: Result<Option<usize>, RequestError>)
    ensures
        match r {
            Ok(need) => spec_body_length(spec_headers(header_lines.deep_view())) == Ok::<
                Option<int>,
                RequestError,
            >(
                match need {
                    Some(n) => Some(n as int),
                    None => None,
                },
            ),
            Err(e) => spec_body_length(spec_headers(header_lines.deep_view())) == Err::<
                Option<int>,
                RequestError,
            >(e),
        },
{
    let headers = parse_header_lines(header_lines);
    match header_lookup(&headers, "content-length".as_bytes()) {
        Some(v) => match parse_decimal(v.as_slice()) {
            Some(n) => Ok(Some(n)),
            None => Err(RequestError::FatalError),
        },
        None => Ok(None),
    }
}

impl Request {
    /// Build a request from its request line, its header lines (the
    /// lines before the blank separator, line endings stripped), the
    /// body bytes read as [`body_length`] directed, and the process
    /// configuration.
    pub fn new(
        request_line: &[u8],
        header_lines: &Vec<Vec<u8>>,
        body: Option<Vec<u8>>,
        config: Config,
    ) -> (r: Result<Request, RequestError>)
        ensures
            match r {
                Ok(req) => spec_parse_request(
                    request_line@,
                    header_lines.deep_view(),
                    body.deep_view(),
                    config.files_dir is Some,
                ) == Ok::<RequestModel, RequestError>(req@) && spec_request_wf(req@),
                Err(e) => spec_parse_request(
                    request_line@,
                    header_lines.deep_view(),
                    body.deep_view(),
                    config.files_dir is Some,
                ) == Err::<RequestModel, RequestError>(e),
            },
    {
        let mut toks = split_bytes(request_line, 32);  // 32 is the ASCII space
        if toks.len() != 3 {
            return Err(RequestError::BadRequestError);
        }
        proof {
            assert(toks.deep_view()[0] == toks@[0]@);
            assert(toks.deep_view()[1] == toks@[1]@);
            assert(toks.deep_view()[2] == toks@[2]@);
        }
        let http_version = toks.pop().unwrap();
        let path = toks.pop().unwrap();
        let method_tok = toks.pop().unwrap();
        let method = match Method::from(method_tok.as_slice()) {
            Ok(m) => m,
            Err(e) => {
                return Err(e);
            },
        };
        let headers = parse_header_lines(header_lines);
        let need = match header_lookup(&headers, "content-length".as_bytes()) {
            Some(v) => match parse_decimal(v.as_slice()) {
                Some(n) => Some(n),
                None => {
                    return Err(RequestError::FatalError);
                },
            },
            None => None,
        };
        proof {
            if body is Some {
                assert(body->Some_0.deep_view() =~= body->Some_0@);
            }
        }
        let matches_need = match (&need, &body) {
            (Some(n), Some(b)) => b.len() == *n,
            (None, None) => true,
            _ => false,
        };
        if !matches_need {
            return Err(RequestError::FatalError);
        }
        Ok(
            Request {
                config,
                http_version,
                headers,
                method,
                path,
                content: body,
            },
        )
    }
}

/// What route dispatch asks the caller to do: write a finished
/// response back, or first perform the file operation the request
/// named and then finish through [`Request::file_read_response`] or
/// [`Request::file_write_response`].
pub enum Action {
    /// Write this response to the client.
    Respond(Response),
    /// Read the named file under the configured directory.
    ReadFile(Vec<u8>),
    /// Write the given bytes to the named file under the configured
    /// directory, overwriting it.
    WriteFile(Vec<u8>, Vec<u8>),
}

/// The abstract value of an [`Action`].
pub enum ActionModel {
    Respond(ResponseModel),
    ReadFile(Seq<u8>),
    WriteFile(Seq<u8>, Seq<u8>),
}

impl View for Action {
    type V = ActionModel;

    open spec fn view(&self) -> ActionModel {
        match self {
            Action::Respond(r) => ActionModel::Respond(r@),
            Action::ReadFile(name) => ActionModel::ReadFile(name@),
            Action::WriteFile(name, content) => ActionModel::WriteFile(name@, content@),
        }
    }
}

/// The request's `accept-encoding` header value, if one was sent.
pub open spec fn spec_accept(headers: Map<Seq<u8>, Seq<u8>>) -> Option<Seq<u8>> {
    if headers.contains_key("accept-encoding".spec_bytes()) {
        Some(headers["accept-encoding".spec_bytes()])
    } else {
        None
    }
}

/// The routing table, evaluated in fixed priority order, first match
/// winning. `/` exactly, then the `/echo/`, `/user-agent` and
/// `/files/` prefixes, then not-found; the first three answer only
/// GET, anything else on them is method-not-allowed. The file routes
/// need a configured directory: without one a GET is not-found and a
/// POST an internal server error; with one, the request becomes a file
/// read or — when a body is present — a file write under the name
/// that follows the prefix.
pub open spec fn spec_handle(m: RequestModel) -> ActionModel {
    let accept = spec_accept(m.headers);
    if m.path == "/".spec_bytes() {
        if m.method != Method::GET {
            ActionModel::Respond(spec_empty_response(Status::MethodNotAllowed))
        } else {
            ActionModel::Respond(spec_empty_response(Status::OK))
        }
    } else if spec_starts_with(m.path, "/echo/".spec_bytes()) {
        if m.method != Method::GET {
            ActionModel::Respond(spec_empty_response(Status::MethodNotAllowed))
        } else {
            ActionModel::Respond(
                spec_text_response(m.path.skip("/echo/".spec_bytes().len() as int), accept),
            )
        }
    } else if spec_starts_with(m.path, "/user-agent".spec_bytes()) {
        if m.method != Method::GET {
            ActionModel::Respond(spec_empty_response(Status::MethodNotAllowed))
        } else {
            let agent = if m.headers.contains_key("user-agent".spec_bytes()) {
                m.headers["user-agent".spec_bytes()]
            } else {
                "User-Agent header is missing".spec_bytes()
            };
            ActionModel::Respond(spec_text_response(agent, accept))
        }
    } else if spec_starts_with(m.path, "/files/".spec_bytes()) {
        let name = m.path.skip("/files/".spec_bytes().len() as int);
        match m.method {
            Method::GET => if m.has_dir {
                ActionModel::ReadFile(name)
            } else {
                ActionModel::Respond(spec_empty_response(Status::NotFound))
            },
            Method::POST => if m.has_dir {
                match m.content {
                    Some(c) => ActionModel::WriteFile(name, c),
                    None => ActionModel::Respond(spec_empty_response(Status::Created)),
                }
            } else {
                ActionModel::Respond(spec_empty_response(Status::InternalServerError))
            },
        }
    } else {
        ActionModel::Respond(spec_empty_response(Status::NotFound))
    }
}

impl Request {
    /// Dispatch the request along the routing table.
    pub fn handle(&self) -> (r: Action)
        ensures
            r@ == spec_handle(self@),
    {
        let accept = header_lookup(&self.headers, "accept-encoding".as_bytes());
        proof {
            assert(opt_bytes_view(accept) == spec_accept(self@.headers));
        }
        if bytes_eq(self.path.as_slice(), "/".as_bytes()) {
            if !matches!(self.method, Method::GET) {
                return Action::Respond(Response::new(Status::MethodNotAllowed));
            }
            return Action::Respond(Response::new(Status::OK));
        }
        if starts_with(self.path.as_slice(), "/echo/".as_bytes()) {
            if !matches!(self.method, Method::GET) {
                return Action::Respond(Response::new(Status::MethodNotAllowed));
            }
            let rest = bytes_skip(self.path.as_slice(), "/echo/".as_bytes().len());
            return Action::Respond(Response::text(rest, accept));
        }
        if starts_with(self.path.as_slice(), "/user-agent".as_bytes()) {
            if !matches!(self.method, Method::GET) {
                return Action::Respond(Response::new(Status::MethodNotAllowed));
            }
            let agent = match header_lookup(&self.headers, "user-agent".as_bytes()) {
                Some(v) => bytes_to_vec(v.as_slice()),
                None => bytes_to_vec("User-Agent header is missing".as_bytes()),
            };
            return Action::Respond(Response::text(agent, accept));
        }
        if starts_with(self.path.as_slice(), "/files/".as_bytes()) {
            let name = bytes_skip(self.path.as_slice(), "/files/".as_bytes().len());
            match self.method {
                Method::GET => {
                    if self.config.files_dir.is_some() {
                        return Action::ReadFile(name);
                    }
                    return Action::Respond(Response::new(Status::NotFound));
                },
                Method::POST => {
                    if self.config.files_dir.is_some() {
                        match &self.content {
                            Some(c) => {
                                return Action::WriteFile(name, bytes_to_vec(c.as_slice()));
                            },
                            None => {
                                return Action::Respond(Response::new(Status::Created));
                            },
                        }
                    }
                    return Action::Respond(Response::new(Status::InternalServerError));
                },
            }
        }
        Action::Respond(Response::new(Status::NotFound))
    }

    /// Finish a dispatched file read: the file's bytes as an
    /// octet-stream body when the read succeeded, `404 Not Found` when
    /// it failed.
    pub fn file_read_response(&self, found: Option<Vec<u8>>) -> (r: Response)
        ensures
            r@ == match found {
                Some(c) => spec_binary_response(c@, spec_accept(self@.headers)),
                None => spec_empty_response(Status::NotFound),
            },
            r.buffered() == Seq::<u8>::empty(),
    {
        match found {
            Some(c) => {
                let accept = header_lookup(&self.headers, "accept-encoding".as_bytes());
                Response::binary(c, accept)
            },
            None => Response::new(Status::NotFound),
        }
    }

    /// Finish a dispatched file write: `201 Created` when the write
    /// succeeded, `500 Internal Server Error` when it failed.
    pub fn file_write_response(&self, ok: bool) -> (r: Response)
        ensures
            r@ == spec_empty_response(
                if ok {
                    Status::Created
                } else {
                    Status::InternalServerError
                },
            ),
            r.buffered() == Seq::<u8>::empty(),
    {
        if ok {
            Response::new(Status::Created)
        } else {
            Response::new(Status::InternalServerError)
        }
    }
}

} // verus!
