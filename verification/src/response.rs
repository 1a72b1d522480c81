//! Response values and their byte-exact serialization.
//!
//! A `Response` accumulates a status, an optional body with its content
//! type, and the negotiated content encoding; `as_bytes` turns it into
//! the exact bytes placed on the wire. The output buffer is an outside
//! growable byte buffer, used through trusted wrappers; the gzip pass
//! runs strictly before the content length is computed, so the emitted
//! length always counts the bytes actually transmitted.

use vstd::prelude::*;
use vstd::string::StringSliceAdditionalSpecFns;

use crate::bytes_util::{bytes_to_vec, contains_sub, push_decimal, spec_contains, spec_decimal};
use crate::compression::{compress, gzip_of};
use crate::http::Status;

verus! {

/// Declares bytes::BytesMut, the growable byte buffer responses are
/// serialized into; [`buf_view`] names what it holds.
#[verifier::external_type_specification]
#[verifier::external_body]
pub struct ExBytesMut(bytes::BytesMut);

/// The bytes an outside buffer currently holds.
pub uninterp spec fn buf_view(b: bytes::BytesMut) -> Seq<u8>;

/// Relies on bytes::BytesMut::with_capacity: a fresh buffer holds no bytes.
#[verifier::external_body]
fn buf_with_capacity(capacity: usize) -> (r: bytes::BytesMut)
    ensures
        buf_view(r) == Seq::<u8>::empty(),
{
    bytes::BytesMut::with_capacity(capacity)
}

/// Relies on bytes::BytesMut::extend_from_slice: appends the slice's
/// bytes at the end of the buffer.
#[verifier::external_body]
fn buf_extend(b: &mut bytes::BytesMut, s: &[u8])
    ensures
        buf_view(*final(b)) == buf_view(*old(b)) + s@,
{
    b.extend_from_slice(s)
}

/// Relies on bytes::BytesMut's Deref to `[u8]`: a view of the buffer's
/// current contents.
#[verifier::external_body]
fn buf_as_slice(b: &bytes::BytesMut) -> (r: &[u8])
    ensures
        r@ == buf_view(*b),
{
    b
}

/// The content encoding chosen for a response body.
#[derive(PartialEq, Eq, Structural, Debug, Clone, Copy)]
pub enum Encoding {
    Identity,
    Gzip,
}

/// View of an optional borrowed byte vector.
pub open spec fn opt_bytes_view(o: Option<&Vec<u8>>) -> Option<Seq<u8>> {
    match o {
        Some(v) => Some(v@),
        None => None,
    }
}

/// The encoding negotiated from a request's `accept-encoding` header
/// value: gzip exactly when that value contains the byte substring
/// `gzip`, identity when it does not or no such header was sent.
pub open spec fn spec_encoding(accept: Option<Seq<u8>>) -> Encoding {
    match accept {
        Some(v) => if spec_contains(v, "gzip".spec_bytes()) {
            Encoding::Gzip
        } else {
            Encoding::Identity
        },
        None => Encoding::Identity,
    }
}

impl Encoding {
    /// Negotiate the encoding from the `accept-encoding` header value,
    /// if one was sent.
    pub fn from(accept: Option<&Vec<u8>>) -> (r: Encoding)
        ensures
            r == spec_encoding(opt_bytes_view(accept)),
    {
        match accept {
            Some(v) => {
                if contains_sub(v.as_slice(), "gzip".as_bytes()) {
                    Encoding::Gzip
                } else {
                    Encoding::Identity
                }
            },
            None => Encoding::Identity,
        }
    }
}

/// The abstract value of a `Response`: everything its wire bytes are a
/// function of.
pub struct ResponseModel {
    pub status: Status,
    pub content: Option<Seq<u8>>,
    pub content_type: Seq<u8>,
    pub encoding: Encoding,
}

/// The model of a response that carries a status and nothing else.
pub open spec fn spec_empty_response(status: Status) -> ResponseModel {
    ResponseModel {
        status,
        content: None,
        content_type: Seq::<u8>::empty(),
        encoding: Encoding::Identity,
    }
}

/// The model of a `200 OK` plain-text response.
pub open spec fn spec_text_response(content: Seq<u8>, accept: Option<Seq<u8>>) -> ResponseModel {
    ResponseModel {
        status: Status::OK,
        content: Some(content),
        content_type: "text/plain".spec_bytes(),
        encoding: spec_encoding(accept),
    }
}

/// The model of a `200 OK` octet-stream response.
pub open spec fn spec_binary_response(content: Seq<u8>, accept: Option<Seq<u8>>) -> ResponseModel {
    ResponseModel {
        status: Status::OK,
        content: Some(content),
        content_type: "application/octet-stream".spec_bytes(),
        encoding: spec_encoding(accept),
    }
}

/// A response under construction: status, optional body, content type,
/// negotiated encoding, and the buffer the wire bytes are written into.
pub struct Response {
    status: Status,
    content: Option<Vec<u8>>,
    content_type: Vec<u8>,
    encoding: Encoding,
    bytes: bytes::BytesMut,
}

impl View for Response {
    type V = ResponseModel;

    closed spec fn view(&self) -> ResponseModel {
        ResponseModel {
            status: self.status,
            content: match self.content {
                Some(c) => Some(c@),
                None => None,
            },
            content_type: self.content_type@,
            encoding: self.encoding,
        }
    }
}

/// The exact status-line literal for each status.
pub open spec fn spec_status_line(s: Status) -> Seq<u8> {
    match s {
        Status::OK => "200 OK".spec_bytes(),
        Status::Created => "201 Created".spec_bytes(),
        Status::BadRequest => "400 Bad Request".spec_bytes(),
        Status::NotFound => "404 Not Found".spec_bytes(),
        Status::MethodNotAllowed => "405 Method Not Allowed".spec_bytes(),
        Status::InternalServerError => "500 Internal Server Error".spec_bytes(),
    }
}

fn status_line(s: &Status) -> (r: &'static str)
    ensures
        r.spec_bytes() == spec_status_line(*s),
{
    match s {
        Status::OK => "200 OK",
        Status::Created => "201 Created",
        Status::BadRequest => "400 Bad Request",
        Status::NotFound => "404 Not Found",
        Status::MethodNotAllowed => "405 Method Not Allowed",
        Status::InternalServerError => "500 Internal Server Error",
    }
}

/// The bytes transmitted as the body: the content, gzip-compressed
/// first when that encoding was negotiated.
pub open spec fn spec_wire_body(m: ResponseModel) -> Option<Seq<u8>> {
    match m.content {
        Some(c) => Some(
            if m.encoding == Encoding::Gzip {
                gzip_of(c)
            } else {
                c
            },
        ),
        None => None,
    }
}

/// The exact wire bytes of a response: the status line, then — only
/// when a body is present — the conditional `Content-Encoding` header,
/// the `Content-Type` and `Content-Length` headers, a blank line, and
/// the (possibly compressed) body. Without a body, just the status
/// line and a blank line.
pub open spec fn spec_wire_bytes(m: ResponseModel) -> Seq<u8> {
    let head = "HTTP/1.1 ".spec_bytes() + spec_status_line(m.status);
    match spec_wire_body(m) {
        None => head + "\r\n\r\n".spec_bytes(),
        Some(body) => head + (if m.encoding == Encoding::Gzip {
            "\r\nContent-Encoding: gzip".spec_bytes()
        } else {
            Seq::<u8>::empty()
        }) + "\r\nContent-Type: ".spec_bytes() + m.content_type
            + "\r\nContent-Length: ".spec_bytes() + spec_decimal(body.len() as int)
            + "\r\n\r\n".spec_bytes() + body,
    }
}

impl Response {
    /// The bytes already written into the output buffer.
    pub closed spec fn buffered(&self) -> Seq<u8> {
        buf_view(self.bytes)
    }

    /// An empty response carrying only a status.
    pub fn new(status: Status) -> (r: Response)
        ensures
            r@ == (ResponseModel {
                status,
                content: None,
                content_type: Seq::<u8>::empty(),
                encoding: Encoding::Identity,
            }),
            r.buffered() == Seq::<u8>::empty(),
    {
        Response {
            status,
            content: None,
            content_type: Vec::new(),
            encoding: Encoding::Identity,
            bytes: buf_with_capacity(64),
        }
    }

    /// A `200 OK` response with a plain-text body and the encoding
    /// negotiated from the request's `accept-encoding` header value.
    pub fn text(content: Vec<u8>, accept: Option<&Vec<u8>>) -> (r: Response)
        ensures
            r@ == (ResponseModel {
                status: Status::OK,
                content: Some(content@),
                content_type: "text/plain".spec_bytes(),
                encoding: spec_encoding(opt_bytes_view(accept)),
            }),
            r.buffered() == Seq::<u8>::empty(),
    {
        Response {
            status: Status::OK,
            content: Some(content),
            content_type: bytes_to_vec("text/plain".as_bytes()),
            encoding: Encoding::from(accept),
            bytes: buf_with_capacity(64),
        }
    }

    /// A `200 OK` response with an opaque binary body and the encoding
    /// negotiated from the request's `accept-encoding` header value.
    pub fn binary(content: Vec<u8>, accept: Option<&Vec<u8>>) -> (r: Response)
        ensures
            r@ == (ResponseModel {
                status: Status::OK,
                content: Some(content@),
                content_type: "application/octet-stream".spec_bytes(),
                encoding: spec_encoding(opt_bytes_view(accept)),
            }),
            r.buffered() == Seq::<u8>::empty(),
    {
        Response {
            status: Status::OK,
            content: Some(content),
            content_type: bytes_to_vec("application/octet-stream".as_bytes()),
            encoding: Encoding::from(accept),
            bytes: buf_with_capacity(64),
        }
    }

    /// Serialize the response, appending its wire bytes to the internal
    /// buffer, and return the buffer's full contents: on a freshly
    /// built response, exactly the wire bytes. The one failure is a
    /// gzip encoder error, which leaves the response untouched; a
    /// response that needs no compression always serializes.
    pub fn as_bytes(&mut self) -> (r: Result<Vec<u8>, ()>)
        ensures
            old(self)@.encoding == Encoding::Identity || old(self)@.content is None ==> r is Ok,
            r matches Ok(v) ==> {
                &&& v@ == old(self).buffered() + spec_wire_bytes(old(self)@)
                &&& final(self)@ == old(self)@
                &&& final(self).buffered() == v@
            },
            r is Err ==> *final(self) == *old(self),
    {
        // The gzip pass runs before any header is written, so a failure
        // leaves the buffer untouched and the content length counts the
        // bytes actually sent.
        let wire_body: Option<Vec<u8>> = match &self.content {
            None => None,
            Some(c) => {
                if self.encoding == Encoding::Gzip {
                    match compress(c.as_slice()) {
                        Ok(z) => Some(z),
                        Err(()) => {
                            return Err(());
                        },
                    }
                } else {
                    Some(bytes_to_vec(c.as_slice()))
                }
            },
        };
        let ghost m = old(self)@;
        let ghost pre = old(self).buffered();
        let ghost head = "HTTP/1.1 ".spec_bytes() + spec_status_line(m.status);
        let line = status_line(&self.status);
        buf_extend(&mut self.bytes, "HTTP/1.1 ".as_bytes());
        buf_extend(&mut self.bytes, line.as_bytes());
        proof {
            assert(buf_view(self.bytes) =~= pre + head);
        }
        match wire_body {
            None => {
                buf_extend(&mut self.bytes, "\r\n\r\n".as_bytes());
                proof {
                    assert(spec_wire_bytes(m) == head + "\r\n\r\n".spec_bytes());
                    assert(buf_view(self.bytes) =~= pre + spec_wire_bytes(m));
                }
            },
            Some(body) => {
                let ghost enc_part = if m.encoding == Encoding::Gzip {
                    "\r\nContent-Encoding: gzip".spec_bytes()
                } else {
                    Seq::<u8>::empty()
                };
                if self.encoding == Encoding::Gzip {
                    buf_extend(&mut self.bytes, "\r\nContent-Encoding: gzip".as_bytes());
                }
                proof {
                    assert(buf_view(self.bytes) =~= pre + head + enc_part);
                }
                buf_extend(&mut self.bytes, "\r\nContent-Type: ".as_bytes());
                buf_extend(&mut self.bytes, self.content_type.as_slice());
                let mut digits: Vec<u8> = Vec::new();
                push_decimal(&mut digits, body.len());
                proof {
                    assert(digits@ =~= spec_decimal(body@.len() as int));
                    assert(buf_view(self.bytes) =~= pre + head + enc_part
                        + "\r\nContent-Type: ".spec_bytes() + m.content_type);
                }
                buf_extend(&mut self.bytes, "\r\nContent-Length: ".as_bytes());
                buf_extend(&mut self.bytes, digits.as_slice());
                buf_extend(&mut self.bytes, "\r\n\r\n".as_bytes());
                buf_extend(&mut self.bytes, body.as_slice());
                proof {
                    assert(spec_wire_bytes(m) == head + enc_part + "\r\nContent-Type: ".spec_bytes()
                        + m.content_type + "\r\nContent-Length: ".spec_bytes()
                        + spec_decimal(body@.len() as int) + "\r\n\r\n".spec_bytes() + body@);
                    assert(buf_view(self.bytes) =~= pre + spec_wire_bytes(m));
                }
            },
        }
        let out = bytes_to_vec(buf_as_slice(&self.bytes));
        Ok(out)
    }
}

/// Content negotiation, spelled out: with a body and gzip negotiated,
/// the wire bytes carry a `Content-Encoding: gzip` header and a
/// `Content-Length` naming the compressed body's exact length, and the
/// compressed bytes follow; without gzip, no such header appears among
/// the emitted parts and the length names the raw body's length.
pub proof fn lemma_content_negotiation(m: ResponseModel)
    requires
        m.content is Some,
    ensures
        m.encoding == Encoding::Gzip ==> spec_wire_bytes(m) == "HTTP/1.1 ".spec_bytes()
            + spec_status_line(m.status) + "\r\nContent-Encoding: gzip".spec_bytes()
            + "\r\nContent-Type: ".spec_bytes() + m.content_type
            + "\r\nContent-Length: ".spec_bytes()
            + spec_decimal(gzip_of(m.content->Some_0).len() as int) + "\r\n\r\n".spec_bytes()
            + gzip_of(m.content->Some_0),
        m.encoding == Encoding::Identity ==> spec_wire_bytes(m) == "HTTP/1.1 ".spec_bytes()
            + spec_status_line(m.status) + "\r\nContent-Type: ".spec_bytes() + m.content_type
            + "\r\nContent-Length: ".spec_bytes() + spec_decimal(m.content->Some_0.len() as int)
            + "\r\n\r\n".spec_bytes() + m.content->Some_0,
{
    let head = "HTTP/1.1 ".spec_bytes() + spec_status_line(m.status);
    let body = spec_wire_body(m)->Some_0;
    if m.encoding == Encoding::Identity {
        assert(head + Seq::<u8>::empty() =~= head);
    }
}

/// Serialization is deterministic: the wire bytes are a function of the
/// response value alone, so serializing equal responses — or one
/// response twice, each time on a fresh buffer — yields identical bytes.
pub proof fn lemma_serialize_deterministic(a: ResponseModel, b: ResponseModel)
    requires
        a == b,
    ensures
        spec_wire_bytes(a) == spec_wire_bytes(b),
{
}

} // verus!
