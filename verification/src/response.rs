use vstd::prelude::*;

use crate::common::{version_str, Headers, HttpVersion};
use crate::error::Error;
use crate::text::{dec_str, usize_to_string};
use vstd::string::StringSliceAdditionalSpecFns;

verus! {

#[derive(Debug, Clone, Copy, PartialEq, Eq, Structural)]
pub enum Status {
    OK,
    BadRequest,
    MethodNotAllowed,
    RequestHeaderFieldsTooLarge,
    UriTooLong,
    BadGateway,
}

/// The numeric code of a status.
pub open spec fn status_code(s: Status) -> nat {
    match s {
        Status::OK => 200,
        Status::BadRequest => 400,
        Status::MethodNotAllowed => 405,
        Status::RequestHeaderFieldsTooLarge => 431,
        Status::UriTooLong => 414,
        Status::BadGateway => 502,
    }
}

/// The reason phrase of a status.
pub open spec fn status_reason(s: Status) -> Seq<char> {
    match s {
        Status::OK => "OK"@,
        Status::BadRequest => "Bad Request"@,
        Status::MethodNotAllowed => "Method Not Allowed"@,
        Status::RequestHeaderFieldsTooLarge => "Request Header Fields Too Large"@,
        Status::UriTooLong => "URI Too Long"@,
        Status::BadGateway => "Bad Gateway"@,
    }
}

impl Status {
    pub fn to_u16(&self) -> (r: u16)
        ensures
            r as nat == status_code(*self),
    {
        match self {
            Status::OK => 200,
            Status::MethodNotAllowed => 405,
            Status::BadRequest => 400,
            Status::RequestHeaderFieldsTooLarge => 431,
            Status::UriTooLong => 414,
            Status::BadGateway => 502,
        }
    }

    pub fn to_str(&self) -> (r: &'static str)
        ensures
            r@ == status_reason(*self),
    {
        match self {
            Status::OK => "OK",
            Status::MethodNotAllowed => "Method Not Allowed",
            Status::BadRequest => "Bad Request",
            Status::RequestHeaderFieldsTooLarge => "Request Header Fields Too Large",
            Status::UriTooLong => "URI Too Long",
            Status::BadGateway => "Bad Gateway",
        }
    }
}

/// The serialized header lines, one `key:value` line per entry, in order.
pub open spec fn spec_header_lines(es: Seq<(Seq<char>, Seq<char>)>) -> Seq<char>
    decreases es.len(),
{
    if es.len() == 0 {
        Seq::empty()
    } else {
        spec_header_lines(es.drop_last()) + es.last().0 + ":"@ + es.last().1 + "\r\n"@
    }
}

/// Everything before the body: status line, header lines, blank line.
pub open spec fn spec_head_chars(r: Response) -> Seq<char> {
    version_str(r.http_version) + " "@ + dec_str(status_code(r.status)) + " "@ + status_reason(
        r.status,
    ) + "\r\n"@ + spec_header_lines(r.headers.entries()) + "\r\n"@
}

/// A response to be written once: status, version, headers, and a body
/// held as bytes behind a cursor, drained exactly once.
pub struct Response {
    pub status: Status,
    pub http_version: HttpVersion,
    pub headers: Headers,
    pub body: Vec<u8>,
    pub body_pos: usize,
}

impl Response {
    /// The cursor never points past the end of the body.
    pub open spec fn wf(&self) -> bool {
        self.body_pos <= self.body@.len()
    }

    pub fn new(status: Status, http_version: HttpVersion, headers: Headers, body: Vec<u8>) -> (r:
        Response)
        ensures
            r.status == status,
            r.http_version == http_version,
            r.headers == headers,
            r.body == body,
            r.body_pos == 0,
            r.wf(),
    {
        Response { status, http_version, headers, body, body_pos: 0 }
    }

    /// Builds a response carrying `message` as its body, with the matching
    /// `Content-length` header, on version 1.1.
    pub fn error_response(status: Status, message: &str) -> (r: Response)
        ensures
            r.status == status,
            r.http_version == HttpVersion::Http1_1,
            r.headers.entries() == seq![("Content-length"@, dec_str(message.spec_bytes().len() as nat))],
            r.body@ == message.spec_bytes(),
            r.body_pos == 0,
            r.wf(),
    {
        let body = message.as_bytes_vec();
        let blen = body.len();
        let mut headers = Headers::new(Vec::new());
        proof {
            assert(headers.entries() =~= Seq::<(Seq<char>, Seq<char>)>::empty());
            assert(blen as nat == message.spec_bytes().len());
        }
        headers.insert(String::from_str("Content-length"), usize_to_string(blen));
        proof {
            assert(headers.entries() =~= seq![
                ("Content-length"@, dec_str(message.spec_bytes().len() as nat)),
            ]);
        }
        Response::new(status, HttpVersion::Http1_1, headers, body)
    }

    /// Serializes the head, then drains whatever is left of the body onto
    /// the stream. Writing an already-exhausted body emits the head only;
    /// it is not an error.
    pub fn write_to_stream(&mut self, stream: &mut Vec<u8>) -> (r: Result<(), Error>)
        requires
            old(self).wf(),
        ensures
            r is Ok,
            final(stream)@ == old(stream)@ + vstd::utf8::encode_utf8(spec_head_chars(*old(self)))
                + old(self).body@.skip(old(self).body_pos as int),
            final(self).status == old(self).status,
            final(self).http_version == old(self).http_version,
            final(self).headers == old(self).headers,
            final(self).body == old(self).body,
            final(self).body_pos == final(self).body@.len(),
            final(self).wf(),
    {
        let mut head = String::new();
        head.append(self.http_version.to_str());
        head.append(" ");
        let code = usize_to_string(self.status.to_u16() as usize);
        head.append(code.as_str());
        head.append(" ");
        head.append(self.status.to_str());
        head.append("\r\n");
        let ghost status_part = head@;
        let m = self.headers.headers.len();
        let mut i: usize = 0;
        proof {
            assert(spec_header_lines(self.headers.entries().subrange(0, 0)) =~= Seq::<
                char,
            >::empty());
        }
        while i < m
            invariant
                0 <= i <= m,
                m == self.headers.headers@.len(),
                head@ == status_part + spec_header_lines(self.headers.entries().subrange(0, i as int)),
            decreases m - i,
        {
            let pair = &self.headers.headers[i];
            head.append(pair.0.as_str());
            head.append(":");
            head.append(pair.1.as_str());
            head.append("\r\n");
            proof {
                let es = self.headers.entries();
                assert(es.subrange(0, i + 1).drop_last() =~= es.subrange(0, i as int));
                assert(es.subrange(0, i + 1).last() == (pair.0@, pair.1@));
            }
            i = i + 1;
        }
        head.append("\r\n");
        proof {
            assert(self.headers.entries().subrange(0, m as int) =~= self.headers.entries());
            assert(head@ =~= spec_head_chars(*self));
        }
        stream.extend_from_slice(head.as_str().as_bytes());
        let ghost with_head = stream@;
        let end = self.body.len();
        let mut j: usize = self.body_pos;
        proof {
            assert(self.body@.subrange(self.body_pos as int, j as int) =~= Seq::<u8>::empty());
        }
        while j < end
            invariant
                self.body_pos <= j <= end,
                end == self.body@.len(),
                stream@ == with_head + self.body@.subrange(self.body_pos as int, j as int),
            decreases end - j,
        {
            let byte = self.body[j];
            stream.push(byte);
            proof {
                assert(self.body@.subrange(self.body_pos as int, j + 1).drop_last()
                    =~= self.body@.subrange(self.body_pos as int, j as int));
            }
            j = j + 1;
        }
        proof {
            assert(self.body@.subrange(self.body_pos as int, end as int) =~= self.body@.skip(
                self.body_pos as int,
            ));
        }
        self.body_pos = end;
        Ok(())
    }
}

/// A freshly built error-style response: the given status on version 1.1,
/// a single `Content-length` header, and `msg` as the not-yet-drained body.
pub open spec fn is_error_response(r: Response, status: Status, msg: Seq<char>) -> bool {
    &&& r.status == status
    &&& r.http_version == HttpVersion::Http1_1
    &&& r.body@ == vstd::utf8::encode_utf8(msg)
    &&& r.headers.entries() == seq![
        ("Content-length"@, dec_str(vstd::utf8::encode_utf8(msg).len() as nat)),
    ]
    &&& r.body_pos == 0
}

/// Writing a response whose body is already exhausted appends the head
/// only: the remaining body is empty, so it is not an error and no body
/// bytes follow.
pub proof fn lemma_exhausted_body_writes_head_only(r: Response)
    requires
        r.body_pos == r.body@.len(),
    ensures
        r.body@.skip(r.body_pos as int) == Seq::<u8>::empty(),
{
    assert(r.body@.skip(r.body_pos as int) =~= Seq::<u8>::empty());
}

} // verus!
