//! The HTTP response value: a status, optional body text and a header
//! list, assembled by a builder-style API, and the exact textual head that
//! precedes the body on the wire.

use crate::http_error::HttpError;
use crate::http_status::HttpStatus;
use crate::textfmt::{push_char, spec_dec_nat, u64_to_dec};
use vstd::prelude::*;
use vstd::string::StringExecFns;
use vstd::string::StringSliceAdditionalSpecFns;
use vstd::utf8::encode_utf8;

verus! {

/// A response under construction: status, body and headers.
#[derive(Debug, Clone, PartialEq, Eq)]
pub struct Response {
    pub status: HttpStatus,
    pub body: Option<String>,
    pub headers: Vec<(String, String)>,
}

/// The header lines, each `name: value` followed by a line break.
pub open spec fn spec_headers_text(hs: Seq<(String, String)>) -> Seq<char>
    decreases hs.len(),
{
    if hs.len() == 0 {
        Seq::empty()
    } else {
        hs[0].0@ + seq![':', ' '] + hs[0].1@ + seq!['\r', '\n'] + spec_headers_text(
            hs.drop_first(),
        )
    }
}

impl Response {
    /// The body's length in bytes, as the content-length header states it.
    pub open spec fn spec_body_len(self) -> nat {
        match self.body {
            Option::None => 0,
            Option::Some(b) => (encode_utf8(b@).len() as usize) as nat,
        }
    }

    /// The response head: status line, header lines, content length, and
    /// the blank line ending the head.
    pub open spec fn spec_head(self) -> Seq<char> {
        "HTTP/1.1 "@ + spec_dec_nat(self.status.spec_code() as nat) + seq![' ']
            + self.status.spec_reason() + seq!['\r', '\n'] + spec_headers_text(self.headers@)
            + "Content-Length: "@ + spec_dec_nat(self.spec_body_len()) + seq![
            '\r',
            '\n',
            '\r',
            '\n',
        ]
    }

    pub fn new(status: HttpStatus) -> (r: Response)
        ensures
            r.status == status,
            r.body is None,
            r.headers@.len() == 0,
    {
        Response { status, body: None, headers: Vec::new() }
    }

    /// Sets (or replaces) the body text.
    pub fn body(self, body: &str) -> (r: Response)
        ensures
            r.status == self.status,
            r.headers == self.headers,
            r.body is Some && r.body->0@ == body@,
    {
        let mut s = self;
        s.body = Some(body.to_owned());
        s
    }

    /// Appends one header.
    pub fn header(self, key: &str, value: &str) -> (r: Response)
        ensures
            r.status == self.status,
            r.body == self.body,
            r.headers@.len() == self.headers@.len() + 1,
            r.headers@.take(self.headers@.len() as int) == self.headers@,
            r.headers@.last().0@ == key@,
            r.headers@.last().1@ == value@,
    {
        let mut s = self;
        s.headers.push((key.to_owned(), value.to_owned()));
        proof {
            assert(s.headers@.take(self.headers@.len() as int) =~= self.headers@);
        }
        s
    }

    /// A plain-text response: the text as body, with the matching
    /// content-type header.
    pub fn text(self, text: &str) -> (r: Response)
        ensures
            r.status == self.status,
            r.body is Some && r.body->0@ == text@,
            r.headers@.len() == self.headers@.len() + 1,
            r.headers@.take(self.headers@.len() as int) == self.headers@,
            r.headers@.last().0@ == "Content-Type"@,
            r.headers@.last().1@ == "text/plain"@,
    {
        self.header("Content-Type", "text/plain").body(text)
    }

    /// Finishes a JSON response from the outcome of serializing the
    /// payload: on success the serialized text becomes the body with the
    /// matching content-type header; on failure the response turns into an
    /// internal server error describing the failure.
    pub fn json(self, serialized: Result<String, String>) -> (r: Response)
        ensures
            match serialized {
                Ok(v) => r.status == self.status && r.body is Some && r.body->0@ == v@
                    && r.headers@.len() == self.headers@.len() + 1 && r.headers@.take(
                    self.headers@.len() as int,
                ) == self.headers@ && r.headers@.last().0@ == "Content-Type"@
                    && r.headers@.last().1@ == "application/json"@,
                Err(e) => r.status == HttpStatus::InternalServerError && r.headers
                    == self.headers && r.body is Some && r.body->0@ == "JSON Serialization Failed: "@
                    + e@,
            },
    {
        match serialized {
            Ok(v) => self.header("Content-Type", "application/json").body(v.as_str()),
            Err(e) => {
                let mut s = self;
                s.status = HttpStatus::InternalServerError;
                let mut msg = String::from_str("JSON Serialization Failed: ");
                msg.append(e.as_str());
                s.body = Some(msg);
                s
            },
        }
    }

    /// The response head as text.
    pub fn head_text(&self) -> (r: String)
        ensures
            r@ == self.spec_head(),
    {
        let ghost target: Seq<char> = self.spec_head();
        let mut s = String::from_str("HTTP/1.1 ");
        let code = u64_to_dec(self.status.code() as u64);
        s.append(code.as_str());
        push_char(&mut s, ' ');
        let reason = self.status.reason();
        s.append(reason.as_str());
        push_char(&mut s, '\r');
        push_char(&mut s, '\n');
        let n: usize = self.headers.len();
        let ghost before: Seq<char> = s@;
        let mut i: usize = 0;
        while i < n
            invariant
                i <= n,
                n == self.headers@.len(),
                s@ == before + spec_headers_text(self.headers@.take(i as int)),
            decreases n - i,
        {
            s.append(self.headers[i].0.as_str());
            push_char(&mut s, ':');
            push_char(&mut s, ' ');
            s.append(self.headers[i].1.as_str());
            push_char(&mut s, '\r');
            push_char(&mut s, '\n');
            proof {
                lemma_headers_text_push(self.headers@.take(i as int), self.headers@[i as int]);
                assert(self.headers@.take(i as int).push(self.headers@[i as int])
                    =~= self.headers@.take(i + 1 as int));
                assert(s@ =~= before + spec_headers_text(self.headers@.take(i + 1 as int)));
            }
            i = i + 1;
        }
        s.append("Content-Length: ");
        let len: usize = match &self.body {
            Some(b) => {
                let bs: &str = b.as_str();
                let l: usize = bs.len();
                proof {
                    assert(bs.spec_bytes() == encode_utf8(bs@));
                }
                l
            },
            None => 0,
        };
        proof {
            assert(len as nat == self.spec_body_len());
        }
        let lentext = u64_to_dec(len as u64);
        s.append(lentext.as_str());
        push_char(&mut s, '\r');
        push_char(&mut s, '\n');
        push_char(&mut s, '\r');
        push_char(&mut s, '\n');
        proof {
            assert(self.headers@.take(n as int) =~= self.headers@);
            assert(s@ =~= target);
        }
        s
    }

    /// Appends the head's UTF-8 bytes to an output buffer. Writing into a
    /// growable buffer cannot run short, so the result is always `Ok`; the
    /// error arm mirrors the fallible wire-writing interface around it.
    pub fn write_head_to_vec(&self, buffer: &mut Vec<u8>) -> (r: Result<(), HttpError>)
        ensures
            r is Ok,
            final(buffer)@ == old(buffer)@ + encode_utf8(self.spec_head()),
    {
        let head = self.head_text();
        let bytes: &[u8] = head.as_str().as_bytes();
        let ghost orig: Seq<u8> = buffer@;
        let m: usize = bytes.len();
        let mut i: usize = 0;
        while i < m
            invariant
                i <= m,
                m == bytes@.len(),
                bytes@ == encode_utf8(self.spec_head()),
                buffer@ == orig + bytes@.take(i as int),
            decreases m - i,
        {
            buffer.push(bytes[i]);
            proof {
                assert(bytes@.take(i as int).push(bytes@[i as int]) =~= bytes@.take(i + 1 as int));
                assert(buffer@ =~= orig + bytes@.take(i + 1 as int));
            }
            i = i + 1;
        }
        proof {
            assert(bytes@.take(m as int) =~= bytes@);
            assert(buffer@ =~= orig + encode_utf8(self.spec_head()));
        }
        Ok(())
    }
}

proof fn lemma_headers_text_push(hs: Seq<(String, String)>, h: (String, String))
    ensures
        spec_headers_text(hs.push(h)) == spec_headers_text(hs) + h.0@ + seq![':', ' '] + h.1@
            + seq!['\r', '\n'],
    decreases hs.len(),
{
    if hs.len() == 0 {
        assert(hs.push(h)[0] == h);
        assert(hs.push(h).drop_first() =~= hs);
        assert(spec_headers_text(hs.push(h)) =~= spec_headers_text(hs) + h.0@ + seq![':', ' ']
            + h.1@ + seq!['\r', '\n']);
    } else {
        lemma_headers_text_push(hs.drop_first(), h);
        assert(hs.push(h).drop_first() =~= hs.drop_first().push(h));
        assert(hs.push(h)[0] == hs[0]);
        assert(spec_headers_text(hs.push(h)) =~= spec_headers_text(hs) + h.0@ + seq![':', ' ']
            + h.1@ + seq!['\r', '\n']);
    }
}

/// Anything that can finish into a response.
pub trait IntoResponse: Sized {
    fn into_response(self) -> Response;
}

impl IntoResponse for Response {
    fn into_response(self) -> Response {
        self
    }
}

impl From<HttpError> for Response {
    /// An error's response: its status, its message as the body.
    fn from(e: HttpError) -> Response {
        Response::new(e.status).body(e.message.as_str())
    }
}

impl vstd::std_specs::convert::FromSpecImpl<HttpError> for Response {
    open spec fn obeys_from_spec() -> bool {
        false
    }

    open spec fn from_spec(e: HttpError) -> Response {
        vstd::pervasive::arbitrary()
    }
}

} // verus!
