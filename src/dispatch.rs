//! The transport's reply as an operation's outcome, and the document in a
//! successful reply's body.
use vstd::prelude::*;
use vstd::utf8::{decode_utf8, valid_utf8};
use crate::error::Error;
use crate::http;
use crate::markup::{markup_of, parse_markup, XmlNode};
use crate::text::decode_utf8 as decode_text;

verus! {

/// The body of a reply with status 200.
pub struct Response {
    pub body: Vec<u8>,
}

/// A result type built from a successful reply.
pub trait FromResponse: Sized {
    /// `r` is what a response with this body reads as.
    spec fn read_from(body: Seq<u8>, r: Result<Self, Error>) -> bool;

    fn from_response(resp: &Response) -> (r: Result<Self, Error>)
        ensures
            Self::read_from(resp.body@, r),
    ;
}

/// The reply's body, an absent body being empty.
pub open spec fn body_of(r: http::Response) -> Seq<u8> {
    match r.body {
        Some(b) => b@,
        None => Seq::empty(),
    }
}

/// The error of a failed exchange: the transport's own, or a status other
/// than 200; none for status 200.
pub open spec fn reply_error(reply: Result<http::Response, String>) -> Option<Error> {
    match reply {
        Err(detail) => Some(Error::Transport(detail)),
        Ok(r) => if r.status_code == 200 {
            None
        } else {
            Some(Error::HttpStatus(r.status_code))
        },
    }
}

/// The document in a body: UTF-8 text that parses as XML.
pub open spec fn document_of(body: Seq<u8>) -> Result<XmlNode, Error> {
    if !valid_utf8(body) {
        Err(Error::InvalidEncoding)
    } else {
        match markup_of(decode_utf8(body)) {
            Ok(n) => Ok(n),
            Err(m) => Err(Error::MarkupParse { line: m.line, column: m.column, message: m.message }),
        }
    }
}

/// The outcome of an exchange: the body of a reply with status 200, else
/// the transport's error or the status, whatever the body held.
pub fn receive(reply: Result<http::Response, String>) -> (r: Result<Response, Error>)
    ensures
        match reply_error(reply) {
            Some(e) => r == Err::<Response, Error>(e),
            None => r is Ok && r->Ok_0.body@ == body_of(reply->Ok_0),
        },
{
    match reply {
        Err(detail) => Err(Error::Transport(detail)),
        Ok(resp) => {
            if resp.status_code == 200 {
                match resp.body {
                    Some(b) => Ok(Response { body: b }),
                    None => Ok(Response { body: Vec::new() }),
                }
            } else {
                Err(Error::HttpStatus(resp.status_code))
            }
        },
    }
}

impl Response {
    /// The result type's reading of this response.
    pub fn unmarshal<T: FromResponse>(&self) -> (r: Result<T, Error>)
        ensures
            T::read_from(self.body@, r),
    {
        T::from_response(self)
    }

    /// The XML document in the body.
    pub fn xml_body(&self) -> (r: Result<XmlNode, Error>)
        ensures
            r == document_of(self.body@),
    {
        match decode_text(self.body.as_slice()) {
            None => Err(Error::InvalidEncoding),
            Some(s) => {
                proof {
                    vstd::utf8::encode_utf8_decode_utf8(s@);
                }
                match parse_markup(s.as_str()) {
                    Ok(n) => Ok(n),
                    Err(m) => Err(
                        Error::MarkupParse { line: m.line, column: m.column, message: m.message },
                    ),
                }
            },
        }
    }
}

} // verus!
