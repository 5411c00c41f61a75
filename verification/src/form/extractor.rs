//! The decisions of reading a url-encoded form body: whether the request
//! declares the right content type, a known charset and a readable length,
//! whether the body stays within its limit as its chunks arrive, and what
//! text the finished body is parsed from.  Reading the chunks and parsing
//! the text into the caller's type are left to the caller.
use vstd::prelude::*;

use crate::text::{owned, parse_usize, spec_parse_int};

verus! {

/// Why a url-encoded body was refused.
#[derive(Debug, Clone, Copy, PartialEq, Eq)]
pub enum UrlencodedError {
    /// The body is longer than allowed.
    Overflow,
    /// The `Content-Length` header could not be read as a length.
    UnknownLength,
    /// The request is not `application/x-www-form-urlencoded`, or its
    /// charset is not known.
    ContentType,
    /// The body could not be parsed.
    Parse,
}

/// `application/x-www-form-urlencoded`.
pub open spec fn form_content_type() -> Seq<char> {
    "application/x-www-form-urlencoded"@
}

/// What `str::to_lowercase` gives for `s`: each character replaced by its
/// Unicode lowercase mapping.
pub uninterp spec fn lowercase(s: Seq<char>) -> Seq<char>;

/// `str::to_lowercase`.  Its result is a function of the text alone
/// (Unicode's lowercase mapping), named `lowercase`.
#[verifier::external_body]
fn to_lowercase(s: &str) -> (r: String)
    ensures
        r@ == lowercase(s@),
{
    s.to_lowercase()
}

/// What encoding_rs gives for decoding `body` in the encoding with label
/// `label`, without byte-order-mark handling and with malformed input
/// refused (`Encoding::for_label`, then
/// `decode_without_bom_handling_and_without_replacement`): the text, or
/// `None` when the label is not known or the body is malformed.
pub uninterp spec fn decoded_body(label: Seq<char>, body: Seq<u8>) -> Option<Seq<char>>;

/// encoding_rs: decodes `body` in the encoding with label `label` (see
/// `decoded_body`).  encoding_rs panics only when the size of the text it
/// allocates for would overflow, which a body of at most a quarter of the
/// address space never does.
#[verifier::external_body]
fn decode_body(label: &str, body: &[u8]) -> (r: Option<String>)
    requires
        body@.len() <= usize::MAX / 4,
    ensures
        match r {
            Some(s) => decoded_body(label@, body@) == Some(s@),
            None => decoded_body(label@, body@) is None,
        },
{
    match encoding_rs::Encoding::for_label(label.as_bytes()) {
        Some(encoding) => encoding.decode_without_bom_handling_and_without_replacement(body).map(
            |text| text.into_owned(),
        ),
        None => None,
    }
}

/// The name of the charset whose bodies are parsed as they stand.
pub open spec fn utf8_name() -> Seq<char> {
    "UTF-8"@
}

/// The limit a body is read with unless another is set: 32 KiB.
pub const DEFAULT_BODY_LIMIT: usize = 32_768;

/// The length declared by a `Content-Length` header: none when there is no
/// header (`None`), an error when its value is not visible ASCII
/// (`Some(None)`) or not a decimal `usize`.
pub open spec fn declared_length(header: Option<Option<Seq<char>>>) -> Result<Option<nat>, UrlencodedError> {
    match header {
        None => Ok(None),
        Some(None) => Err(UrlencodedError::UnknownLength),
        Some(Some(s)) => match spec_parse_int(s, false, usize::MAX as int, 0) {
            Ok(n) => Ok(Some(n as nat)),
            Err(_) => Err(UrlencodedError::UnknownLength),
        },
    }
}

/// A header's text: `None` when there is no header, `Some(None)` when its
/// value is not visible ASCII.
pub open spec fn header_text<'a>(h: Option<Option<&'a str>>) -> Option<Option<Seq<char>>> {
    match h {
        None => None,
        Some(None) => Some(None),
        Some(Some(s)) => Some(Some(s@)),
    }
}

/// The state of reading a url-encoded body: the limit, the length the
/// request declared (until the reading starts), the error found in the
/// request's headers (until it is reported), the name of the body's
/// charset, and the body read so far.
#[derive(Debug)]
pub struct UrlEncoded {
    pub limit: usize,
    pub length: Option<usize>,
    pub err: Option<UrlencodedError>,
    pub charset: String,
    pub body: Vec<u8>,
}

impl UrlEncoded {
    /// The state for a request with the given `Content-Type`, the name of
    /// the charset it declares (`None` when that charset is not known), and
    /// its `Content-Length` header (see [`declared_length`]).  The content
    /// type must be `application/x-www-form-urlencoded`, in any case.
    pub fn new(content_type: &str, charset: Option<&str>, content_length: Option<Option<&str>>) -> (r: UrlEncoded)
        ensures
            r.body@.len() == 0,
            r.limit == DEFAULT_BODY_LIMIT,
            lowercase(content_type@) != form_content_type() ==> r.err == Some(UrlencodedError::ContentType) && r.length is None,
            lowercase(content_type@) == form_content_type() && charset is None ==> r.err == Some(UrlencodedError::ContentType) && r.length is None,
            lowercase(content_type@) == form_content_type() && charset is Some ==> r.charset@ == charset->0@ && match declared_length(header_text(content_length)) {
                Ok(len) => r.err is None && match len {
                    Some(n) => r.length == Some(n as usize),
                    None => r.length is None,
                },
                Err(e) => r.err == Some(e) && r.length is None,
            },
    {
        let lower = to_lowercase(content_type);
        if lower != owned("application/x-www-form-urlencoded") {
            return UrlEncoded::err(UrlencodedError::ContentType);
        }
        let charset = match charset {
            Some(c) => owned(c),
            None => return UrlEncoded::err(UrlencodedError::ContentType),
        };
        let length = match content_length {
            None => None,
            Some(None) => {
                let mut r = UrlEncoded::err(UrlencodedError::UnknownLength);
                r.charset = charset;
                return r;
            },
            Some(Some(s)) => match parse_usize(s) {
                Ok(n) => Some(n),
                Err(_) => {
                    let mut r = UrlEncoded::err(UrlencodedError::UnknownLength);
                    r.charset = charset;
                    return r;
                },
            },
        };
        UrlEncoded { limit: DEFAULT_BODY_LIMIT, length, err: None, charset, body: Vec::new() }
    }

    /// A state that reports `e` as soon as reading starts.
    pub fn err(e: UrlencodedError) -> (r: UrlEncoded)
        ensures
            r.err == Some(e),
            r.length is None,
            r.limit == DEFAULT_BODY_LIMIT,
            r.charset@ == utf8_name(),
            r.body@.len() == 0,
    {
        UrlEncoded {
            limit: DEFAULT_BODY_LIMIT,
            length: None,
            err: Some(e),
            charset: owned("UTF-8"),
            body: Vec::new(),
        }
    }

    /// The state with another limit.
    pub fn limit(self, limit: usize) -> (r: UrlEncoded)
        ensures
            r.limit == limit,
            r.length == self.length,
            r.err == self.err,
            r.charset@ == self.charset@,
            r.body@ == self.body@,
    {
        UrlEncoded { limit, ..self }
    }
    /// Starts the reading: reports the error found in the request's headers,
    /// if any; else takes the declared length and refuses it when it is
    /// over the limit.
    pub fn start(&mut self) -> (r: Result<(), UrlencodedError>)
        ensures
            final(self).err is None,
            final(self).limit == old(self).limit,
            final(self).charset@ == old(self).charset@,
            final(self).body@ == old(self).body@,
            match old(self).err {
                Some(e) => r == Err::<(), UrlencodedError>(e) && final(self).length == old(self).length,
                None => final(self).length is None && r == (match old(self).length {
                    Some(n) => if n > old(self).limit {
                        Err::<(), UrlencodedError>(UrlencodedError::Overflow)
                    } else {
                        Ok(())
                    },
                    None => Ok(()),
                }),
            },
    {
        if let Some(e) = self.err.take() {
            return Err(e);
        }
        if let Some(n) = self.length.take() {
            if n > self.limit {
                return Err(UrlencodedError::Overflow);
            }
        }
        Ok(())
    }

    /// Takes in the next chunk of the body, or refuses it (keeping the body
    /// as it was) when the body would grow over the limit.
    pub fn push_chunk(&mut self, chunk: &[u8]) -> (r: Result<(), UrlencodedError>)
        ensures
            final(self).limit == old(self).limit,
            final(self).length == old(self).length,
            final(self).err == old(self).err,
            final(self).charset@ == old(self).charset@,
            old(self).body@.len() + chunk@.len() > old(self).limit ==> r == Err::<(), UrlencodedError>(
                UrlencodedError::Overflow,
            ) && final(self).body@ == old(self).body@,
            old(self).body@.len() + chunk@.len() <= old(self).limit ==> r is Ok && final(self).body@
                == old(self).body@ + chunk@,
    {
        if self.body.len() > self.limit || chunk.len() > self.limit - self.body.len() {
            return Err(UrlencodedError::Overflow);
        }
        self.body.extend_from_slice(chunk);
        proof {
            assert(self.body@ =~= old(self).body@ + chunk@);
        }
        Ok(())
    }

    /// The text the finished body is parsed from.  A UTF-8 body is parsed as
    /// it stands (`Ok(None)`); a body in another charset is decoded first,
    /// and a body that does not decode is refused as [`UrlencodedError::Parse`].
    pub fn body_text(&self) -> (r: Result<Option<String>, UrlencodedError>)
        requires
            self.body@.len() <= usize::MAX / 4,
        ensures
            self.charset@ == utf8_name() ==> r == Ok::<Option<String>, UrlencodedError>(None),
            self.charset@ != utf8_name() ==> match decoded_body(self.charset@, self.body@) {
                Some(t) => r matches Ok(Some(s)) && s@ == t,
                None => r == Err::<Option<String>, UrlencodedError>(UrlencodedError::Parse),
            },
    {
        if self.charset == owned("UTF-8") {
            return Ok(None);
        }
        match decode_body(self.charset.as_str(), self.body.as_slice()) {
            Some(text) => Ok(Some(text)),
            None => Err(UrlencodedError::Parse),
        }
    }
}

} // verus!
