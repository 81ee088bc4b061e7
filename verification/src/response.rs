//! The response value handed back to the boundary layer: a status code,
//! ordered headers, and a body, together with the small builders for CSS
//! and JS bodies. Setting a body records its byte length in the
//! `content-length` header.

use vstd::prelude::*;
use vstd::string::{StringExecFns, StringSliceAdditionalSpecFns};
use vstd::utf8::encode_utf8;
use crate::Version;
use crate::assoc::{assoc_set, assoc_set_all};
use crate::headers::Headers;
use crate::text::{chars_to_string, dec_chars, dec_str};

verus! {

/// The mathematical content of a response.
pub ghost struct ResponseModel {
    /// HTTP status code.
    pub status: u16,
    /// Ordered headers.
    pub headers: Seq<(Seq<char>, Seq<char>)>,
    /// Response body.
    pub body: Seq<char>,
    /// HTTP version.
    pub version: Version,
}

/// The decimal text of a body's byte length, as recorded in the
/// `content-length` header.
pub open spec fn content_length_text(body: Seq<char>) -> Seq<char> {
    dec_str((encode_utf8(body).len() as usize) as nat)
}

/// An HTTP response under construction.
pub struct Response {
    status: u16,
    headers: Headers,
    body: String,
    version: Version,
}

impl View for Response {
    type V = ResponseModel;

    closed spec fn view(&self) -> ResponseModel {
        ResponseModel {
            status: self.status,
            headers: self.headers@,
            body: self.body@,
            version: self.version,
        }
    }
}

impl Response {
    /// Constructs a response: status 200, no headers, empty body.
    pub fn new() -> (r: Response)
        ensures
            r@ == (ResponseModel {
                status: 200,
                headers: Seq::empty(),
                body: Seq::empty(),
                version: Version::Http11,
            }),
    {
        Response { status: 200, headers: Headers::new(), body: String::new(), version: Version::Http11 }
    }

    /// The response's HTTP version.
    pub fn version(&self) -> (v: Version)
        ensures
            v == self@.version,
    {
        self.version
    }

    /// The response's headers.
    pub fn headers(&self) -> (h: &Headers)
        ensures
            h@ == self@.headers,
    {
        &self.headers
    }

    /// Mutable access to the response's headers.
    pub fn headers_mut(&mut self) -> (h: &mut Headers)
        ensures
            h@ == old(self)@.headers,
            final(self)@ == (ResponseModel {
                status: old(self)@.status,
                headers: final(h)@,
                body: old(self)@.body,
                version: old(self)@.version,
            }),
    {
        &mut self.headers
    }

    /// Merges the given headers into the response's, in their order.
    pub fn set_headers(&mut self, headers: &Headers)
        ensures
            final(self)@ == (ResponseModel {
                status: old(self)@.status,
                headers: assoc_set_all(old(self)@.headers, headers@),
                body: old(self)@.body,
                version: old(self)@.version,
            }),
    {
        self.headers.extend(headers);
    }

    /// Merges the given headers, in builder style.
    pub fn with_headers(self, headers: &Headers) -> (r: Response)
        ensures
            r@ == (ResponseModel {
                status: self@.status,
                headers: assoc_set_all(self@.headers, headers@),
                body: self@.body,
                version: self@.version,
            }),
    {
        let mut this = self;
        this.set_headers(headers);
        this
    }

    /// The response's status code.
    pub fn status(&self) -> (s: u16)
        ensures
            s == self@.status,
    {
        self.status
    }

    /// Mutable access to the response's status code.
    pub fn status_mut(&mut self) -> (s: &mut u16)
        ensures
            *s == old(self)@.status,
            final(self)@ == (ResponseModel {
                status: *final(s),
                headers: old(self)@.headers,
                body: old(self)@.body,
                version: old(self)@.version,
            }),
    {
        &mut self.status
    }

    /// Sets the status code; the code must be a three-digit value the HTTP
    /// status space allows.
    pub fn set_status(&mut self, status: u16)
        requires
            100 <= status <= 999,
        ensures
            final(self)@ == (ResponseModel {
                status: status,
                headers: old(self)@.headers,
                body: old(self)@.body,
                version: old(self)@.version,
            }),
    {
        self.status = status;
    }

    /// Sets the status code, in builder style.
    pub fn with_status(self, status: u16) -> (r: Response)
        requires
            100 <= status <= 999,
        ensures
            r@ == (ResponseModel {
                status: status,
                headers: self@.headers,
                body: self@.body,
                version: self@.version,
            }),
    {
        let mut this = self;
        this.set_status(status);
        this
    }

    /// The response's body, consuming the response.
    pub fn body(self) -> (b: String)
        ensures
            b@ == self@.body,
    {
        self.body
    }

    /// Mutable access to the response's body.
    pub fn body_mut(&mut self) -> (b: &mut String)
        ensures
            b@ == old(self)@.body,
            final(self)@ == (ResponseModel {
                status: old(self)@.status,
                headers: old(self)@.headers,
                body: final(b)@,
                version: old(self)@.version,
            }),
    {
        &mut self.body
    }

    /// Sets the body and records its byte length in the `content-length`
    /// header.
    pub fn set_body(&mut self, body: &str)
        ensures
            final(self)@ == (ResponseModel {
                status: old(self)@.status,
                headers: assoc_set(
                    old(self)@.headers,
                    "content-length"@,
                    content_length_text(body@),
                ),
                body: body@,
                version: old(self)@.version,
            }),
    {
        let len = body.len();
        proof {
            assert(body.spec_bytes() == encode_utf8(body@));
            assert(len == encode_utf8(body@).len() as usize);
        }
        let len_chars = dec_chars(len as u64);
        let len_text = chars_to_string(&len_chars);
        self.headers.insert("content-length", len_text.as_str());
        self.body = body.to_owned();
    }

    /// Sets the body, in builder style.
    pub fn with_body(self, body: &str) -> (r: Response)
        ensures
            r@ == (ResponseModel {
                status: self@.status,
                headers: assoc_set(self@.headers, "content-length"@, content_length_text(body@)),
                body: body@,
                version: self@.version,
            }),
    {
        let mut this = self;
        this.set_body(body);
        this
    }

    /// Turns the response into a redirect: status 301 with the location
    /// header set to the target.
    pub fn redirect(&mut self, url: &str)
        ensures
            final(self)@ == (ResponseModel {
                status: 301,
                headers: assoc_set(old(self)@.headers, "location"@, url@),
                body: old(self)@.body,
                version: old(self)@.version,
            }),
    {
        self.set_status(301);
        self.headers.insert("location", url);
    }

    /// Turns the response into a redirect, in builder style.
    pub fn with_redirect(self, url: &str) -> (r: Response)
        ensures
            r@ == (ResponseModel {
                status: 301,
                headers: assoc_set(self@.headers, "location"@, url@),
                body: self@.body,
                version: self@.version,
            }),
    {
        let mut this = self;
        this.redirect(url);
        this
    }

    /// Sets an HTML body: the content type and then the body itself.
    pub fn html(&mut self, body: &str)
        ensures
            final(self)@ == (ResponseModel {
                status: old(self)@.status,
                headers: assoc_set(
                    assoc_set(old(self)@.headers, "content-type"@, "text/html"@),
                    "content-length"@,
                    content_length_text(body@),
                ),
                body: body@,
                version: old(self)@.version,
            }),
    {
        self.headers.insert("content-type", "text/html");
        self.set_body(body);
    }

    /// Sets a CSS body from a builder: the content type and then the
    /// builder's accumulated text.
    pub fn css(&mut self, builder: &CssBuilder)
        ensures
            final(self)@ == (ResponseModel {
                status: old(self)@.status,
                headers: assoc_set(
                    assoc_set(old(self)@.headers, "content-type"@, "text/css"@),
                    "content-length"@,
                    content_length_text(builder@),
                ),
                body: builder@,
                version: old(self)@.version,
            }),
    {
        self.headers.insert("content-type", "text/css");
        let text = builder.get_body().to_owned();
        self.set_body(text.as_str());
    }

    /// Sets a CSS body, in builder style.
    pub fn with_css(self, builder: &CssBuilder) -> (r: Response)
        ensures
            r@ == (ResponseModel {
                status: self@.status,
                headers: assoc_set(
                    assoc_set(self@.headers, "content-type"@, "text/css"@),
                    "content-length"@,
                    content_length_text(builder@),
                ),
                body: builder@,
                version: self@.version,
            }),
    {
        let mut this = self;
        this.css(builder);
        this
    }

    /// Sets a JS body from a builder: the content type and then the
    /// builder's accumulated text.
    pub fn js(&mut self, builder: &JsBuilder)
        ensures
            final(self)@ == (ResponseModel {
                status: old(self)@.status,
                headers: assoc_set(
                    assoc_set(old(self)@.headers, "content-type"@, "application/javascript"@),
                    "content-length"@,
                    content_length_text(builder@),
                ),
                body: builder@,
                version: old(self)@.version,
            }),
    {
        self.headers.insert("content-type", "application/javascript");
        let text = builder.get_body().to_owned();
        self.set_body(text.as_str());
    }

    /// Sets a JS body, in builder style.
    pub fn with_js(self, builder: &JsBuilder) -> (r: Response)
        ensures
            r@ == (ResponseModel {
                status: self@.status,
                headers: assoc_set(
                    assoc_set(self@.headers, "content-type"@, "application/javascript"@),
                    "content-length"@,
                    content_length_text(builder@),
                ),
                body: builder@,
                version: self@.version,
            }),
    {
        let mut this = self;
        this.js(builder);
        this
    }

    /// Sets an already-serialized JSON body: the content type and then the
    /// body itself.
    pub fn json(&mut self, body: &str)
        ensures
            final(self)@ == (ResponseModel {
                status: old(self)@.status,
                headers: assoc_set(
                    assoc_set(old(self)@.headers, "content-type"@, "application/json"@),
                    "content-length"@,
                    content_length_text(body@),
                ),
                body: body@,
                version: old(self)@.version,
            }),
    {
        self.headers.insert("content-type", "application/json");
        self.set_body(body);
    }

    /// Sets an already-serialized JSON body, in builder style.
    pub fn with_json(self, body: &str) -> (r: Response)
        ensures
            r@ == (ResponseModel {
                status: self@.status,
                headers: assoc_set(
                    assoc_set(self@.headers, "content-type"@, "application/json"@),
                    "content-length"@,
                    content_length_text(body@),
                ),
                body: body@,
                version: self@.version,
            }),
    {
        let mut this = self;
        this.json(body);
        this
    }
}

/// A builder for CSS response bodies.
pub struct CssBuilder {
    inner: String,
}

impl View for CssBuilder {
    type V = Seq<char>;

    closed spec fn view(&self) -> Seq<char> {
        self.inner@
    }
}

impl CssBuilder {
    /// Constructs an empty builder.
    pub fn new() -> (r: CssBuilder)
        ensures
            r@ == Seq::<char>::empty(),
    {
        CssBuilder { inner: String::new() }
    }

    /// The accumulated text.
    pub fn get_body(&self) -> (r: &str)
        ensures
            r@ == self@,
    {
        self.inner.as_str()
    }

    /// Appends text, as reading a file into the builder does.
    pub fn append(&mut self, contents: &str)
        ensures
            final(self)@ == old(self)@ + contents@,
    {
        self.inner.append(contents);
    }
}

/// A builder for JS response bodies.
pub struct JsBuilder {
    inner: String,
}

impl View for JsBuilder {
    type V = Seq<char>;

    closed spec fn view(&self) -> Seq<char> {
        self.inner@
    }
}

impl JsBuilder {
    /// Constructs an empty builder.
    pub fn new() -> (r: JsBuilder)
        ensures
            r@ == Seq::<char>::empty(),
    {
        JsBuilder { inner: String::new() }
    }

    /// The accumulated text.
    pub fn get_body(&self) -> (r: &str)
        ensures
            r@ == self@,
    {
        self.inner.as_str()
    }

    /// Appends text, as reading a file into the builder does.
    pub fn append(&mut self, contents: &str)
        ensures
            final(self)@ == old(self)@ + contents@,
    {
        self.inner.append(contents);
    }
}


impl Default for Response {
    /// A fresh response, as `new` builds one.
    fn default() -> (r: Response)
        ensures
            r@ == (ResponseModel {
                status: 200,
                headers: Seq::empty(),
                body: Seq::empty(),
                version: Version::Http11,
            }),
    {
        Response::new()
    }
}

impl Default for CssBuilder {
    /// An empty builder, as `new` builds one.
    fn default() -> (r: CssBuilder)
        ensures
            r@ == Seq::<char>::empty(),
    {
        CssBuilder::new()
    }
}

impl Default for JsBuilder {
    /// An empty builder, as `new` builds one.
    fn default() -> (r: JsBuilder)
        ensures
            r@ == Seq::<char>::empty(),
    {
        JsBuilder::new()
    }
}

} // verus!
