//! The incoming request as the core sees it: method, URI, path, headers and
//! body, already parsed by the boundary layer into plain values.

use vstd::prelude::*;
use crate::{Method, Version};
use crate::headers::Headers;

verus! {

/// The mathematical content of a request.
pub ghost struct RequestModel {
    /// HTTP method.
    pub method: Method,
    /// The full request URI.
    pub uri: Seq<char>,
    /// The path component of the URI.
    pub path: Seq<char>,
    /// Request headers.
    pub headers: Seq<(Seq<char>, Seq<char>)>,
    /// Request body.
    pub body: Seq<char>,
    /// HTTP version.
    pub version: Version,
}

/// One incoming HTTP request.
pub struct Request {
    method: Method,
    uri: String,
    path: String,
    headers: Headers,
    body: String,
    version: Version,
}

impl View for Request {
    type V = RequestModel;

    closed spec fn view(&self) -> RequestModel {
        RequestModel {
            method: self.method,
            uri: self.uri@,
            path: self.path@,
            headers: self.headers@,
            body: self.body@,
            version: self.version,
        }
    }
}

impl Request {
    /// Constructs a request from the values the boundary layer parsed.
    pub fn new(
        method: Method,
        uri: String,
        path: String,
        headers: Headers,
        body: String,
        version: Version,
    ) -> (r: Request)
        ensures
            r@ == (RequestModel {
                method,
                uri: uri@,
                path: path@,
                headers: headers@,
                body: body@,
                version,
            }),
    {
        Request { method, uri, path, headers, body, version }
    }

    /// The request's HTTP version.
    pub fn version(&self) -> (v: Version)
        ensures
            v == self@.version,
    {
        self.version
    }

    /// The request's headers.
    pub fn headers(&self) -> (h: &Headers)
        ensures
            h@ == self@.headers,
    {
        &self.headers
    }

    /// The request's method.
    pub fn method(&self) -> (m: Method)
        ensures
            m == self@.method,
    {
        self.method
    }

    /// The request's URI.
    pub fn uri(&self) -> (u: &String)
        ensures
            u@ == self@.uri,
    {
        &self.uri
    }

    /// The path component of the request's URI.
    pub fn path(&self) -> (p: &String)
        ensures
            p@ == self@.path,
    {
        &self.path
    }

    /// The request's body.
    pub fn body(&self) -> (b: &String)
        ensures
            b@ == self@.body,
    {
        &self.body
    }

    /// The request's body, consuming the request.
    pub fn into_body(self) -> (b: String)
        ensures
            b@ == self@.body,
    {
        self.body
    }

    /// Rewrites the request's method; middleware may do this before route
    /// resolution.
    pub fn set_method(&mut self, method: Method)
        ensures
            final(self)@ == (RequestModel {
                method,
                uri: old(self)@.uri,
                path: old(self)@.path,
                headers: old(self)@.headers,
                body: old(self)@.body,
                version: old(self)@.version,
            }),
    {
        self.method = method;
    }

    /// Rewrites the path component; middleware may do this before route
    /// resolution.
    pub fn set_path(&mut self, path: String)
        ensures
            final(self)@ == (RequestModel {
                method: old(self)@.method,
                uri: old(self)@.uri,
                path: path@,
                headers: old(self)@.headers,
                body: old(self)@.body,
                version: old(self)@.version,
            }),
    {
        self.path = path;
    }

    /// Mutable access to the request's headers.
    pub fn headers_mut(&mut self) -> (h: &mut Headers)
        ensures
            h@ == old(self)@.headers,
            final(self)@ == (RequestModel {
                method: old(self)@.method,
                uri: old(self)@.uri,
                path: old(self)@.path,
                headers: final(h)@,
                body: old(self)@.body,
                version: old(self)@.version,
            }),
    {
        &mut self.headers
    }
}

} // verus!
