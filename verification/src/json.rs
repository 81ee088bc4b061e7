//! The JSON response builder: it accumulates the response wrapper — status
//! code, error messages, optional result, status text — as plain values.
//! Serializing the wrapper to bytes is the boundary layer's work; the
//! builder hands its parts over for that.

use vstd::prelude::*;
use vstd::string::StringExecFns;

verus! {

/// The mathematical content of a response wrapper.
pub ghost struct WrapperModel<T> {
    /// The numeric status code reported inside the body.
    pub code: u16,
    /// Accumulated error messages, in order.
    pub messages: Seq<Seq<char>>,
    /// The wrapped result, when one was set.
    pub result: Option<T>,
    /// The status text reported inside the body.
    pub status: Seq<char>,
}

/// The envelope every JSON response is wrapped in.
pub struct Wrapper<T> {
    code: u16,
    messages: Vec<String>,
    result: Option<T>,
    status: String,
}

impl<T> View for Wrapper<T> {
    type V = WrapperModel<T>;

    closed spec fn view(&self) -> WrapperModel<T> {
        WrapperModel {
            code: self.code,
            messages: self.messages.deep_view(),
            result: self.result,
            status: self.status@,
        }
    }
}

impl<T> Wrapper<T> {
    /// Constructs the default wrapper: code 200, status "OK", no messages,
    /// no result.
    fn new() -> (r: Wrapper<T>)
        ensures
            r@ == (WrapperModel {
                code: 200u16,
                messages: Seq::<Seq<char>>::empty(),
                result: None::<T>,
                status: "OK"@,
            }),
    {
        let r = Wrapper {
            code: 200,
            messages: Vec::new(),
            result: None,
            status: String::from_str("OK"),
        };
        proof {
            assert(r.messages.deep_view() =~= Seq::<Seq<char>>::empty());
        }
        r
    }

    /// Adds an error message.
    fn add_message(&mut self, message: &str)
        ensures
            final(self)@ == (WrapperModel {
                code: old(self)@.code,
                messages: old(self)@.messages.push(message@),
                result: old(self)@.result,
                status: old(self)@.status,
            }),
    {
        self.messages.push(message.to_owned());
        proof {
            assert(self.messages.deep_view() =~= old(self)@.messages.push(message@));
        }
    }

    /// Sets the reported status code.
    fn set_code(&mut self, code: u16)
        ensures
            final(self)@ == (WrapperModel {
                code,
                messages: old(self)@.messages,
                result: old(self)@.result,
                status: old(self)@.status,
            }),
    {
        self.code = code;
    }

    /// Sets the reported status text.
    fn set_status(&mut self, status: &str)
        ensures
            final(self)@ == (WrapperModel {
                code: old(self)@.code,
                messages: old(self)@.messages,
                result: old(self)@.result,
                status: status@,
            }),
    {
        self.status = status.to_owned();
    }

    /// Sets the wrapped result.
    fn set_result(&mut self, result: T)
        ensures
            final(self)@ == (WrapperModel {
                code: old(self)@.code,
                messages: old(self)@.messages,
                result: Some(result),
                status: old(self)@.status,
            }),
    {
        self.result = Some(result);
    }
}

/// A builder for JSON responses.
pub struct JsonBuilder<T> {
    wrapper: Wrapper<T>,
}

impl<T> View for JsonBuilder<T> {
    type V = WrapperModel<T>;

    closed spec fn view(&self) -> WrapperModel<T> {
        self.wrapper@
    }
}

impl<T> JsonBuilder<T> {
    /// Constructs a builder around the default wrapper.
    pub fn new() -> (r: JsonBuilder<T>)
        ensures
            r@ == (WrapperModel {
                code: 200u16,
                messages: Seq::<Seq<char>>::empty(),
                result: None::<T>,
                status: "OK"@,
            }),
    {
        JsonBuilder { wrapper: Wrapper::new() }
    }

    /// Sets the body of the wrapper.
    pub fn body(&mut self, body: T)
        ensures
            final(self)@ == (WrapperModel {
                code: old(self)@.code,
                messages: old(self)@.messages,
                result: Some(body),
                status: old(self)@.status,
            }),
    {
        self.wrapper.set_result(body);
    }

    /// Sets the body of the wrapper, in builder style.
    pub fn with_body(self, body: T) -> (r: JsonBuilder<T>)
        ensures
            r@ == (WrapperModel {
                code: self@.code,
                messages: self@.messages,
                result: Some(body),
                status: self@.status,
            }),
    {
        let mut this = self;
        this.body(body);
        this
    }

    /// Adds an error message to the wrapper.
    pub fn error(&mut self, message: &str)
        ensures
            final(self)@ == (WrapperModel {
                code: old(self)@.code,
                messages: old(self)@.messages.push(message@),
                result: old(self)@.result,
                status: old(self)@.status,
            }),
    {
        self.wrapper.add_message(message);
    }

    /// Adds error messages to the wrapper, in order.
    pub fn errors(&mut self, messages: &Vec<String>)
        ensures
            final(self)@ == (WrapperModel {
                code: old(self)@.code,
                messages: old(self)@.messages + messages.deep_view(),
                result: old(self)@.result,
                status: old(self)@.status,
            }),
    {
        let n = messages.len();
        let mut i: usize = 0;
        proof {
            assert(old(self)@.messages + messages.deep_view().take(0) =~= old(self)@.messages);
        }
        while i < n
            invariant
                i <= n,
                n == messages@.len(),
                self@ == (WrapperModel {
                    code: old(self)@.code,
                    messages: old(self)@.messages + messages.deep_view().take(i as int),
                    result: old(self)@.result,
                    status: old(self)@.status,
                }),
            decreases n - i,
        {
            self.wrapper.add_message(messages[i].as_str());
            i = i + 1;
            proof {
                assert(messages.deep_view().take(i as int) =~= messages.deep_view().take(i - 1)
                    .push(messages@[i - 1]@));
                assert(old(self)@.messages + messages.deep_view().take(i as int) =~= (old(self)@
                    .messages + messages.deep_view().take(i - 1)).push(messages@[i - 1]@));
            }
        }
        proof {
            assert(messages.deep_view().take(n as int) =~= messages.deep_view());
        }
    }

    /// Sets the status code reported inside the JSON body.
    pub fn code(&mut self, status: u16)
        ensures
            final(self)@ == (WrapperModel {
                code: status,
                messages: old(self)@.messages,
                result: old(self)@.result,
                status: old(self)@.status,
            }),
    {
        self.wrapper.set_code(status);
    }

    /// Sets the status code, in builder style.
    pub fn with_code(self, status: u16) -> (r: JsonBuilder<T>)
        ensures
            r@ == (WrapperModel {
                code: status,
                messages: self@.messages,
                result: self@.result,
                status: self@.status,
            }),
    {
        let mut this = self;
        this.code(status);
        this
    }

    /// Sets the status text reported inside the JSON body.
    pub fn status(&mut self, status: &str)
        ensures
            final(self)@ == (WrapperModel {
                code: old(self)@.code,
                messages: old(self)@.messages,
                result: old(self)@.result,
                status: status@,
            }),
    {
        self.wrapper.set_status(status);
    }

    /// Sets the status text, in builder style.
    pub fn with_status(self, status: &str) -> (r: JsonBuilder<T>)
        ensures
            r@ == (WrapperModel {
                code: self@.code,
                messages: self@.messages,
                result: self@.result,
                status: status@,
            }),
    {
        let mut this = self;
        this.status(status);
        this
    }

    /// Hands the wrapper's parts to the boundary layer for serialization:
    /// code, messages, result, status text, in that order.
    pub fn into_parts(self) -> (r: (u16, Vec<String>, Option<T>, String))
        ensures
            r.0 == self@.code,
            r.1.deep_view() == self@.messages,
            r.2 == self@.result,
            r.3@ == self@.status,
    {
        let Wrapper { code, messages, result, status } = self.wrapper;
        (code, messages, result, status)
    }
}

impl<T> Default for JsonBuilder<T> {
    /// A builder around the default wrapper, as `new` builds one.
    fn default() -> (r: JsonBuilder<T>)
        ensures
            r@ == (WrapperModel {
                code: 200u16,
                messages: Seq::<Seq<char>>::empty(),
                result: None::<T>,
                status: "OK"@,
            }),
    {
        JsonBuilder::new()
    }
}

} // verus!
