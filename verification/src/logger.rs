//! A simple logger middleware helper: it renders the line that a logging
//! hook prints for a request, the method name right-aligned to six columns
//! and the URI between backticks.

use vstd::prelude::*;
use crate::Method;
use crate::text::{chars_to_string, str_to_chars};

verus! {

/// The upper-case name of a method.
pub open spec fn method_name(m: Method) -> Seq<char> {
    match m {
        Method::Get => "GET"@,
        Method::Post => "POST"@,
        Method::Put => "PUT"@,
        Method::Delete => "DELETE"@,
        Method::Head => "HEAD"@,
        Method::Options => "OPTIONS"@,
        Method::Patch => "PATCH"@,
        Method::Trace => "TRACE"@,
        Method::Connect => "CONNECT"@,
    }
}

/// A run of spaces.
pub open spec fn spaces(n: nat) -> Seq<char>
    decreases n,
{
    if n == 0 {
        Seq::empty()
    } else {
        seq![' '] + spaces((n - 1) as nat)
    }
}

/// The text right-aligned to six columns: shorter text gains leading
/// spaces, longer text is kept whole.
pub open spec fn pad_left_6(s: Seq<char>) -> Seq<char> {
    if s.len() >= 6 {
        s
    } else {
        spaces((6 - s.len()) as nat) + s
    }
}

/// The log line for a request: the padded method name in brackets, then
/// the URI between backticks.
pub open spec fn log_line(m: Method, uri: Seq<char>) -> Seq<char> {
    seq!['['] + pad_left_6(method_name(m)) + seq![']', ' ', '`'] + uri + seq!['`']
}

/// A run of spaces is all spaces, as long as asked.
proof fn lemma_spaces(n: nat)
    ensures
        spaces(n).len() == n,
        forall|i: int| 0 <= i < n ==> spaces(n)[i] == ' ',
    decreases n,
{
    if n > 0 {
        lemma_spaces((n - 1) as nat);
    }
}

/// The upper-case name of a method, executably.
pub fn method_str(m: &Method) -> (r: &'static str)
    ensures
        r@ == method_name(*m),
{
    match m {
        Method::Get => "GET",
        Method::Post => "POST",
        Method::Put => "PUT",
        Method::Delete => "DELETE",
        Method::Head => "HEAD",
        Method::Options => "OPTIONS",
        Method::Patch => "PATCH",
        Method::Trace => "TRACE",
        Method::Connect => "CONNECT",
    }
}

/// A simple logger middleware helper.
pub struct Logger {}

impl Logger {
    /// Constructs a new Logger.
    pub fn new() -> Logger {
        Logger {  }
    }

    /// Renders the log line for a request's method and URI.
    pub fn line(&self, method: &Method, uri: &str) -> (r: String)
        ensures
            r@ == log_line(*method, uri@),
    {
        let name = str_to_chars(method_str(method));
        let n = name.len();
        let mut v: Vec<char> = Vec::new();
        v.push('[');
        let pad: usize = if n >= 6 {
            0
        } else {
            6 - n
        };
        proof {
            lemma_spaces(pad as nat);
            assert(v@ =~= seq!['['] + spaces(0));
        }
        let mut k: usize = 0;
        while k < pad
            invariant
                k <= pad,
                v@ == seq!['['] + spaces(k as nat),
            decreases pad - k,
        {
            v.push(' ');
            k = k + 1;
            proof {
                lemma_spaces(k as nat);
                lemma_spaces((k - 1) as nat);
                assert(v@ =~= seq!['['] + spaces(k as nat));
            }
        }
        let mut i: usize = 0;
        while i < n
            invariant
                i <= n,
                n == name@.len(),
                v@ == seq!['['] + spaces(pad as nat) + name@.take(i as int),
            decreases n - i,
        {
            v.push(name[i]);
            i = i + 1;
            proof {
                assert(v@ =~= seq!['['] + spaces(pad as nat) + name@.take(i as int));
            }
        }
        proof {
            assert(name@.take(n as int) =~= name@);
            assert(spaces(pad as nat) + name@ =~= pad_left_6(method_name(*method))) by {
                lemma_spaces(pad as nat);
                if n >= 6 {
                    assert(spaces(0) + name@ =~= name@);
                }
            }
        }
        v.push(']');
        v.push(' ');
        v.push('`');
        let uri_chars = str_to_chars(uri);
        let un = uri_chars.len();
        let ghost head = seq!['['] + pad_left_6(method_name(*method)) + seq![']', ' ', '`'];
        proof {
            assert(v@ =~= head + uri_chars@.take(0));
        }
        let mut j: usize = 0;
        while j < un
            invariant
                j <= un,
                un == uri_chars@.len(),
                v@ == head + uri_chars@.take(j as int),
            decreases un - j,
        {
            v.push(uri_chars[j]);
            j = j + 1;
            proof {
                assert(v@ =~= head + uri_chars@.take(j as int));
            }
        }
        v.push('`');
        proof {
            assert(uri_chars@.take(un as int) =~= uri_chars@);
            assert(v@ =~= log_line(*method, uri@));
        }
        chars_to_string(&v)
    }
}

impl Default for Logger {
    /// A Logger, as `new` builds one.
    fn default() -> Logger {
        Logger {  }
    }
}

} // verus!
