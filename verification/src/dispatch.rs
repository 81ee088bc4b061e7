//! The per-request dispatcher. A request is received, every middleware's
//! "before" hook runs in registration order, the recognizer resolves the
//! method and path into a matched handler or a bare 404 response, and every
//! middleware's "after" hook runs in the same order before the response is
//! handed back. The dispatcher computes the decisions — hook order and
//! resolution — and the boundary layer performs the calls.

use vstd::prelude::*;
use crate::{Method, Version};
use crate::assoc::assoc_set;
use crate::capture::Capture;
use crate::config::{Config, ConfigModel};
use crate::matcher::re_groups;
use crate::request::Request;
use crate::response::{Response, ResponseModel};
use crate::router::{capture_entries, first_match, routes_in, RouteModel, Router};
use crate::state::State;

verus! {

/// All middleware must implement this trait. Hooks may inspect or rewrite
/// the request, but they cannot short-circuit dispatch.
pub trait Middle {
    /// Called before a request is resolved against the route table.
    fn before(&self, req: &mut Request);

    /// Called after resolution, with the request and the pending response.
    fn after(&self, req: &Request, res: &mut Response);
}

/// Where resolution landed: a handler with its captures, or the bare 404
/// response for an unmatched request.
pub enum Outcome {
    /// A route matched: its handler and the captures extracted for it.
    Matched {
        /// The matched route's handler.
        handler: u64,
        /// The capture set extracted from the matched pattern.
        captures: Capture,
    },
    /// No route matched: the ready 404 response.
    Unmatched(Response),
}

/// The mathematical content of a configured server.
pub ghost struct DireModel {
    /// The configuration.
    pub config: ConfigModel,
    /// The shared state registry's entries.
    pub state: Seq<(u64, u64)>,
    /// The middleware registry's entries: type key and hook handle, in
    /// registration order.
    pub middles: Seq<(u64, u64)>,
    /// The route table.
    pub routes: Seq<(Method, Seq<RouteModel>)>,
}

/// The server: configuration, shared state, middleware, and routes, all
/// fixed before serving starts.
pub struct Direkuta {
    config: Config,
    state: State,
    middles: State,
    routes: Router,
}

impl View for Direkuta {
    type V = DireModel;

    closed spec fn view(&self) -> DireModel {
        DireModel {
            config: self.config@,
            state: self.state@,
            middles: self.middles@,
            routes: self.routes@,
        }
    }
}

impl Direkuta {
    /// Constructs a server with the default configuration and nothing
    /// registered.
    pub fn new() -> (r: Direkuta)
        ensures
            r@.config.template_path == "templates"@,
            r@.config.static_path == "static"@,
            r@.state == Seq::<(u64, u64)>::empty(),
            r@.middles == Seq::<(u64, u64)>::empty(),
            r@.routes == Seq::<(Method, Seq<RouteModel>)>::empty(),
    {
        Direkuta {
            config: Config::new(),
            state: State::new(),
            middles: State::new(),
            routes: Router::new(),
        }
    }

    /// Replaces the configuration.
    pub fn config(self, config: Config) -> (r: Direkuta)
        ensures
            r@ == (DireModel {
                config: config@,
                state: self@.state,
                middles: self@.middles,
                routes: self@.routes,
            }),
    {
        let mut this = self;
        this.config = config;
        this
    }

    /// Stores a shared state value under its type key; a second value under
    /// the same key replaces the first.
    pub fn state(self, key: u64, value: u64) -> (r: Direkuta)
        ensures
            r@ == (DireModel {
                config: self@.config,
                state: assoc_set(self@.state, key, value),
                middles: self@.middles,
                routes: self@.routes,
            }),
    {
        let mut this = self;
        this.state.set(key, value);
        this
    }

    /// Registers a middleware hook under its type key; a second hook under
    /// the same key replaces the first, keeping its position.
    pub fn middle(self, key: u64, hook: u64) -> (r: Direkuta)
        ensures
            r@ == (DireModel {
                config: self@.config,
                state: self@.state,
                middles: assoc_set(self@.middles, key, hook),
                routes: self@.routes,
            }),
    {
        let mut this = self;
        this.middles.set(key, hook);
        this
    }

    /// Replaces the route table with a built router.
    pub fn route(self, routes: Router) -> (r: Direkuta)
        ensures
            r@ == (DireModel {
                config: self@.config,
                state: self@.state,
                middles: self@.middles,
                routes: routes@,
            }),
    {
        let mut this = self;
        this.routes = routes;
        this
    }

    /// The configuration.
    pub fn config_ref(&self) -> (r: &Config)
        ensures
            r@ == self@.config,
    {
        &self.config
    }

    /// The shared state registry.
    pub fn state_ref(&self) -> (r: &State)
        ensures
            r@ == self@.state,
    {
        &self.state
    }

    /// The middleware hook handles, in registration order.
    fn hook_order(&self) -> (r: Vec<u64>)
        ensures
            r@ == self@.middles.map_values(|p: (u64, u64)| p.1),
    {
        let ghost hooks = self@.middles.map_values(|p: (u64, u64)| p.1);
        let n = self.middles.len();
        let mut r: Vec<u64> = Vec::new();
        let mut i: usize = 0;
        proof {
            assert(r@ =~= hooks.take(0));
        }
        while i < n
            invariant
                i <= n,
                n == self@.middles.len(),
                hooks == self@.middles.map_values(|p: (u64, u64)| p.1),
                r@ == hooks.take(i as int),
            decreases n - i,
        {
            let entry = self.middles.entry(i);
            r.push(entry.1);
            i = i + 1;
            proof {
                assert(r@ =~= hooks.take(i as int));
            }
        }
        proof {
            assert(hooks.take(n as int) =~= hooks);
        }
        r
    }

    /// The hooks to run before resolution: every registered middleware, in
    /// registration order.
    pub fn before_hooks(&self) -> (r: Vec<u64>)
        ensures
            r@ == self@.middles.map_values(|p: (u64, u64)| p.1),
    {
        self.hook_order()
    }

    /// The hooks to run after resolution: the same middleware, in the same
    /// registration order.
    pub fn after_hooks(&self) -> (r: Vec<u64>)
        ensures
            r@ == self@.middles.map_values(|p: (u64, u64)| p.1),
    {
        self.hook_order()
    }

    /// Resolves a request: the first matching route of the method, with its
    /// captures, or the bare 404 response — status 404, no headers, empty
    /// body — when the method has no routes or none matches.
    pub fn dispatch(&self, method: &Method, path: &str) -> (r: Outcome)
        ensures
            ({
                let rs = routes_in(self@.routes, *method);
                match first_match(rs, path@) {
                    Option::None => (r matches Outcome::Unmatched(resp) && resp@
                        == (ResponseModel {
                        status: 404u16,
                        headers: Seq::empty(),
                        body: Seq::empty(),
                        version: Version::Http11,
                    })),
                    Option::Some(i) => (r matches Outcome::Matched { handler, captures } && handler
                        == rs[i].handler && captures@ == capture_entries(
                        rs[i].ids,
                        re_groups(rs[i].pattern, path@),
                    )),
                }
            }),
    {
        match self.routes.recognize(method, path) {
            Ok((handler, captures)) => Outcome::Matched { handler, captures },
            Err(status) => Outcome::Unmatched(Response::new().with_status(status)),
        }
    }
}

impl Default for Direkuta {
    /// A server with the default configuration and nothing registered, as
    /// `new` builds one.
    fn default() -> (r: Direkuta)
        ensures
            r@.config.template_path == "templates"@,
            r@.config.static_path == "static"@,
            r@.state == Seq::<(u64, u64)>::empty(),
            r@.middles == Seq::<(u64, u64)>::empty(),
            r@.routes == Seq::<(Method, Seq<RouteModel>)>::empty(),
    {
        Direkuta::new()
    }
}

} // verus!
