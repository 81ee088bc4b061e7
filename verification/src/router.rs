//! The route table and recognizer. Routes are kept per method, in
//! registration order; recognition scans them in that order and the first
//! pattern that matches wins, its capture groups paired with the parameter
//! names recorded at compile time.

use vstd::prelude::*;
use crate::Method;
use crate::assoc::assoc_set;
use crate::capture::Capture;
use crate::error::PatternError;
use crate::matcher::{re_compiles, re_groups, re_is_match, compile_error_text, CompiledRegex};
use crate::normal::{normalize, normalized};
use crate::scan::{read, scan_ids, scan_pattern, scan_settled, lemma_scan_concat_settled};
use crate::text::chars_to_string;

verus! {

/// The mathematical content of one route: its parameter names, the
/// declaration it came from, the normalized pattern text, and the handler
/// it binds.
pub ghost struct RouteModel {
    /// Ordered parameter names.
    pub ids: Seq<Seq<char>>,
    /// The declaration string as registered.
    pub template: Seq<char>,
    /// The anchored pattern text the route was compiled to.
    pub pattern: Seq<char>,
    /// The handler bound to the route.
    pub handler: u64,
}

/// The route that compiling a declaration for a handler yields.
pub open spec fn route_model(decl: Seq<char>, handler: u64) -> RouteModel {
    RouteModel {
        ids: scan_ids(decl),
        template: decl,
        pattern: normalized(scan_pattern(decl)),
        handler,
    }
}

/// One compiled route.
pub struct Route {
    ids: Vec<String>,
    path: String,
    pattern: CompiledRegex,
    handler: u64,
}

impl View for Route {
    type V = RouteModel;

    closed spec fn view(&self) -> RouteModel {
        RouteModel {
            ids: self.ids.deep_view(),
            template: self.path@,
            pattern: self.pattern.pattern_spec(),
            handler: self.handler,
        }
    }
}

impl DeepView for Route {
    type V = RouteModel;

    open spec fn deep_view(&self) -> RouteModel {
        self.view()
    }
}

/// The routes of the first table entry carrying the method; none when the
/// method has no entry.
pub open spec fn routes_in(table: Seq<(Method, Seq<RouteModel>)>, m: Method) -> Seq<RouteModel>
    decreases table.len(),
{
    if table.len() == 0 {
        Seq::empty()
    } else if table[0].0 == m {
        table[0].1
    } else {
        routes_in(table.drop_first(), m)
    }
}

/// The position of the first route whose pattern matches the path.
pub open spec fn first_match(rs: Seq<RouteModel>, path: Seq<char>) -> Option<int>
    decreases rs.len(),
{
    if rs.len() == 0 {
        None
    } else if re_is_match(rs[0].pattern, path) {
        Some(0int)
    } else {
        match first_match(rs.drop_first(), path) {
            None => None,
            Some(i) => Some(i + 1),
        }
    }
}

/// The capture set built from parameter names and capture groups: pairs are
/// taken index-wise while both lists last, groups that did not participate
/// are skipped, and a repeated name keeps its first position with the later
/// value.
pub open spec fn capture_fold(
    acc: Seq<(Seq<char>, Seq<char>)>,
    ids: Seq<Seq<char>>,
    groups: Seq<Option<Seq<char>>>,
    i: int,
) -> Seq<(Seq<char>, Seq<char>)>
    decreases ids.len() + groups.len() - i,
{
    if 0 <= i && i < ids.len() && i < groups.len() {
        let acc2 = match groups[i] {
            Some(v) => assoc_set(acc, ids[i], v),
            None => acc,
        };
        capture_fold(acc2, ids, groups, i + 1)
    } else {
        acc
    }
}

/// The capture set of a matched route.
pub open spec fn capture_entries(ids: Seq<Seq<char>>, groups: Seq<Option<Seq<char>>>) -> Seq<
    (Seq<char>, Seq<char>),
> {
    capture_fold(Seq::empty(), ids, groups, 0)
}

/// The models that registering a table's routes under a path prefix yields.
pub open spec fn prefixed_models(prefix: Seq<char>, rs: Seq<RouteModel>) -> Seq<RouteModel> {
    rs.map_values(|r: RouteModel| route_model(prefix + r.template, r.handler))
}

/// Whether every declaration of a table still compiles when the prefix is
/// put in front of it.
pub open spec fn prefix_compiles(prefix: Seq<char>, table: Seq<(Method, Seq<RouteModel>)>) -> bool {
    forall|e: int, k: int|
        0 <= e < table.len() && 0 <= k < table[e].1.len() ==> re_compiles(
            normalized(scan_pattern(prefix + table[e].1[k].template)),
        )
}

/// The per-method route table.
pub struct Router {
    inner: Vec<(Method, Vec<Route>)>,
}

impl View for Router {
    type V = Seq<(Method, Seq<RouteModel>)>;

    closed spec fn view(&self) -> Seq<(Method, Seq<RouteModel>)> {
        Seq::new(self.inner@.len(), |i: int| (self.inner@[i].0, self.inner@[i].1.deep_view()))
    }
}

impl Router {
    /// Each method has at most one table entry.
    pub open spec fn wf(&self) -> bool {
        forall|i: int, j: int| 0 <= i < j < self@.len() ==> self@[i].0 != self@[j].0
    }

    /// The routes registered under a method, in registration order.
    pub open spec fn routes_of(&self, m: Method) -> Seq<RouteModel> {
        routes_in(self@, m)
    }

    /// Constructs an empty router.
    pub fn new() -> (r: Router)
        ensures
            r@ == Seq::<(Method, Seq<RouteModel>)>::empty(),
            r.wf(),
    {
        let r = Router { inner: Vec::new() };
        proof {
            assert(r@ =~= Seq::<(Method, Seq<RouteModel>)>::empty());
        }
        r
    }

    /// Appends a compiled route to the method's entry, creating the entry
    /// when the method has none yet.
    fn push_route(&mut self, method: Method, route: Route)
        ensures
            final(self).routes_of(method) == old(self).routes_of(method).push(route@),
            forall|m2: Method|
                m2 != method ==> final(self).routes_of(m2) == old(self).routes_of(m2),
            old(self).wf() ==> final(self).wf(),
    {
        let n = self.inner.len();
        let mut i: usize = 0;
        while i < n
            invariant
                i <= n,
                n == self.inner@.len(),
                *self == *old(self),
                forall|j: int| 0 <= j < i ==> self@[j].0 != method,
            decreases n - i,
        {
            if self.inner[i].0 == method {
                let ghost pre = self@;
                let mut entry = self.inner.remove(i);
                let ghost entry_routes = entry.1.deep_view();
                entry.1.push(route);
                proof {
                    assert(entry.1.deep_view() =~= entry_routes.push(route@));
                }
                self.inner.insert(i, entry);
                proof {
                    assert(self@ =~= pre.update(
                        i as int,
                        (method, entry_routes.push(route@)),
                    ));
                    assert(pre[i as int].1 == entry_routes);
                    assert(pre[i as int].0 == method);
                    lemma_routes_in_first(pre, i as int);
                    assert(old(self).routes_of(method) == entry_routes);
                    lemma_routes_in_update(pre, i as int, entry_routes.push(route@), method);
                    if old(self).wf() {
                        assert(final(self).wf()) by {
                            assert(forall|a: int|
                                0 <= a < pre.len() ==> #[trigger] self@[a].0 == pre[a].0);
                        }
                    }
                }
                return ;
            }
            i = i + 1;
        }
        let mut v: Vec<Route> = Vec::new();
        v.push(route);
        let ghost pre = self@;
        self.inner.push((method, v));
        proof {
            assert(v.deep_view() =~= seq![route@]);
            assert(self@ =~= pre.push((method, seq![route@])));
            lemma_routes_in_absent_all(pre, method);
            lemma_routes_in_append(pre, method, seq![route@]);
            assert(old(self).routes_of(method).push(route@) =~= seq![route@]);
            if old(self).wf() {
                assert(final(self).wf()) by {
                    assert(forall|a: int| 0 <= a < pre.len() ==> #[trigger] self@[a].0 == pre[a].0);
                    assert(self@[pre.len() as int].0 == method);
                }
            }
        }
    }

    /// Registers a handler for a method and a route declaration. The
    /// declaration is scanned for `<name:regex>` placeholders, normalized,
    /// and compiled; a declaration whose pattern the regex crate refuses is
    /// rejected, and the table is then unchanged.
    pub fn route(&mut self, method: Method, path: &str, handler: u64) -> (r: Result<
        (),
        PatternError,
    >)
        ensures
            r is Ok <==> re_compiles(normalized(scan_pattern(path@))),
            r is Ok ==> final(self).routes_of(method) == old(self).routes_of(method).push(
                route_model(path@, handler),
            ) && (forall|m2: Method|
                m2 != method ==> final(self).routes_of(m2) == old(self).routes_of(m2)),
            r matches Err(e) ==> *final(self) == *old(self) && e.pattern@ == normalized(
                scan_pattern(path@),
            ),
            old(self).wf() ==> final(self).wf(),
    {
        let (ids, raw) = read(path);
        let norm = normalize(&raw);
        let pattern_text = chars_to_string(&norm);
        match CompiledRegex::new(pattern_text.clone()) {
            Ok(compiled) => {
                let route = Route { ids, path: path.to_owned(), pattern: compiled, handler };
                proof {
                    assert(route@ == route_model(path@, handler));
                }
                self.push_route(method, route);
                Ok(())
            },
            Err(e) => {
                let message = compile_error_text(&e);
                Err(PatternError { pattern: pattern_text, message })
            },
        }
    }

    /// Registers a handler for GET requests on the declaration.
    pub fn get(&mut self, path: &str, handler: u64) -> (r: Result<(), PatternError>)
        ensures
            r is Ok <==> re_compiles(normalized(scan_pattern(path@))),
            r is Ok ==> final(self).routes_of(Method::Get) == old(self).routes_of(
                Method::Get,
            ).push(route_model(path@, handler)) && (forall|m2: Method|
                m2 != Method::Get ==> final(self).routes_of(m2) == old(self).routes_of(m2)),
            r matches Err(e) ==> *final(self) == *old(self) && e.pattern@ == normalized(
                scan_pattern(path@),
            ),
            old(self).wf() ==> final(self).wf(),
    {
        self.route(Method::Get, path, handler)
    }

    /// Registers a handler for POST requests on the declaration.
    pub fn post(&mut self, path: &str, handler: u64) -> (r: Result<(), PatternError>)
        ensures
            r is Ok <==> re_compiles(normalized(scan_pattern(path@))),
            r is Ok ==> final(self).routes_of(Method::Post) == old(self).routes_of(
                Method::Post,
            ).push(route_model(path@, handler)) && (forall|m2: Method|
                m2 != Method::Post ==> final(self).routes_of(m2) == old(self).routes_of(m2)),
            r matches Err(e) ==> *final(self) == *old(self) && e.pattern@ == normalized(
                scan_pattern(path@),
            ),
            old(self).wf() ==> final(self).wf(),
    {
        self.route(Method::Post, path, handler)
    }

    /// Registers a handler for PUT requests on the declaration.
    pub fn put(&mut self, path: &str, handler: u64) -> (r: Result<(), PatternError>)
        ensures
            r is Ok <==> re_compiles(normalized(scan_pattern(path@))),
            r is Ok ==> final(self).routes_of(Method::Put) == old(self).routes_of(
                Method::Put,
            ).push(route_model(path@, handler)) && (forall|m2: Method|
                m2 != Method::Put ==> final(self).routes_of(m2) == old(self).routes_of(m2)),
            r matches Err(e) ==> *final(self) == *old(self) && e.pattern@ == normalized(
                scan_pattern(path@),
            ),
            old(self).wf() ==> final(self).wf(),
    {
        self.route(Method::Put, path, handler)
    }

    /// Registers a handler for DELETE requests on the declaration.
    pub fn delete(&mut self, path: &str, handler: u64) -> (r: Result<(), PatternError>)
        ensures
            r is Ok <==> re_compiles(normalized(scan_pattern(path@))),
            r is Ok ==> final(self).routes_of(Method::Delete) == old(self).routes_of(
                Method::Delete,
            ).push(route_model(path@, handler)) && (forall|m2: Method|
                m2 != Method::Delete ==> final(self).routes_of(m2) == old(self).routes_of(m2)),
            r matches Err(e) ==> *final(self) == *old(self) && e.pattern@ == normalized(
                scan_pattern(path@),
            ),
            old(self).wf() ==> final(self).wf(),
    {
        self.route(Method::Delete, path, handler)
    }

    /// Registers a handler for HEAD requests on the declaration.
    pub fn head(&mut self, path: &str, handler: u64) -> (r: Result<(), PatternError>)
        ensures
            r is Ok <==> re_compiles(normalized(scan_pattern(path@))),
            r is Ok ==> final(self).routes_of(Method::Head) == old(self).routes_of(
                Method::Head,
            ).push(route_model(path@, handler)) && (forall|m2: Method|
                m2 != Method::Head ==> final(self).routes_of(m2) == old(self).routes_of(m2)),
            r matches Err(e) ==> *final(self) == *old(self) && e.pattern@ == normalized(
                scan_pattern(path@),
            ),
            old(self).wf() ==> final(self).wf(),
    {
        self.route(Method::Head, path, handler)
    }

    /// Registers a handler for OPTIONS requests on the declaration.
    pub fn options(&mut self, path: &str, handler: u64) -> (r: Result<(), PatternError>)
        ensures
            r is Ok <==> re_compiles(normalized(scan_pattern(path@))),
            r is Ok ==> final(self).routes_of(Method::Options) == old(self).routes_of(
                Method::Options,
            ).push(route_model(path@, handler)) && (forall|m2: Method|
                m2 != Method::Options ==> final(self).routes_of(m2) == old(self).routes_of(m2)),
            r matches Err(e) ==> *final(self) == *old(self) && e.pattern@ == normalized(
                scan_pattern(path@),
            ),
            old(self).wf() ==> final(self).wf(),
    {
        self.route(Method::Options, path, handler)
    }

    /// Merges a sub-router under a path prefix: every route of the
    /// sub-router is re-registered here with the prefix put in front of its
    /// original declaration, so nested parameter names and regex fragments
    /// are carried over and recompiled as one declaration.
    pub fn path(&mut self, prefix: &str, sub: Router) -> (r: Result<(), PatternError>)
        requires
            sub.wf(),
        ensures
            r is Ok <==> prefix_compiles(prefix@, sub@),
            r is Ok ==> forall|m: Method|
                #[trigger] final(self).routes_of(m) == old(self).routes_of(m) + prefixed_models(
                    prefix@,
                    sub.routes_of(m),
                ),
            old(self).wf() ==> final(self).wf(),
    {
        let ghost sub_table = sub@;
        let ghost initial = *self;
        let n = sub.inner.len();
        let mut e: usize = 0;
        while e < n
            invariant
                e <= n,
                n == sub.inner@.len(),
                sub_table == sub@,
                sub.wf(),
                initial == *old(self),
                initial.wf() ==> self.wf(),
                forall|ei: int, k: int|
                    0 <= ei < e && 0 <= k < sub_table[ei].1.len() ==> re_compiles(
                        normalized(scan_pattern(prefix@ + sub_table[ei].1[k].template)),
                    ),
                forall|m: Method|
                    (exists|ei: int| 0 <= ei < e && sub_table[ei].0 == m)
                        ==> #[trigger] self.routes_of(m) == initial.routes_of(m) + prefixed_models(
                        prefix@,
                        routes_in(sub_table, m),
                    ),
                forall|m: Method|
                    !(exists|ei: int| 0 <= ei < e && sub_table[ei].0 == m)
                        ==> #[trigger] self.routes_of(m) == initial.routes_of(m),
            decreases n - e,
        {
            let method = sub.inner[e].0;
            let ghost entry_routes = sub_table[e as int].1;
            proof {
                assert(forall|ei: int| 0 <= ei < e ==> sub_table[ei].0 != method);
                lemma_routes_in_first(sub_table, e as int);
                assert(routes_in(sub_table, method) == entry_routes);
                assert(prefixed_models(prefix@, entry_routes.take(0)) =~= Seq::<
                    RouteModel,
                >::empty());
                assert(self.routes_of(method) + prefixed_models(prefix@, entry_routes.take(0))
                    =~= self.routes_of(method));
            }
            let rn = sub.inner[e].1.len();
            let mut k: usize = 0;
            while k < rn
                invariant
                    k <= rn,
                    e < n,
                    n == sub.inner@.len(),
                    rn == sub.inner@[e as int].1.len(),
                    sub_table == sub@,
                    sub.wf(),
                    initial == *old(self),
                    initial.wf() ==> self.wf(),
                    entry_routes == sub_table[e as int].1,
                    sub_table[e as int].0 == method,
                    forall|ei: int| 0 <= ei < e ==> sub_table[ei].0 != method,
                    forall|ei: int, kk: int|
                        0 <= ei < e && 0 <= kk < sub_table[ei].1.len() ==> re_compiles(
                            normalized(scan_pattern(prefix@ + sub_table[ei].1[kk].template)),
                        ),
                    forall|kk: int|
                        0 <= kk < k ==> re_compiles(
                            normalized(scan_pattern(prefix@ + entry_routes[kk].template)),
                        ),
                    self.routes_of(method) == initial.routes_of(method) + prefixed_models(
                        prefix@,
                        entry_routes.take(k as int),
                    ),
                    forall|m: Method|
                        m != method && (exists|ei: int| 0 <= ei < e && sub_table[ei].0 == m)
                            ==> #[trigger] self.routes_of(m) == initial.routes_of(m)
                            + prefixed_models(prefix@, routes_in(sub_table, m)),
                    forall|m: Method|
                        m != method && !(exists|ei: int| 0 <= ei < e && sub_table[ei].0 == m)
                            ==> #[trigger] self.routes_of(m) == initial.routes_of(m),
                decreases rn - k,
            {
                let template = sub.inner[e].1[k].path.clone();
                let handler = sub.inner[e].1[k].handler;
                let combined = prefix.to_owned().concat(template.as_str());
                proof {
                    assert(entry_routes[k as int] == sub.inner@[e as int].1[k as int].deep_view());
                    assert(combined@ == prefix@ + entry_routes[k as int].template);
                }
                match self.route(method, combined.as_str(), handler) {
                    Ok(_) => {},
                    Err(err) => {
                        proof {
                            assert(!re_compiles(
                                normalized(scan_pattern(prefix@ + entry_routes[k as int].template)),
                            ));
                            assert(!prefix_compiles(prefix@, sub_table));
                            assert(initial == *old(self));
                        }
                        return Err(err);
                    },
                }
                k = k + 1;
                proof {
                    assert(prefixed_models(prefix@, entry_routes.take(k as int))
                        =~= prefixed_models(prefix@, entry_routes.take(k - 1)).push(
                        route_model(prefix@ + entry_routes[k - 1].template,
                            entry_routes[k - 1].handler),
                    ));
                    assert(self.routes_of(method) =~= initial.routes_of(method) + prefixed_models(
                        prefix@,
                        entry_routes.take(k as int),
                    ));
                }
            }
            e = e + 1;
            proof {
                assert(entry_routes.take(rn as int) =~= entry_routes);
            }
        }
        proof {
            assert(prefix_compiles(prefix@, sub_table));
            assert forall|m: Method|
                !(exists|ei: int| 0 <= ei < n && sub_table[ei].0 == m) implies prefixed_models(
                prefix@,
                routes_in(sub_table, m),
            ) =~= Seq::<RouteModel>::empty() by {
                lemma_routes_in_absent_all(sub_table, m);
            }
        }
        Ok(())
    }

    /// Finds the registered route that handles a request: the routes of the
    /// method are tried in registration order, the first whose pattern
    /// matches the path wins, and its handler is returned with the capture
    /// set extracted from that same pattern. When the method has no routes
    /// or none matches, the not-found status 404 is returned.
    pub fn recognize(&self, method: &Method, path: &str) -> (r: Result<(u64, Capture), u16>)
        ensures
            ({
                let rs = self.routes_of(*method);
                match first_match(rs, path@) {
                    Option::None => (r matches Err(c) && c == 404),
                    Option::Some(i) => (r matches Ok(p) && p.0 == rs[i].handler && p.1@
                        == capture_entries(rs[i].ids, re_groups(rs[i].pattern, path@))),
                }
            }),
    {
        let n = self.inner.len();
        let mut e: usize = 0;
        while e < n
            invariant
                e <= n,
                n == self.inner@.len(),
                forall|j: int| 0 <= j < e ==> self@[j].0 != *method,
            decreases n - e,
        {
            if self.inner[e].0 == *method {
                proof {
                    lemma_routes_in_first(self@, e as int);
                }
                return self.scan_routes(e, path);
            }
            e = e + 1;
        }
        proof {
            lemma_routes_in_absent_all(self@, *method);
        }
        Err(404)
    }

    /// Scans one table entry's routes in order for the first match.
    fn scan_routes(&self, e: usize, path: &str) -> (r: Result<(u64, Capture), u16>)
        requires
            e < self@.len(),
        ensures
            ({
                let rs = self@[e as int].1;
                match first_match(rs, path@) {
                    Option::None => (r matches Err(c) && c == 404),
                    Option::Some(i) => (r matches Ok(p) && p.0 == rs[i].handler && p.1@
                        == capture_entries(rs[i].ids, re_groups(rs[i].pattern, path@))),
                }
            }),
    {
        let ghost rs = self@[e as int].1;
        let routes = &self.inner[e].1;
        proof {
            assert(routes.deep_view() == rs);
        }
        let rn = routes.len();
        let mut j: usize = 0;
        while j < rn
            invariant
                j <= rn,
                rn == routes@.len(),
                e < self@.len(),
                rs == self@[e as int].1,
                rs == routes.deep_view(),
                forall|jj: int| 0 <= jj < j ==> !re_is_match(rs[jj].pattern, path@),
            decreases rn - j,
        {
            let route = &routes[j];
            proof {
                assert(route@ == rs[j as int]);
            }
            if route.pattern.is_match(path) {
                let groups = match route.pattern.capture_groups(path) {
                    Some(g) => g,
                    None => {
                        proof {
                            assert(false);
                        }
                        unreached()
                    },
                };
                let cap = build_captures(&route.ids, &groups);
                proof {
                    lemma_first_match_at(rs, path@, j as int);
                    assert(first_match(rs, path@) == Some(j as int));
                    assert(groups.deep_view() == re_groups(rs[j as int].pattern, path@));
                    assert(route.ids.deep_view() == rs[j as int].ids);
                    assert(cap@ == capture_entries(
                        rs[j as int].ids,
                        re_groups(rs[j as int].pattern, path@),
                    ));
                    assert(route.handler == rs[j as int].handler);
                }
                return Ok((route.handler, cap));
            }
            j = j + 1;
        }
        proof {
            lemma_first_match_none(rs, path@);
        }
        Err(404)
    }
}

/// Builds the capture set of a match: the i-th group, when it participated,
/// is recorded under the i-th parameter name, while both lists last.
pub fn build_captures(ids: &Vec<String>, groups: &Vec<Option<String>>) -> (r: Capture)
    ensures
        r@ == capture_entries(ids.deep_view(), groups.deep_view()),
{
    let ghost gids = ids.deep_view();
    let ghost ggroups = groups.deep_view();
    let mut cap = Capture::new();
    let n = if ids.len() < groups.len() {
        ids.len()
    } else {
        groups.len()
    };
    let mut i: usize = 0;
    while i < n
        invariant
            i <= n,
            gids == ids.deep_view(),
            ggroups == groups.deep_view(),
            n == if gids.len() < ggroups.len() {
                gids.len()
            } else {
                ggroups.len()
            },
            capture_entries(gids, ggroups) == capture_fold(cap@, gids, ggroups, i as int),
        decreases n - i,
    {
        match &groups[i] {
            Some(v) => {
                proof {
                    assert(ggroups[i as int] == Some(v@));
                    assert(gids[i as int] == ids@[i as int]@);
                }
                cap.set(ids[i].as_str(), v.as_str());
            },
            None => {
                proof {
                    assert(ggroups[i as int] is None);
                }
            },
        }
        i = i + 1;
    }
    cap
}

/// Looking a method up in a table sees only the first entry carrying it.
proof fn lemma_routes_in_first(t: Seq<(Method, Seq<RouteModel>)>, i: int)
    requires
        0 <= i < t.len(),
        forall|j: int| 0 <= j < i ==> t[j].0 != t[i].0,
    ensures
        routes_in(t, t[i].0) == t[i].1,
    decreases i,
{
    if i > 0 {
        assert(forall|j: int|
            0 <= j < i - 1 ==> t.drop_first()[j] == t[j + 1]);
        assert(t.drop_first()[i - 1] == t[i]);
        lemma_routes_in_first(t.drop_first(), i - 1);
    }
}

/// A method with no table entry has no routes.
proof fn lemma_routes_in_absent_all(t: Seq<(Method, Seq<RouteModel>)>, m: Method)
    requires
        forall|j: int| 0 <= j < t.len() ==> t[j].0 != m,
    ensures
        routes_in(t, m) == Seq::<RouteModel>::empty(),
    decreases t.len(),
{
    if t.len() > 0 {
        assert(forall|j: int|
            0 <= j < t.drop_first().len() ==> t.drop_first()[j] == t[j + 1]);
        lemma_routes_in_absent_all(t.drop_first(), m);
    }
}

/// Replacing the routes of the first entry carrying a method replaces that
/// method's routes and no other's.
proof fn lemma_routes_in_update(
    t: Seq<(Method, Seq<RouteModel>)>,
    i: int,
    rs: Seq<RouteModel>,
    m: Method,
)
    requires
        0 <= i < t.len(),
        t[i].0 == m,
        forall|j: int| 0 <= j < i ==> t[j].0 != m,
    ensures
        routes_in(t.update(i, (m, rs)), m) == rs,
        forall|m2: Method|
            m2 != m ==> routes_in(t.update(i, (m, rs)), m2) == routes_in(t, m2),
    decreases i,
{
    let u = t.update(i, (m, rs));
    if i == 0 {
        assert(u[0] == (m, rs));
        assert(u.drop_first() =~= t.drop_first());
        assert forall|m2: Method| m2 != m implies routes_in(u, m2) == routes_in(t, m2) by {
            assert(routes_in(u, m2) == routes_in(u.drop_first(), m2));
            assert(routes_in(t, m2) == routes_in(t.drop_first(), m2));
        }
    } else {
        assert(u[0] == t[0]);
        assert(u.drop_first() =~= t.drop_first().update(i - 1, (m, rs)));
        assert(forall|j: int| 0 <= j < i - 1 ==> t.drop_first()[j] == t[j + 1]);
        assert(t.drop_first()[i - 1] == t[i]);
        lemma_routes_in_update(t.drop_first(), i - 1, rs, m);
        assert(t[0].0 != m);
        assert(routes_in(u, m) == routes_in(u.drop_first(), m));
        assert forall|m2: Method| m2 != m implies routes_in(u, m2) == routes_in(t, m2) by {
            if t[0].0 == m2 {
                assert(routes_in(u, m2) == u[0].1);
                assert(routes_in(t, m2) == t[0].1);
            } else {
                assert(routes_in(u, m2) == routes_in(u.drop_first(), m2));
                assert(routes_in(t, m2) == routes_in(t.drop_first(), m2));
            }
        }
    }
}

/// Appending an entry for a method with no earlier entry gives that method
/// its routes and leaves every other method's routes alone.
proof fn lemma_routes_in_append(t: Seq<(Method, Seq<RouteModel>)>, m: Method, rs: Seq<RouteModel>)
    requires
        forall|j: int| 0 <= j < t.len() ==> t[j].0 != m,
    ensures
        routes_in(t.push((m, rs)), m) == rs,
        forall|m2: Method| m2 != m ==> routes_in(t.push((m, rs)), m2) == routes_in(t, m2),
    decreases t.len(),
{
    let u = t.push((m, rs));
    if t.len() == 0 {
        assert(u[0] == (m, rs));
        assert(u.drop_first() =~= Seq::<(Method, Seq<RouteModel>)>::empty());
        assert forall|m2: Method| m2 != m implies routes_in(u, m2) == routes_in(t, m2) by {
            assert(routes_in(u, m2) == routes_in(u.drop_first(), m2));
        }
    } else {
        assert(u[0] == t[0]);
        assert(u.drop_first() =~= t.drop_first().push((m, rs)));
        assert(forall|j: int|
            0 <= j < t.drop_first().len() ==> t.drop_first()[j] == t[j + 1]);
        lemma_routes_in_append(t.drop_first(), m, rs);
        assert(t[0].0 != m);
        assert(routes_in(u, m) == routes_in(u.drop_first(), m));
        assert forall|m2: Method| m2 != m implies routes_in(u, m2) == routes_in(t, m2) by {
            if t[0].0 == m2 {
            } else {
                assert(routes_in(u, m2) == routes_in(u.drop_first(), m2));
                assert(routes_in(t, m2) == routes_in(t.drop_first(), m2));
            }
        }
    }
}

/// The first match sits exactly where the first matching route sits.
proof fn lemma_first_match_at(rs: Seq<RouteModel>, path: Seq<char>, i: int)
    requires
        0 <= i < rs.len(),
        re_is_match(rs[i].pattern, path),
        forall|j: int| 0 <= j < i ==> !re_is_match(rs[j].pattern, path),
    ensures
        first_match(rs, path) == Some(i),
    decreases i,
{
    if i > 0 {
        assert(forall|j: int| 0 <= j < i - 1 ==> rs.drop_first()[j] == rs[j + 1]);
        assert(rs.drop_first()[i - 1] == rs[i]);
        lemma_first_match_at(rs.drop_first(), path, i - 1);
    }
}

/// When no route matches, there is no first match.
proof fn lemma_first_match_none(rs: Seq<RouteModel>, path: Seq<char>)
    requires
        forall|j: int| 0 <= j < rs.len() ==> !re_is_match(rs[j].pattern, path),
    ensures
        first_match(rs, path) is None,
    decreases rs.len(),
{
    if rs.len() > 0 {
        assert(forall|j: int|
            0 <= j < rs.drop_first().len() ==> rs.drop_first()[j] == rs[j + 1]);
        lemma_first_match_none(rs.drop_first(), path);
    }
}

/// What the first match means: it exists exactly when some route matches,
/// and it is the earliest matching position.
pub proof fn lemma_first_match_spec(rs: Seq<RouteModel>, path: Seq<char>)
    ensures
        first_match(rs, path) is Some <==> exists|i: int|
            0 <= i < rs.len() && re_is_match(#[trigger] rs[i].pattern, path),
        first_match(rs, path) matches Some(i) ==> 0 <= i < rs.len() && re_is_match(
            rs[i].pattern,
            path,
        ) && (forall|j: int| 0 <= j < i ==> !re_is_match(#[trigger] rs[j].pattern, path)),
    decreases rs.len(),
{
    if rs.len() > 0 {
        let d = rs.drop_first();
        lemma_first_match_spec(d, path);
        assert(forall|j: int| 0 <= j < d.len() ==> d[j] == rs[j + 1]);
        if re_is_match(rs[0].pattern, path) {
            assert(first_match(rs, path) == Some(0int));
        } else {
            match first_match(d, path) {
                Option::None => {
                    assert(first_match(rs, path) is None);
                    assert forall|i: int| 0 <= i < rs.len() implies !re_is_match(
                        #[trigger] rs[i].pattern,
                        path,
                    ) by {
                        if i > 0 {
                            assert(rs[i] == d[i - 1]);
                            if re_is_match(rs[i].pattern, path) {
                                assert(re_is_match(d[i - 1].pattern, path));
                                assert(first_match(d, path) is Some);
                            }
                        }
                    }
                },
                Option::Some(i0) => {
                    assert(first_match(rs, path) == Some(i0 + 1));
                    assert(0 <= i0 < d.len() && re_is_match(d[i0].pattern, path));
                    assert(rs[i0 + 1] == d[i0]);
                    assert(re_is_match(rs[i0 + 1].pattern, path));
                    assert forall|j: int| 0 <= j < i0 + 1 implies !re_is_match(
                        #[trigger] rs[j].pattern,
                        path,
                    ) by {
                        if j > 0 {
                            assert(rs[j] == d[j - 1]);
                        }
                    }
                },
            }
        }
    }
}

/// Registration order determines precedence: when two routes of one method
/// both match a path, recognition never picks the later one — the first
/// match sits no later than the earlier of the two.
pub proof fn lemma_first_registered_wins(rs: Seq<RouteModel>, path: Seq<char>, i: int, j: int)
    requires
        0 <= i < j < rs.len(),
        re_is_match(rs[i].pattern, path),
        re_is_match(rs[j].pattern, path),
    ensures
        first_match(rs, path) matches Some(k) && k <= i,
{
    lemma_first_match_spec(rs, path);
    assert(first_match(rs, path) is Some);
    let k = first_match(rs, path)->0;
    if k > i {
        assert(!re_is_match(rs[i].pattern, path));
    }
}

/// Nested composition: when the parent prefix leaves the scanner settled,
/// the route that a nested registration compiles is the route of the
/// concatenated declaration, its parameter names the parent's followed by
/// the child's and its pattern text the two pattern texts joined.
pub proof fn lemma_nested_route(prefix: Seq<char>, child: Seq<char>, handler: u64)
    requires
        scan_settled(prefix),
    ensures
        route_model(prefix + child, handler).ids == scan_ids(prefix) + scan_ids(child),
        route_model(prefix + child, handler).pattern == normalized(
            scan_pattern(prefix) + scan_pattern(child),
        ),
{
    lemma_scan_concat_settled(prefix, child);
}


impl Default for Router {
    /// An empty router, as `new` builds one.
    fn default() -> (r: Router)
        ensures
            r@ == Seq::<(Method, Seq<RouteModel>)>::empty(),
            r.wf(),
    {
        Router::new()
    }
}

} // verus!
