//! The `Controller<State>` impl of a `#[routes]` block: the bounds it
//! carries, the metadata it registers and the assertions it emits.

use vstd::prelude::*;

use crate::attrs::Attr;
use crate::extract::route::{contains_seq, default_status_for_method, is_wildcard_path, verb_of, HttpMethod};
use crate::naming::ascii_upper_all;
use crate::route_meta::{auth_flag, AuthFlag};
use crate::text::{chars_of, push_str, str_is, string_of};

verus! {

/// What the controller impl reads of one HTTP route method.
pub struct RouteInput {
    /// The method's name.
    pub fn_name: String,
    pub method: HttpMethod,
    /// Marked `#[fallback]`.
    pub is_fallback: bool,
    pub path: String,
    /// The status of `#[status(N)]`, if given.
    pub status_override: Option<u16>,
    /// The roles of `#[roles(...)]` and of `#[all_roles(...)]`.
    pub roles: Vec<String>,
    pub all_roles: Vec<String>,
    /// Marked `#[deprecated]`.
    pub deprecated: bool,
    /// Marked `#[anonymous]`.
    pub anonymous: bool,
    /// Has `#[guard(...)]` sites.
    pub has_guards: bool,
    /// Position of the identity parameter among the typed parameters.
    pub identity: Option<usize>,
    /// The token renderings of the resource types of its `#[managed]`
    /// parameters (lifetimes made `'static`), in order.
    pub managed_types: Vec<String>,
}

/// What the controller impl reads of one SSE or WebSocket method.
#[derive(Clone, Copy, PartialEq, Eq, Structural, Debug)]
pub struct StreamInput {
    pub identity: Option<usize>,
}

/// A method whose identity parameter gets its own extraction marker.
#[derive(Clone, Copy, PartialEq, Eq, Structural, Debug)]
pub enum MarkerSite {
    Route(usize),
    Sse(usize),
    Ws(usize),
}

/// One identity marker: the method and its identity parameter's position.
#[derive(Clone, Copy, PartialEq, Eq, Structural, Debug)]
pub struct IdentityMarker {
    pub site: MarkerSite,
    pub index: usize,
}

/// The plan of the `Controller<State>` impl.
pub struct ControllerImplPlan {
    /// The root-prefix assertion of `#[fallback]` is emitted.
    pub fallback_assert: bool,
    /// The routes documented in the metadata (neither fallback, nor
    /// any-method, nor with a `{*wildcard}` path), by position.
    pub documented_routes: Vec<usize>,
    /// `register_meta` extends the registry with route, SSE and WebSocket
    /// metadata respectively (each only when there is some).
    pub extend_routes: bool,
    pub extend_sse: bool,
    pub extend_ws: bool,
    /// One marker per method with an identity parameter: routes, then SSE,
    /// then WebSocket methods, each in order.
    pub identity_markers: Vec<IdentityMarker>,
    /// One `ManagedResource<State>` bound per distinct managed resource type
    /// of the routes, in order of first appearance.
    pub managed_bounds: Vec<String>,
    /// The controller-level interceptor set is built once in the router and
    /// shared by the routes.
    pub shared_ctrl_decos: bool,
}

pub open spec fn route_documented(r: RouteInput) -> bool {
    !r.is_fallback && !(r.method is Any) && !contains_seq(r.path@, seq!['{', '*'])
}

/// The positions of the documented routes among the first `n`.
pub open spec fn documented_prefix(rs: Seq<RouteInput>, n: int) -> Seq<usize>
    decreases n,
{
    if n <= 0 {
        Seq::empty()
    } else {
        documented_prefix(rs, n - 1) + if route_documented(rs[n - 1]) {
            seq![(n - 1) as usize]
        } else {
            Seq::empty()
        }
    }
}

/// The identity markers of the first `n` methods of one kind.
pub open spec fn markers_prefix(ids: Seq<Option<usize>>, site: spec_fn(usize) -> MarkerSite, n: int) -> Seq<
    IdentityMarker,
>
    decreases n,
{
    if n <= 0 {
        Seq::empty()
    } else {
        markers_prefix(ids, site, n - 1) + match ids[n - 1] {
            Some(i) => seq![IdentityMarker { site: site((n - 1) as usize), index: i }],
            None => Seq::empty(),
        }
    }
}

pub open spec fn markers_of(ids: Seq<Option<usize>>, site: spec_fn(usize) -> MarkerSite) -> Seq<IdentityMarker> {
    markers_prefix(ids, site, ids.len() as int)
}

pub open spec fn route_ids(rs: Seq<RouteInput>) -> Seq<Option<usize>> {
    rs.map_values(|r: RouteInput| r.identity)
}

pub open spec fn stream_ids(ss: Seq<StreamInput>) -> Seq<Option<usize>> {
    ss.map_values(|s: StreamInput| s.identity)
}

/// The distinct strings of `ts`, in order of first appearance.
pub open spec fn distinct_in_order(ts: Seq<Seq<char>>) -> Seq<Seq<char>>
    decreases ts.len(),
{
    if ts.len() == 0 {
        Seq::empty()
    } else {
        let d = distinct_in_order(ts.drop_last());
        if d.contains(ts.last()) {
            d
        } else {
            d.push(ts.last())
        }
    }
}

/// The managed resource types of the first `n` routes, flattened.
pub open spec fn managed_of(rs: Seq<RouteInput>, n: int) -> Seq<Seq<char>>
    decreases n,
{
    if n <= 0 {
        Seq::empty()
    } else {
        managed_of(rs, n - 1) + rs[n - 1].managed_types@.map_values(|t: String| t@)
    }
}

pub open spec fn string_views(v: Seq<String>) -> Seq<Seq<char>> {
    v.map_values(|t: String| t@)
}

fn contains_string(v: &Vec<String>, t: &String) -> (r: bool)
    ensures
        r == string_views(v@).contains(t@),
{
    let mut i: usize = 0;
    while i < v.len()
        invariant
            0 <= i <= v@.len(),
            forall|k: int| 0 <= k < i ==> v@[k]@ != t@,
        decreases v@.len() - i,
    {
        if str_is(v[i].as_str(), t.as_str()) {
            assert(string_views(v@)[i as int] == t@);
            return true;
        }
        i = i + 1;
    }
    proof {
        if string_views(v@).contains(t@) {
            let k = choose|k: int| 0 <= k < string_views(v@).len() && string_views(v@)[k] == t@;
            assert(v@[k]@ == t@);
        }
    }
    false
}

fn push_markers(out: &mut Vec<IdentityMarker>, ids: &Vec<Option<usize>>, which: u8)
    requires
        which < 3,
    ensures
        final(out)@ == old(out)@ + markers_of(ids@, marker_kind(which)),
{
    let ghost start = out@;
    let ghost site = marker_kind(which);
    let mut i: usize = 0;
    while i < ids.len()
        invariant
            0 <= i <= ids@.len(),
            which < 3,
            site == marker_kind(which),
            out@ == start + markers_prefix(ids@, site, i as int),
        decreases ids@.len() - i,
    {
        if let Some(x) = ids[i] {
            let s = if which == 0 {
                MarkerSite::Route(i)
            } else if which == 1 {
                MarkerSite::Sse(i)
            } else {
                MarkerSite::Ws(i)
            };
            assert(s == site(i));
            out.push(IdentityMarker { site: s, index: x });
        }
        i = i + 1;
        assert(out@ =~= start + markers_prefix(ids@, site, i as int));
    }
}

pub open spec fn marker_kind(which: u8) -> spec_fn(usize) -> MarkerSite {
    if which == 0 {
        |i: usize| MarkerSite::Route(i)
    } else if which == 1 {
        |i: usize| MarkerSite::Sse(i)
    } else {
        |i: usize| MarkerSite::Ws(i)
    }
}

/// Plans the `Controller<State>` impl of a `#[routes]` block from its
/// route, SSE and WebSocket methods and whether it has a controller-level
/// interceptor set.
pub fn plan_controller_impl(
    routes: &Vec<RouteInput>,
    sse: &Vec<StreamInput>,
    ws: &Vec<StreamInput>,
    has_ctrl_decos: bool,
) -> (r: ControllerImplPlan)
    ensures
        r.fallback_assert == exists|k: int| 0 <= k < routes@.len() && (#[trigger] routes@[k]).is_fallback,
        r.documented_routes@ == documented_prefix(routes@, routes@.len() as int),
        r.extend_routes == (r.documented_routes@.len() > 0),
        r.extend_sse == (sse@.len() > 0),
        r.extend_ws == (ws@.len() > 0),
        r.identity_markers@ == markers_of(route_ids(routes@), |i: usize| MarkerSite::Route(i)) + markers_of(
            stream_ids(sse@),
            |i: usize| MarkerSite::Sse(i),
        ) + markers_of(stream_ids(ws@), |i: usize| MarkerSite::Ws(i)),
        string_views(r.managed_bounds@) == distinct_in_order(managed_of(routes@, routes@.len() as int)),
        r.shared_ctrl_decos == (has_ctrl_decos && routes@.len() > 0),
{
    let mut fallback = false;
    let mut documented: Vec<usize> = Vec::new();
    let mut bounds: Vec<String> = Vec::new();
    let mut route_idents: Vec<Option<usize>> = Vec::new();
    let mut i: usize = 0;
    while i < routes.len()
        invariant
            0 <= i <= routes@.len(),
            fallback == exists|k: int| 0 <= k < i && (#[trigger] routes@[k]).is_fallback,
            documented@ == documented_prefix(routes@, i as int),
            route_idents@ == route_ids(routes@).take(i as int),
            string_views(bounds@) == distinct_in_order(managed_of(routes@, i as int)),
        decreases routes@.len() - i,
    {
        let r = &routes[i];
        if r.is_fallback {
            fallback = true;
        }
        let is_any = match r.method {
            HttpMethod::Any => true,
            _ => false,
        };
        if !r.is_fallback && !is_any && !is_wildcard_path(r.path.as_str()) {
            documented.push(i);
        }
        route_idents.push(r.identity);
        assert(route_idents@ =~= route_ids(routes@).take(i + 1));
        let ghost before_all = managed_of(routes@, i as int);
        let mut j: usize = 0;
        while j < r.managed_types.len()
            invariant
                0 <= j <= r.managed_types@.len(),
                string_views(bounds@) == distinct_in_order(
                    before_all + string_views(r.managed_types@.take(j as int)),
                ),
            decreases r.managed_types@.len() - j,
        {
            let t = &r.managed_types[j];
            let ghost prev = before_all + string_views(r.managed_types@.take(j as int));
            proof {
                assert(before_all + string_views(r.managed_types@.take(j + 1)) =~= prev.push(t@));
                assert(prev.push(t@).drop_last() =~= prev);
            }
            if !contains_string(&bounds, t) {
                let ghost b = bounds@;
                bounds.push(t.clone());
                assert(string_views(bounds@) =~= string_views(b).push(t@));
            }
            j = j + 1;
        }
        proof {
            assert(r.managed_types@.take(r.managed_types@.len() as int) =~= r.managed_types@);
            assert(managed_of(routes@, i + 1) =~= before_all + string_views(r.managed_types@));
        }
        i = i + 1;
    }
    assert(route_ids(routes@).take(routes@.len() as int) =~= route_ids(routes@));
    let mut sse_idents: Vec<Option<usize>> = Vec::new();
    let mut k: usize = 0;
    while k < sse.len()
        invariant
            0 <= k <= sse@.len(),
            sse_idents@ == stream_ids(sse@).take(k as int),
        decreases sse@.len() - k,
    {
        sse_idents.push(sse[k].identity);
        k = k + 1;
        assert(sse_idents@ =~= stream_ids(sse@).take(k as int));
    }
    assert(stream_ids(sse@).take(sse@.len() as int) =~= stream_ids(sse@));
    let mut ws_idents: Vec<Option<usize>> = Vec::new();
    let mut k: usize = 0;
    while k < ws.len()
        invariant
            0 <= k <= ws@.len(),
            ws_idents@ == stream_ids(ws@).take(k as int),
        decreases ws@.len() - k,
    {
        ws_idents.push(ws[k].identity);
        k = k + 1;
        assert(ws_idents@ =~= stream_ids(ws@).take(k as int));
    }
    assert(stream_ids(ws@).take(ws@.len() as int) =~= stream_ids(ws@));
    let mut markers: Vec<IdentityMarker> = Vec::new();
    push_markers(&mut markers, &route_idents, 0);
    push_markers(&mut markers, &sse_idents, 1);
    push_markers(&mut markers, &ws_idents, 2);
    let extend_routes = documented.len() > 0;
    ControllerImplPlan {
        fallback_assert: fallback,
        documented_routes: documented,
        extend_routes,
        extend_sse: sse.len() > 0,
        extend_ws: ws.len() > 0,
        identity_markers: markers,
        managed_bounds: bounds,
        shared_ctrl_decos: has_ctrl_decos && routes.len() > 0,
    }
}


/// One bound per managed resource type: the bounds name every managed type
/// of the routes, nothing else, and none twice.
pub proof fn lemma_bounds_distinct(ts: Seq<Seq<char>>)
    ensures
        distinct_in_order(ts).no_duplicates(),
        forall|t: Seq<char>| distinct_in_order(ts).contains(t) <==> ts.contains(t),
    decreases ts.len(),
{
    if ts.len() > 0 {
        let init = ts.drop_last();
        lemma_bounds_distinct(init);
        let d = distinct_in_order(init);
        assert forall|t: Seq<char>| distinct_in_order(ts).contains(t) <==> ts.contains(t) by {
            if ts.contains(t) {
                let k = choose|k: int| 0 <= k < ts.len() && ts[k] == t;
                if k < ts.len() - 1 {
                    assert(init[k] == t);
                    assert(init.contains(t));
                }
            }
            if init.contains(t) {
                let k = choose|k: int| 0 <= k < init.len() && init[k] == t;
                assert(ts[k] == t);
            }
            if !d.contains(ts.last()) {
                if d.push(ts.last()).contains(t) {
                    let k = choose|k: int| 0 <= k < d.len() + 1 && d.push(ts.last())[k] == t;
                    if k < d.len() {
                        assert(d[k] == t);
                    }
                }
                if d.contains(t) {
                    let k = choose|k: int| 0 <= k < d.len() && d[k] == t;
                    assert(d.push(ts.last())[k] == t);
                }
                assert(d.push(ts.last())[d.len() as int] == ts.last());
            }
            assert(ts[ts.len() - 1] == ts.last());
        }
    }
}


// ── route metadata ──────────────────────────────────────────────────────

/// The method text of a route's metadata: its routing function uppercased.
pub open spec fn method_text(m: HttpMethod) -> Seq<char> {
    match m {
        HttpMethod::Get => "GET"@,
        HttpMethod::Post => "POST"@,
        HttpMethod::Put => "PUT"@,
        HttpMethod::Delete => "DELETE"@,
        HttpMethod::Patch => "PATCH"@,
        HttpMethod::Any => "ANY"@,
    }
}

pub open spec fn default_status(m: HttpMethod) -> u16 {
    match m {
        HttpMethod::Post => 201u16,
        HttpMethod::Delete => 204u16,
        _ => 200u16,
    }
}

/// The fixed part of one route's entry in the metadata registry: the route
/// (by position), its operation id `<Controller>_<fn>`, its method text,
/// its response status (the `#[status]` override, else the method's
/// default), its roles (`#[roles]` then `#[all_roles]`), whether it is
/// deprecated, and how its security flag is computed. The path is the
/// route's path behind the controller's prefix, joined at run time; the tag
/// is the controller's name.
pub struct RouteInfoPlan {
    pub route: usize,
    pub operation_id: String,
    pub method: &'static str,
    pub status: u16,
    pub roles: Vec<String>,
    pub deprecated: bool,
    pub auth: AuthFlag,
}

/// `p` is the metadata entry of route `k` of `rs`.
pub open spec fn info_of(controller: Seq<char>, rs: Seq<RouteInput>, k: int, p: RouteInfoPlan) -> bool {
    let r = rs[k];
    &&& p.route == k
    &&& p.operation_id@ == controller + "_"@ + r.fn_name@
    &&& p.method@ == method_text(r.method)
    &&& p.status == match r.status_override {
        Some(s) => s,
        None => default_status(r.method),
    }
    &&& string_views(p.roles@) == string_views(r.roles@) + string_views(r.all_roles@)
    &&& p.deprecated == r.deprecated
    &&& p.auth == (if r.anonymous {
        AuthFlag::Guards(r.has_guards)
    } else {
        AuthFlag::Secured {
            roles: r.roles@.len() > 0 || r.all_roles@.len() > 0,
            identity: r.identity is Some,
            guards: r.has_guards,
        }
    })
}

fn method_str(m: &HttpMethod) -> (r: &'static str)
    ensures
        r@ == method_text(*m),
{
    match m {
        HttpMethod::Get => "GET",
        HttpMethod::Post => "POST",
        HttpMethod::Put => "PUT",
        HttpMethod::Delete => "DELETE",
        HttpMethod::Patch => "PATCH",
        HttpMethod::Any => "ANY",
    }
}

fn clone_strings(v: &Vec<String>, out: &mut Vec<String>)
    ensures
        string_views(final(out)@) == string_views(old(out)@) + string_views(v@),
{
    let ghost start = string_views(out@);
    let mut i: usize = 0;
    while i < v.len()
        invariant
            0 <= i <= v@.len(),
            string_views(out@) == start + string_views(v@.take(i as int)),
        decreases v@.len() - i,
    {
        let ghost b = out@;
        out.push(v[i].clone());
        i = i + 1;
        assert(string_views(out@) =~= start + string_views(v@.take(i as int))) by {
            assert(string_views(out@) =~= string_views(b).push(v@[i - 1]@));
            assert(string_views(v@.take(i as int)) =~= string_views(v@.take(i - 1)).push(v@[i - 1]@));
        }
    }
    assert(v@.take(v@.len() as int) =~= v@);
}

/// The metadata entries of the routes of controller `controller`: one per
/// documented route (neither `#[fallback]`, nor any-method, nor with a
/// `{*wildcard}` path), in order.
pub fn plan_route_metadata(controller: &str, routes: &Vec<RouteInput>) -> (r: Vec<RouteInfoPlan>)
    ensures
        r@.map_values(|p: RouteInfoPlan| p.route) == documented_prefix(routes@, routes@.len() as int),
        forall|j: int| 0 <= j < r@.len() ==> info_of(controller@, routes@, r@[j].route as int, #[trigger] r@[j]),
{
    let mut out: Vec<RouteInfoPlan> = Vec::new();
    let mut i: usize = 0;
    while i < routes.len()
        invariant
            0 <= i <= routes@.len(),
            out@.map_values(|p: RouteInfoPlan| p.route) == documented_prefix(routes@, i as int),
            forall|j: int| 0 <= j < out@.len() ==> (#[trigger] out@[j]).route < routes@.len() && info_of(
                controller@,
                routes@,
                out@[j].route as int,
                out@[j],
            ),
        decreases routes@.len() - i,
    {
        let r = &routes[i];
        let is_any = match r.method {
            HttpMethod::Any => true,
            _ => false,
        };
        let ghost before = out@;
        if !r.is_fallback && !is_any && !is_wildcard_path(r.path.as_str()) {
            let mut op = chars_of(controller);
            push_str(&mut op, "_");
            push_str(&mut op, r.fn_name.as_str());
            let status = match r.status_override {
                Some(s) => s,
                None => default_status_for_method(&r.method),
            };
            let mut roles: Vec<String> = Vec::new();
            clone_strings(&r.roles, &mut roles);
            clone_strings(&r.all_roles, &mut roles);
            let has_roles = r.roles.len() > 0 || r.all_roles.len() > 0;
            let auth = auth_flag(r.anonymous, has_roles, r.identity.is_some(), r.has_guards);
            let p = RouteInfoPlan {
                route: i,
                operation_id: string_of(&op),
                method: method_str(&r.method),
                status,
                roles,
                deprecated: r.deprecated,
                auth,
            };
            assert(info_of(controller@, routes@, i as int, p));
            out.push(p);
            assert(out@.map_values(|p: RouteInfoPlan| p.route) =~= before.map_values(|p: RouteInfoPlan| p.route).push(
                i,
            ));
        } else {
            assert(out@.map_values(|p: RouteInfoPlan| p.route) =~= before.map_values(|p: RouteInfoPlan| p.route));
        }
        assert forall|j: int| 0 <= j < out@.len() implies (#[trigger] out@[j]).route < routes@.len() && info_of(
            controller@,
            routes@,
            out@[j].route as int,
            out@[j],
        ) by {
            if j < before.len() {
                assert(out@[j] == before[j]);
            }
        }
        i = i + 1;
    }
    out
}


/// The method text of a route's metadata is the route attribute's verb
/// uppercased (`#[patch]` is `PATCH`), and no two methods share a text.
pub proof fn lemma_method_text<R>(a: Attr<R>, m1: HttpMethod, m2: HttpMethod)
    ensures
        verb_of(a) matches Some(m) ==> method_text(m) == ascii_upper_all(a.ident->Some_0@),
        m1 != m2 ==> method_text(m1) != method_text(m2),
{
    reveal_strlit("get");
    reveal_strlit("post");
    reveal_strlit("put");
    reveal_strlit("delete");
    reveal_strlit("patch");
    reveal_strlit("GET");
    reveal_strlit("POST");
    reveal_strlit("PUT");
    reveal_strlit("DELETE");
    reveal_strlit("PATCH");
    reveal_strlit("ANY");
    if verb_of(a) is Some {
        let n = a.ident->Some_0@;
        let up = ascii_upper_all(n);
        assert(up =~= method_text(verb_of(a)->Some_0));
    }
    if m1 != m2 {
        let (t1, t2) = (method_text(m1), method_text(m2));
        if t1.len() == t2.len() {
            assert(t1[0] != t2[0] || t1[1] != t2[1]);
        }
    }
}

} // verus!
