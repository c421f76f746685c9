//! What holds of the route that is found for a path, whatever the routes are.

use crate::config::CrankerRouterConfig;
use crate::route_resolver::{
    covers, first_segment_route, law_longest_route, longest_first_route, longest_route,
    DefaultRouteResolver, LongestFirstRouteResolver, RouteResolver,
};
use crate::text::split;
use crate::text_laws::{law_split_at_first, law_split_of_one_piece};
use crate::route_resolver;
use crate::websocket_farm::WebSocketFarm;
use dashmap::DashSet;
use vstd::prelude::*;

verus! {

/// The segment behind the first slash of a path is the route, if it is one; otherwise the catch-all
/// is, whatever follows in the path.
pub proof fn law_first_segment_is_the_route(
    routes: Set<Seq<char>>,
    front: Seq<char>,
    segment: Seq<char>,
    rest: Seq<char>,
)
    requires
        !front.contains('/'),
        !segment.contains('/'),
    ensures
        first_segment_route(routes, front + seq!['/'] + segment) == (if routes.contains(segment) {
            segment
        } else {
            "*"@
        }),
        first_segment_route(routes, front + seq!['/'] + segment + seq!['/'] + rest) == (
        if routes.contains(segment) {
            segment
        } else {
            "*"@
        }),
{
    law_split_of_one_piece(segment, '/');
    law_split_at_first(front, '/', segment);
    let short = split(front + seq!['/'] + segment, '/');
    assert(short =~= seq![front, segment]);
    law_split_at_first(segment, '/', rest);
    let behind = segment + seq!['/'] + rest;
    law_split_at_first(front, '/', behind);
    assert(front + seq!['/'] + behind =~= front + seq!['/'] + segment + seq!['/'] + rest);
    let long = split(front + seq!['/'] + segment + seq!['/'] + rest, '/');
    assert(long[1] == split(behind, '/')[0]);
    assert(long[1] == segment);
}

/// A path without a slash has the catch-all for its route.
pub proof fn law_no_slash_no_route(routes: Set<Seq<char>>, path: Seq<char>)
    requires
        !path.contains('/'),
    ensures
        first_segment_route(routes, path) == "*"@,
{
    law_split_of_one_piece(path, '/');
}

proof fn lemma_covers_more(route: Seq<char>, path: Seq<char>, i: int)
    requires
        0 <= i < path.len(),
        path[i] == '/',
        covers(route, path.take(i)),
    ensures
        covers(route, path),
{
    let n = route.len() as int;
    if route == path.take(i) {
        assert(path.take(n) =~= route);
    } else {
        assert(path.take(n) =~= path.take(i).take(n));
        assert(path[n] == path.take(i)[n]);
    }
}

proof fn lemma_nothing_covers(routes: Set<Seq<char>>, path: Seq<char>)
    requires
        forall|route: Seq<char>| #[trigger] routes.contains(route) ==> !covers(route, path),
    ensures
        longest_route(routes, path) == "*"@,
    decreases path.len(),
{
    let i = route_resolver::last_index(path, '/');
    if 0 <= i < path.len() {
        route_resolver::lemma_last_index(path, '/');
        assert forall|route: Seq<char>| #[trigger] routes.contains(route) implies !covers(
            route,
            path.take(i),
        ) by {
            if covers(route, path.take(i)) {
                lemma_covers_more(route, path, i);
            }
        }
        lemma_nothing_covers(routes, path.take(i));
    }
}

/// A path that is a route is its own route. For any other the slash in front does not count, and
/// the route is the longest that is the path or that the path goes on behind with a slash; where
/// there is none, the catch-all is.
pub proof fn law_longest_route_comes_first(
    routes: Set<Seq<char>>,
    path: Seq<char>,
    route: Seq<char>,
)
    requires
        path.len() > 0 ==> path[0] != '/',
        !routes.contains(seq!['/'] + path),
    ensures
        longest_first_route(routes, seq!['/'] + path) == longest_first_route(routes, path),
        routes.contains(path) ==> longest_first_route(routes, path) == path,
        routes.contains(route) && covers(route, path) ==> {
            let found = longest_first_route(routes, path);
            routes.contains(found) && covers(found, path) && found.len() >= route.len()
        },
        (forall|r: Seq<char>| #[trigger] routes.contains(r) ==> !covers(r, path))
            ==> longest_first_route(routes, path) == "*"@,
        longest_first_route(routes.insert(seq!['/'] + path), seq!['/'] + path) == seq!['/'] + path,
{
    assert((seq!['/'] + path).skip(1) =~= path);
    if routes.contains(route) && covers(route, path) {
        law_longest_route(routes, path, route);
    }
    if forall|r: Seq<char>| #[trigger] routes.contains(r) ==> !covers(r, path) {
        lemma_nothing_covers(routes, path);
    }
}

/// The default resolver gives the segment behind the path's first slash, if it is a route, and
/// otherwise the catch-all, whatever follows in the path.
pub proof fn law_default_resolver(
    resolver: &DefaultRouteResolver,
    routes: &DashSet<String>,
    target: &String,
    segment: Seq<char>,
    rest: Seq<char>,
    r: String,
)
    requires
        call_ensures(DefaultRouteResolver::resolve, (resolver, routes, target), r),
        !segment.contains('/'),
        target@ == seq!['/'] + segment || target@ == seq!['/'] + segment + seq!['/'] + rest,
    ensures
        r@ == (if crate::dash::members(*routes).contains(segment) {
            segment
        } else {
            "*"@
        }),
{
    let routes = crate::dash::members(*routes);
    law_first_segment_is_the_route(routes, Seq::empty(), segment, rest);
    assert(Seq::<char>::empty() + seq!['/'] =~= seq!['/']);
}

/// The longest-first resolver gives the longest of the routes that are the path, or that the path
/// goes on behind with a slash; where there is none, the catch-all.
pub proof fn law_longest_first_resolver(
    resolver: &LongestFirstRouteResolver,
    routes: &DashSet<String>,
    target: &String,
    path: Seq<char>,
    route: Seq<char>,
    r: String,
)
    requires
        call_ensures(LongestFirstRouteResolver::resolve, (resolver, routes, target), r),
        path.len() > 0,
        path[0] != '/',
        target@ == path || target@ == seq!['/'] + path,
        !crate::dash::members(*routes).contains(seq!['/'] + path),
    ensures
        ({
            let all = crate::dash::members(*routes);
            let goes_on = |found: Seq<char>|
                found == path || (exists|more: Seq<char>|
                    path == #[trigger] (found + seq!['/'] + more));
            &&& (all.contains(r@) && goes_on(r@)) || r@ == "*"@
            &&& all.contains(route) && goes_on(route) ==> all.contains(r@) && goes_on(r@)
                && r@.len() >= route.len()
        }),
{
    let all = crate::dash::members(*routes);
    law_longest_route_comes_first(all, path, route);
    lemma_goes_on(r@, path);
    lemma_goes_on(route, path);
    if forall|r: Seq<char>| #[trigger] all.contains(r) ==> !covers(r, path) {
    } else {
        let some = choose|some: Seq<char>| #[trigger] all.contains(some) && covers(some, path);
        law_longest_route_comes_first(all, path, some);
    }
}

proof fn lemma_goes_on(found: Seq<char>, path: Seq<char>)
    ensures
        covers(found, path) <==> found == path || (exists|more: Seq<char>|
            path == #[trigger] (found + seq!['/'] + more)),
{
    let n = found.len() as int;
    if covers(found, path) && found != path {
        let more = path.skip(n + 1);
        assert(path =~= found + seq!['/'] + more);
    }
    if exists|more: Seq<char>| path == #[trigger] (found + seq!['/'] + more) {
        let more = choose|more: Seq<char>| path == #[trigger] (found + seq!['/'] + more);
        assert(path.take(n) =~= found);
        assert(path[n] == '/');
    }
}

/// A router without a resolver of its own finds routes as the default resolver does.
pub proof fn law_farm_resolves(
    farm: &WebSocketFarm,
    config: &CrankerRouterConfig,
    target: &String,
    segment: Seq<char>,
    rest: Seq<char>,
    r: String,
)
    requires
        call_ensures(WebSocketFarm::resolve_route, (farm, config, target), r),
        config.route_resolver is None,
        !segment.contains('/'),
        target@ == seq!['/'] + segment || target@ == seq!['/'] + segment + seq!['/'] + rest,
    ensures
        r@ == (if farm.state().routes.contains(segment) {
            segment
        } else {
            "*"@
        }),
{
    law_first_segment_is_the_route(farm.state().routes, Seq::empty(), segment, rest);
    assert(Seq::<char>::empty() + seq!['/'] =~= seq!['/']);
}

} // verus!
