//! Which route serves a path.

use crate::dash::set_contains;
use crate::text;
use dashmap::DashSet;
use vstd::prelude::*;

verus! {

/// The route that a path's first segment names, or the catch-all.
pub open spec fn first_segment_route(routes: Set<Seq<char>>, target: Seq<char>) -> Seq<char> {
    let segments = text::split(target, '/');
    if segments.len() >= 2 && routes.contains(segments[1]) {
        segments[1]
    } else {
        "*"@
    }
}

/// Algorithm for resolving route, which will decide which connector
/// socket to be used.
///
/// To choose a route for an HTTP path. Can be prefix matching or exact
/// matching.
///
/// See `DefaultRouteResolver` and `LongestFirstRouteResolver`
pub trait RouteResolver: Sync + Send {
    /// Whether the resolver can be asked for a path. One can be asked for any, unless it says
    /// otherwise.
    open spec fn accepts(&self, routes: Set<Seq<char>>, target: Seq<char>) -> bool {
        true
    }

    /// Whether the resolver can be asked for a path, given the routes. One can be asked for any,
    /// unless it says otherwise.
    fn can_resolve(&self, routes: &DashSet<String>, target: &String) -> (r: bool)
        default_ensures
            r,
    {
        true
    }

    /// Resolve the route which will decide which connector socket to be used.
    ///
    /// The default implementation using the first segment of the target and
    /// do an exact match. If no matching found, returning "*", a.k.a. a
    /// "catch all" wild card.
    /// * `routes` - All the existing routes in cranker
    /// * `target` - Client request uri path, e.g. /my-service/api
    fn resolve(&self, routes: &DashSet<String>, target: &String) -> (r: String)
        requires
            self.accepts(crate::dash::members(*routes), target@),
        default_ensures
            r@ == first_segment_route(crate::dash::members(*routes), target@),
    {
        let split = text::split_on(target.as_str(), '/');
        assert(text::texts(split@).len() == split@.len());
        if split.len() >= 2 {
            assert(text::texts(split@)[1] == split@[1]@);
            if set_contains(routes, split[1].as_str()) {
                return split[1].clone();
            }
        }
        "*".to_string()
    }
}

/// Whether a resolver may give this route for a path.
pub open spec fn may_resolve<'a, R: RouteResolver + ?Sized>(
    resolver: &'a R,
    routes: &'a DashSet<String>,
    target: &'a String,
    r: String,
) -> bool {
    call_ensures(R::resolve, (resolver, routes, target), r)
}

pub struct DefaultRouteResolver;

impl DefaultRouteResolver {
    pub fn new() -> (r: Self)
        ensures
            r == DefaultRouteResolver,
    {
        DefaultRouteResolver
    }
}

impl RouteResolver for DefaultRouteResolver {

}

/// A closure is a resolver: it is asked as it is.
impl<F: Send + Sync + 'static> RouteResolver for F where
    F: Fn(&DashSet<String>, &String) -> String,
 {
    open spec fn accepts(&self, routes: Set<Seq<char>>, target: Seq<char>) -> bool {
        forall|rs: &DashSet<String>, t: &String|
            crate::dash::members(*rs) == routes && t@ == target ==> call_requires(*self, (rs, t))
    }

    fn resolve(&self, routes: &DashSet<String>, target: &String) -> (r: String)
        ensures
            call_ensures(*self, (routes, target), r),
    {
        self(routes, target)
    }
}

/// The position of the last `pat`, or -1.
pub open spec fn last_index(s: Seq<char>, pat: char) -> int
    decreases s.len(),
{
    if s.len() == 0 {
        -1
    } else if s.last() == pat {
        s.len() - 1
    } else {
        last_index(s.drop_last(), pat)
    }
}

/// The first of a path, the path without its last segment and so on that is a route, or the
/// catch-all.
pub open spec fn longest_route(routes: Set<Seq<char>>, path: Seq<char>) -> Seq<char>
    decreases path.len(),
{
    if routes.contains(path) {
        path
    } else {
        let i = last_index(path, '/');
        if 0 <= i < path.len() {
            longest_route(routes, path.take(i))
        } else {
            "*"@
        }
    }
}

/// A path without the slash that it starts with.
pub open spec fn without_slash(target: Seq<char>) -> Seq<char> {
    if target.len() > 0 && target[0] == '/' {
        target.skip(1)
    } else {
        target
    }
}

/// The route that a [`LongestFirstRouteResolver`] finds.
pub open spec fn longest_first_route(routes: Set<Seq<char>>, target: Seq<char>) -> Seq<char> {
    if routes.contains(target) {
        target
    } else {
        longest_route(routes, without_slash(target))
    }
}

/// A route resolver which using the longest route to match from the
/// existing routes.
pub struct LongestFirstRouteResolver;

impl LongestFirstRouteResolver {
    pub fn new() -> (r: Self)
        ensures
            r == LongestFirstRouteResolver,
    {
        LongestFirstRouteResolver
    }

    /// The position of the last `pat`, or -1.
    pub fn last_index_of(str: &Vec<char>, pat: char) -> (r: i32)
        requires
            str@.len() <= i32::MAX,
        ensures
            r == last_index(str@, pat),
    {
        match Self::last_position(str, pat) {
            Some(i) => i as i32,
            None => -1,
        }
    }

    fn last_position(str: &Vec<char>, pat: char) -> (r: Option<usize>)
        ensures
            match r {
                Some(i) => i == last_index(str@, pat) && i < str@.len(),
                None => last_index(str@, pat) == -1,
            },
    {
        let mut n: usize = str.len();
        assert(str@.take(n as int) =~= str@);
        while n > 0
            invariant
                n <= str.len(),
                last_index(str@, pat) == last_index(str@.take(n as int), pat),
            decreases n,
        {
            assert(str@.take(n as int).last() == str@[n - 1]);
            if str[n - 1] == pat {
                return Some(n - 1);
            }
            assert(str@.take(n as int).drop_last() =~= str@.take(n - 1));
            n = n - 1;
        }
        assert(str@.take(0).len() == 0);
        None
    }

    pub fn vec_char_to_string(vec_char: &Vec<char>) -> (r: String)
        ensures
            r@ == vec_char@,
    {
        text::string_of(vec_char)
    }
}

impl RouteResolver for LongestFirstRouteResolver {
    open spec fn accepts(&self, routes: Set<Seq<char>>, target: Seq<char>) -> bool {
        target.len() > 0 || routes.contains(target)
    }

    fn can_resolve(&self, routes: &DashSet<String>, target: &String) -> (r: bool)
        ensures
            r == self.accepts(crate::dash::members(*routes), target@),
    {
        text::chars_of(target.as_str()).len() > 0 || set_contains(routes, target.as_str())
    }

    /// Algorithm: using the longest route to match from the existing
    /// routes.
    ///
    /// e.g. if request route is "/my-service/api/test" ,
    /// it will try below mapping one by one.
    ///
    /// 1. "my-service/api/test"
    /// 2. "my-service/api"
    /// 3. "my-service"
    ///
    /// If no matching found, use "*"
    fn resolve(&self, routes: &DashSet<String>, target: &String) -> (r: String)
        ensures
            r@ == longest_first_route(crate::dash::members(*routes), target@),
    {
        if set_contains(routes, target.as_str()) {
            return target.clone();
        }
        let chars = text::chars_of(target.as_str());
        let from: usize = if chars[0] == '/' {
            1
        } else {
            0
        };
        let whole = text::string_between(&chars, from, chars.len());
        let mut path = text::chars_of(whole.as_str());
        assert(path@ =~= without_slash(target@));
        let ghost set = crate::dash::members(*routes);
        loop
            invariant
                set == crate::dash::members(*routes),
                longest_first_route(set, target@) == longest_route(set, path@),
            decreases path@.len(),
        {
            let cur = Self::vec_char_to_string(&path);
            if set_contains(routes, cur.as_str()) {
                return cur;
            }
            match Self::last_position(&path, '/') {
                None => {
                    return "*".to_string();
                },
                Some(i) => {
                    path.truncate(i);
                },
            }
        }
    }
}

/// Whether a route covers a path: it is the path, or the path goes on behind it with a slash.
pub open spec fn covers(route: Seq<char>, path: Seq<char>) -> bool {
    ||| route == path
    ||| route.len() < path.len() && path.take(route.len() as int) == route
        && path[route.len() as int] == '/'
}

/// Where the last of a character stands in a text, if it stands there at all.
pub proof fn lemma_last_index(s: Seq<char>, pat: char)
    ensures
        -1 <= last_index(s, pat) < s.len(),
        last_index(s, pat) >= 0 ==> s[last_index(s, pat)] == pat,
        forall|j: int| last_index(s, pat) < j < s.len() ==> s[j] != pat,
    decreases s.len(),
{
    if s.len() > 0 && s.last() != pat {
        lemma_last_index(s.drop_last(), pat);
        assert forall|j: int| last_index(s, pat) < j < s.len() implies s[j] != pat by {
            if j < s.len() - 1 {
                assert(s.drop_last()[j] == s[j]);
            }
        }
    }
}

/// The route that is found for a path is the longest route that covers it; the catch-all is
/// given only when no route covers the path.
pub proof fn law_longest_route(routes: Set<Seq<char>>, path: Seq<char>, route: Seq<char>)
    requires
        routes.contains(route),
        covers(route, path),
    ensures
        routes.contains(longest_route(routes, path)),
        covers(longest_route(routes, path), path),
        longest_route(routes, path).len() >= route.len(),
    decreases path.len(),
{
    if !routes.contains(path) {
        lemma_last_index(path, '/');
        let i = last_index(path, '/');
        let n = route.len() as int;
        assert(path[n] == '/');
        assert(n <= i);
        let shorter = path.take(i);
        if n == i {
            assert(route =~= shorter);
        } else {
            assert(shorter.take(n) =~= path.take(n));
        }
        law_longest_route(routes, shorter, route);
        let found = longest_route(routes, shorter);
        if found != shorter {
            assert(path.take(found.len() as int) =~= shorter.take(found.len() as int));
        }
    }
}

/// What a resolver of this library finds is a route, or the catch-all.
pub proof fn law_resolved_is_route(routes: Set<Seq<char>>, target: Seq<char>)
    ensures
        routes.contains(first_segment_route(routes, target)) || first_segment_route(routes, target)
            == "*"@,
        routes.contains(longest_first_route(routes, target)) || longest_first_route(routes, target)
            == "*"@,
{
    lemma_found_is_route(routes, without_slash(target));
}

proof fn lemma_found_is_route(routes: Set<Seq<char>>, path: Seq<char>)
    ensures
        routes.contains(longest_route(routes, path)) || longest_route(routes, path) == "*"@,
    decreases path.len(),
{
    if !routes.contains(path) {
        let i = last_index(path, '/');
        if 0 <= i < path.len() {
            lemma_found_is_route(routes, path.take(i));
        }
    }
}

} // verus!
