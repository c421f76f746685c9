//! How a socket is picked for a client's request.

use crate::config::{CrankerRouterConfig, RouterSettings};
use crate::exceptions::{CrankerRouterException, CrexKind, ExceptionView};
use crate::net::{RequestUri, SocketAddr};
use crate::router_socket::RouterSocketInfo;
use crate::router_socket_filter::{DefaultRouterSocketFilter, RouterSocketFilter};
use crate::text;
use axum::http::HeaderMap;
use vstd::prelude::*;

verus! {

/// How far the search has come.
#[derive(Debug, Clone, Copy, PartialEq, Eq, Structural)]
pub enum SearchPhase {
    /// The sockets that match the path are asked for, and filtered.
    Filtering,
    /// The first socket that matches the path is asked for.
    FirstMatched,
    /// The first socket of the catch-all route is asked for.
    CatchAll,
    /// The search has ended.
    Ended,
}

/// Something that happens in the search.
#[derive(Debug)]
pub enum SearchEvent {
    /// A socket was received, but it exists no more.
    Dead,
    /// A socket was received. Its host may be in dark mode.
    Candidate { router_socket_id: String, is_removed: bool, is_dark: bool },
    /// The filter has answered about the socket that was received last.
    Filtered(bool),
    /// No more sockets come.
    NoMore,
}

/// One thing to be done in the search.
#[derive(Debug)]
pub enum SearchAction {
    /// Receive a socket of the route that matches the path.
    Receive,
    /// Receive a socket of the catch-all route.
    ReceiveCatchAll,
    /// Ask the filter about the socket that was received last.
    AskFilter,
    /// Put the socket that was received last back to those of the route.
    PutBack,
    /// Put the socket that was received last back to those of the catch-all route.
    PutBackCatchAll,
    /// Take the socket that was received last out of the farm.
    RemoveFromFarm,
    /// Use the socket that was received last.
    Use,
    /// Give up.
    Fail(CrankerRouterException),
}

/// What an action is about.
#[verifier::ext_equal]
pub enum SearchActionView {
    Receive,
    ReceiveCatchAll,
    AskFilter,
    PutBack,
    PutBackCatchAll,
    RemoveFromFarm,
    Use,
    Fail(ExceptionView),
}

impl View for SearchAction {
    type V = SearchActionView;

    open spec fn view(&self) -> SearchActionView {
        match self {
            SearchAction::Receive => SearchActionView::Receive,
            SearchAction::ReceiveCatchAll => SearchActionView::ReceiveCatchAll,
            SearchAction::AskFilter => SearchActionView::AskFilter,
            SearchAction::PutBack => SearchActionView::PutBack,
            SearchAction::PutBackCatchAll => SearchActionView::PutBackCatchAll,
            SearchAction::RemoveFromFarm => SearchActionView::RemoveFromFarm,
            SearchAction::Use => SearchActionView::Use,
            SearchAction::Fail(e) => SearchActionView::Fail(e@),
        }
    }
}

/// What the actions of a sequence are about.
pub open spec fn search_actions(v: Seq<SearchAction>) -> Seq<SearchActionView> {
    v.map_values(|a: SearchAction| a@)
}

/// A search for a socket.
#[derive(Debug)]
pub struct SocketSearch {
    pub target_path: String,
    pub phase: SearchPhase,
    /// The identifiers of the sockets that were received in this phase and are not to come
    /// again.
    pub visited: Vec<String>,
    /// Whether, when no socket passes, the first that matches the path is used.
    pub fallback_to_first: bool,
    /// Whether, when no socket that matches the path is used, one of the catch-all route is.
    pub fallback_to_catch_all: bool,
}

/// What a [`SocketSearch`] holds.
#[verifier::ext_equal]
pub struct SearchView {
    pub target_path: Seq<char>,
    pub phase: SearchPhase,
    pub visited: Seq<Seq<char>>,
    pub fallback_to_first: bool,
    pub fallback_to_catch_all: bool,
}

impl View for SocketSearch {
    type V = SearchView;

    open spec fn view(&self) -> SearchView {
        SearchView {
            target_path: self.target_path@,
            phase: self.phase,
            visited: text::texts(self.visited@),
            fallback_to_first: self.fallback_to_first,
            fallback_to_catch_all: self.fallback_to_catch_all,
        }
    }
}

/// What comes of an event in the search.
#[verifier::ext_equal]
pub struct SearchStep {
    pub state: SearchView,
    pub actions: Seq<SearchActionView>,
}

/// What happened in the search.
#[verifier::ext_equal]
pub enum SearchEventView {
    Dead,
    Candidate { id: Seq<char>, is_removed: bool, is_dark: bool },
    Filtered(bool),
    NoMore,
}

impl View for SearchEvent {
    type V = SearchEventView;

    open spec fn view(&self) -> SearchEventView {
        match self {
            SearchEvent::Dead => SearchEventView::Dead,
            SearchEvent::Candidate { router_socket_id, is_removed, is_dark } =>
                SearchEventView::Candidate {
                    id: router_socket_id@,
                    is_removed: *is_removed,
                    is_dark: *is_dark,
                },
            SearchEvent::Filtered(b) => SearchEventView::Filtered(*b),
            SearchEvent::NoMore => SearchEventView::NoMore,
        }
    }
}

impl SearchView {
    /// The error of a search in which no socket was found to be fit.
    pub open spec fn no_fit(self) -> ExceptionView {
        ExceptionView::of(
            "No valid cranker connector registered after filtering, target path = "@
                + self.target_path + " "@,
        ).with_err_kind(CrexKind::NoRouterSocketAvailable_0002)
    }

    /// The search has ended without a socket.
    pub open spec fn give_up(self, first: Seq<SearchActionView>) -> SearchStep {
        SearchStep {
            state: SearchView { phase: SearchPhase::Ended, ..self },
            actions: first.push(SearchActionView::Fail(self.no_fit())),
        }
    }

    /// No socket that matches the path is used.
    pub open spec fn fall_back_to_catch_all(
        self,
        first: Seq<SearchActionView>,
        catch_all_exists: bool,
    ) -> SearchStep {
        if self.fallback_to_catch_all && catch_all_exists {
            SearchStep {
                state: SearchView {
                    phase: SearchPhase::CatchAll,
                    visited: Seq::empty(),
                    ..self
                },
                actions: first.push(SearchActionView::ReceiveCatchAll),
            }
        } else {
            self.give_up(first)
        }
    }

    /// No socket has passed the filter.
    pub open spec fn fall_back(
        self,
        first: Seq<SearchActionView>,
        catch_all_exists: bool,
    ) -> SearchStep {
        if self.fallback_to_first {
            SearchStep {
                state: SearchView {
                    phase: SearchPhase::FirstMatched,
                    visited: Seq::empty(),
                    ..self
                },
                actions: first.push(SearchActionView::Receive),
            }
        } else {
            self.fall_back_to_catch_all(first, catch_all_exists)
        }
    }

    /// The search goes on as it is.
    pub open spec fn next(self, first: Seq<SearchActionView>) -> SearchStep {
        SearchStep {
            state: self,
            actions: first.push(
                if self.phase is CatchAll {
                    SearchActionView::ReceiveCatchAll
                } else {
                    SearchActionView::Receive
                },
            ),
        }
    }

    /// The socket that was received last is used.
    pub open spec fn found(self) -> SearchStep {
        SearchStep {
            state: SearchView { phase: SearchPhase::Ended, ..self },
            actions: seq![SearchActionView::Use],
        }
    }

    /// A socket was received that need not pass the filter. One whose host is in dark mode is put
    /// back; when it has come round, there is no other.
    pub open spec fn unfiltered(
        self,
        id: Seq<char>,
        is_removed: bool,
        is_dark: bool,
        catch_all_exists: bool,
    ) -> SearchStep {
        if is_removed {
            self.next(seq![SearchActionView::RemoveFromFarm])
        } else if !is_dark {
            self.found()
        } else if !self.visited.contains(id) {
            SearchView { visited: self.visited.push(id), ..self }.next(
                seq![
                    if self.phase is CatchAll {
                        SearchActionView::PutBackCatchAll
                    } else {
                        SearchActionView::PutBack
                    },
                ],
            )
        } else if self.phase is CatchAll {
            self.give_up(seq![SearchActionView::PutBackCatchAll])
        } else {
            self.fall_back_to_catch_all(seq![SearchActionView::PutBack], catch_all_exists)
        }
    }

    /// What comes of an event. A socket that comes a second time while filtering has come round:
    /// every other has been asked about before it. One whose host is in dark mode is not used.
    pub open spec fn step(self, ev: SearchEventView, catch_all_exists: bool) -> SearchStep {
        match (self.phase, ev) {
            (SearchPhase::Ended, _) => SearchStep { state: self, actions: Seq::empty() },
            (_, SearchEventView::Dead) => self.next(Seq::empty()),
            (SearchPhase::Filtering, SearchEventView::NoMore) => self.fall_back(
                Seq::empty(),
                catch_all_exists,
            ),
            (SearchPhase::FirstMatched, SearchEventView::NoMore) => self.fall_back_to_catch_all(
                Seq::empty(),
                catch_all_exists,
            ),
            (SearchPhase::CatchAll, SearchEventView::NoMore) => self.give_up(Seq::empty()),
            (SearchPhase::Filtering, SearchEventView::Candidate { id, is_removed, is_dark }) =>
                if self.visited.contains(id) {
                    self.fall_back(seq![SearchActionView::PutBack], catch_all_exists)
                } else {
                    let s = SearchView { visited: self.visited.push(id), ..self };
                    if is_removed {
                        s.next(seq![SearchActionView::RemoveFromFarm])
                    } else if is_dark {
                        s.next(seq![SearchActionView::PutBack])
                    } else {
                        SearchStep { state: s, actions: seq![SearchActionView::AskFilter] }
                    }
                },
            (_, SearchEventView::Candidate { id, is_removed, is_dark }) => self.unfiltered(
                id,
                is_removed,
                is_dark,
                catch_all_exists,
            ),
            (SearchPhase::Filtering, SearchEventView::Filtered(true)) => self.found(),
            (SearchPhase::Filtering, SearchEventView::Filtered(false)) => self.next(
                seq![SearchActionView::PutBack],
            ),
            (_, SearchEventView::Filtered(_)) => SearchStep { state: self, actions: Seq::empty() },
        }
    }
}

/// Whether a filter may say this of a socket for a request.
pub open spec fn may_use<'a, F: RouterSocketFilter + ?Sized>(
    f: &'a F,
    target_path: &'a String,
    method: &'a String,
    original_uri: &'a RequestUri,
    headers: &'a HeaderMap,
    addr: &'a SocketAddr,
    settings: &'a RouterSettings,
    router_socket: &'a RouterSocketInfo,
    r: bool,
) -> bool {
    call_ensures(
        F::should_use,
        (f, target_path, method, original_uri, headers, addr, settings, router_socket),
        r,
    )
}

/// Whether a filter may say this of falling back to the first socket that matches a path.
pub open spec fn may_fall_back_to_first<F: RouterSocketFilter + ?Sized>(f: &F, r: bool) -> bool {
    call_ensures(F::should_fallback_to_first_path_matched, (f,), r)
}

/// Whether a filter may say this of falling back to the catch-all route.
pub open spec fn may_fall_back_to_catch_all<F: RouterSocketFilter + ?Sized>(
    f: &F,
    r: bool,
) -> bool {
    call_ensures(F::should_fallback_to_catch_all, (f,), r)
}

impl CrankerRouterConfig {
    /// Whether the filter lets a socket pass: what the configured filter says of it.
    pub fn should_use(
        &self,
        target_path: &String,
        method: &String,
        original_uri: &RequestUri,
        headers: &HeaderMap,
        addr: &SocketAddr,
        router_socket: &RouterSocketInfo,
    ) -> (r: bool)
        ensures
            match self.router_socket_filter {
                Some(f) => may_use(
                    &*f,
                    target_path,
                    method,
                    original_uri,
                    headers,
                    addr,
                    &self.settings,
                    router_socket,
                    r,
                ),
                None => r,
            },
    {
        match &self.router_socket_filter {
            Some(f) => f.should_use(
                target_path,
                method,
                original_uri,
                headers,
                addr,
                &self.settings,
                router_socket,
            ),
            None => DefaultRouterSocketFilter::new().should_use(
                target_path,
                method,
                original_uri,
                headers,
                addr,
                &self.settings,
                router_socket,
            ),
        }
    }

    /// Starts the search for a socket for a path, whose route is there. The configured filter says
    /// where the search may fall back to; to the catch-all only if that is allowed.
    pub fn start_search(&self, target_path: String) -> (r: SocketSearch)
        ensures
            r@.target_path == target_path@,
            r@.phase is Filtering,
            r@.visited == Seq::<Seq<char>>::empty(),
            match self.router_socket_filter {
                Some(f) => {
                    &&& may_fall_back_to_first(&*f, r@.fallback_to_first)
                    &&& self.settings.allow_catch_all ==> may_fall_back_to_catch_all(
                        &*f,
                        r@.fallback_to_catch_all,
                    )
                },
                None => !r@.fallback_to_first && !r@.fallback_to_catch_all,
            },
            !self.settings.allow_catch_all ==> !r@.fallback_to_catch_all,
    {
        let (fallback_to_first, fallback_to_catch_all) = match &self.router_socket_filter {
            Some(f) => (
                f.should_fallback_to_first_path_matched(),
                f.should_fallback_to_catch_all(),
            ),
            None => {
                let f = DefaultRouterSocketFilter::new();
                (f.should_fallback_to_first_path_matched(), f.should_fallback_to_catch_all())
            },
        };
        SocketSearch::start(
            target_path,
            fallback_to_first,
            self.settings.allow_catch_all && fallback_to_catch_all,
        )
    }
}

impl SocketSearch {
    /// Starts a search. The first thing to do is to receive a socket of the route.
    pub fn start(
        target_path: String,
        fallback_to_first: bool,
        fallback_to_catch_all: bool,
    ) -> (r: Self)
        ensures
            r@ == (SearchView {
                target_path: target_path@,
                phase: SearchPhase::Filtering,
                visited: Seq::empty(),
                fallback_to_first,
                fallback_to_catch_all,
            }),
    {
        let r = SocketSearch {
            target_path,
            phase: SearchPhase::Filtering,
            visited: Vec::new(),
            fallback_to_first,
            fallback_to_catch_all,
        };
        assert(text::texts(r.visited@) =~= Seq::empty());
        r
    }

    fn is_visited(&self, id: &str) -> (r: bool)
        ensures
            r == self@.visited.contains(id@),
    {
        let mut i: usize = 0;
        while i < self.visited.len()
            invariant
                i <= self.visited.len(),
                forall|j: int| 0 <= j < i ==> #[trigger] text::texts(self.visited@)[j] != id@,
            decreases self.visited.len() - i,
        {
            assert(text::texts(self.visited@)[i as int] == self.visited@[i as int]@);
            if text::str_eq(self.visited[i].as_str(), id) {
                return true;
            }
            i = i + 1;
        }
        false
    }

    fn give_up(&mut self, out: &mut Vec<SearchAction>)
        ensures
            (SearchStep { state: final(self)@, actions: search_actions(final(out)@) })
                == old(self)@.give_up(search_actions(old(out)@)),
    {
        self.phase = SearchPhase::Ended;
        let mut reason = text::concat(
            "No valid cranker connector registered after filtering, target path = ",
            self.target_path.as_str(),
        );
        reason.push_str(" ");
        let e = CrankerRouterException::new(reason).with_err_kind(
            CrexKind::NoRouterSocketAvailable_0002,
        );
        out.push(SearchAction::Fail(e));
        assert(search_actions(out@) =~= old(self)@.give_up(search_actions(old(out)@)).actions);
        assert(self@ =~= old(self)@.give_up(search_actions(old(out)@)).state);
    }

    fn fall_back_to_catch_all(&mut self, catch_all_exists: bool, out: &mut Vec<SearchAction>)
        ensures
            (SearchStep { state: final(self)@, actions: search_actions(final(out)@) })
                == old(self)@.fall_back_to_catch_all(search_actions(old(out)@), catch_all_exists),
    {
        if self.fallback_to_catch_all && catch_all_exists {
            self.phase = SearchPhase::CatchAll;
            self.visited = Vec::new();
            out.push(SearchAction::ReceiveCatchAll);
            assert(search_actions(out@) =~= search_actions(old(out)@).push(
                SearchActionView::ReceiveCatchAll,
            ));
            assert(self@ =~= (SearchView {
                phase: SearchPhase::CatchAll,
                visited: Seq::empty(),
                ..old(self)@
            }));
        } else {
            self.give_up(out);
        }
    }

    fn fall_back(&mut self, catch_all_exists: bool, out: &mut Vec<SearchAction>)
        ensures
            (SearchStep { state: final(self)@, actions: search_actions(final(out)@) })
                == old(self)@.fall_back(search_actions(old(out)@), catch_all_exists),
    {
        if self.fallback_to_first {
            self.phase = SearchPhase::FirstMatched;
            self.visited = Vec::new();
            out.push(SearchAction::Receive);
            assert(search_actions(out@) =~= search_actions(old(out)@).push(
                SearchActionView::Receive,
            ));
            assert(self@ =~= (SearchView {
                phase: SearchPhase::FirstMatched,
                visited: Seq::empty(),
                ..old(self)@
            }));
        } else {
            self.fall_back_to_catch_all(catch_all_exists, out);
        }
    }

    fn next(&self, out: &mut Vec<SearchAction>)
        ensures
            (SearchStep { state: self@, actions: search_actions(final(out)@) }) == self@.next(
                search_actions(old(out)@),
            ),
    {
        match self.phase {
            SearchPhase::CatchAll => {
                out.push(SearchAction::ReceiveCatchAll);
            },
            _ => {
                out.push(SearchAction::Receive);
            },
        }
        assert(search_actions(out@) =~= self@.next(search_actions(old(out)@)).actions);
    }

    fn found(&mut self, out: &mut Vec<SearchAction>)
        requires
            old(out)@.len() == 0,
        ensures
            (SearchStep { state: final(self)@, actions: search_actions(final(out)@) })
                == old(self)@.found(),
    {
        self.phase = SearchPhase::Ended;
        out.push(SearchAction::Use);
        assert(search_actions(out@) =~= seq![SearchActionView::Use]);
        assert(self@ =~= (SearchView { phase: SearchPhase::Ended, ..old(self)@ }));
    }

    fn visit(&mut self, id: String)
        ensures
            final(self)@ == (SearchView { visited: old(self)@.visited.push(id@), ..old(self)@ }),
    {
        self.visited.push(id);
        assert(text::texts(self.visited@) =~= text::texts(old(self).visited@).push(id@));
        assert(self@ =~= (SearchView { visited: old(self)@.visited.push(id@), ..old(self)@ }));
    }

    fn unfiltered(
        &mut self,
        id: String,
        is_removed: bool,
        is_dark: bool,
        catch_all_exists: bool,
        out: &mut Vec<SearchAction>,
    )
        requires
            old(out)@.len() == 0,
        ensures
            (SearchStep { state: final(self)@, actions: search_actions(final(out)@) })
                == old(self)@.unfiltered(id@, is_removed, is_dark, catch_all_exists),
    {
        if is_removed {
            out.push(SearchAction::RemoveFromFarm);
            assert(search_actions(out@) =~= seq![SearchActionView::RemoveFromFarm]);
            self.next(out);
            return;
        }
        if !is_dark {
            self.found(out);
            return;
        }
        let in_catch_all = self.phase == SearchPhase::CatchAll;
        if in_catch_all {
            out.push(SearchAction::PutBackCatchAll);
            assert(search_actions(out@) =~= seq![SearchActionView::PutBackCatchAll]);
        } else {
            out.push(SearchAction::PutBack);
            assert(search_actions(out@) =~= seq![SearchActionView::PutBack]);
        }
        if !self.is_visited(id.as_str()) {
            self.visit(id);
            self.next(out);
        } else if in_catch_all {
            self.give_up(out);
        } else {
            self.fall_back_to_catch_all(catch_all_exists, out);
        }
    }

    /// Takes an event of the search. What is to be done next is returned.
    pub fn on_event(&mut self, ev: SearchEvent, catch_all_exists: bool) -> (r: Vec<SearchAction>)
        ensures
            final(self)@ == old(self)@.step(ev@, catch_all_exists).state,
            search_actions(r@) == old(self)@.step(ev@, catch_all_exists).actions,
    {
        let mut out: Vec<SearchAction> = Vec::new();
        assert(search_actions(out@) =~= Seq::empty());
        match self.phase {
            SearchPhase::Ended => {
                return out;
            },
            _ => {},
        }
        match ev {
            SearchEvent::Dead => {
                self.next(&mut out);
            },
            SearchEvent::NoMore => match self.phase {
                SearchPhase::Filtering => {
                    self.fall_back(catch_all_exists, &mut out);
                },
                SearchPhase::FirstMatched => {
                    self.fall_back_to_catch_all(catch_all_exists, &mut out);
                },
                _ => {
                    self.give_up(&mut out);
                },
            },
            SearchEvent::Candidate { router_socket_id, is_removed, is_dark } => match self.phase {
                SearchPhase::Filtering => {
                    if self.is_visited(router_socket_id.as_str()) {
                        out.push(SearchAction::PutBack);
                        assert(search_actions(out@) =~= seq![SearchActionView::PutBack]);
                        self.fall_back(catch_all_exists, &mut out);
                    } else {
                        self.visit(router_socket_id);
                        if is_removed {
                            out.push(SearchAction::RemoveFromFarm);
                            assert(search_actions(out@) =~= seq![SearchActionView::RemoveFromFarm]);
                            self.next(&mut out);
                        } else if is_dark {
                            out.push(SearchAction::PutBack);
                            assert(search_actions(out@) =~= seq![SearchActionView::PutBack]);
                            self.next(&mut out);
                        } else {
                            out.push(SearchAction::AskFilter);
                            assert(search_actions(out@) =~= seq![SearchActionView::AskFilter]);
                        }
                    }
                },
                _ => {
                    self.unfiltered(
                        router_socket_id,
                        is_removed,
                        is_dark,
                        catch_all_exists,
                        &mut out,
                    );
                },
            },
            SearchEvent::Filtered(should_use) => match self.phase {
                SearchPhase::Filtering => {
                    if should_use {
                        self.found(&mut out);
                    } else {
                        out.push(SearchAction::PutBack);
                        assert(search_actions(out@) =~= seq![SearchActionView::PutBack]);
                        self.next(&mut out);
                    }
                },
                _ => {},
            },
        }
        out
    }
}

/// A socket that exists no more, or that was removed, is never used.
pub proof fn law_no_removed_socket_is_used(
    s: SearchView,
    ev: SearchEventView,
    catch_all_exists: bool,
)
    requires
        ev is Dead || (ev is Candidate && ev->is_removed),
    ensures
        !s.step(ev, catch_all_exists).actions.contains(SearchActionView::Use),
        !s.step(ev, catch_all_exists).actions.contains(SearchActionView::AskFilter),
{
}

/// No request is sent to a host that is in dark mode: a socket of one is not used, the filter is
/// not asked about it, and unless it was removed it is put back for later.
pub proof fn law_dark_host_gets_no_request(
    s: SearchView,
    ev: SearchEventView,
    catch_all_exists: bool,
)
    requires
        ev is Candidate && ev->is_dark,
    ensures
        !s.step(ev, catch_all_exists).actions.contains(SearchActionView::Use),
        !s.step(ev, catch_all_exists).actions.contains(SearchActionView::AskFilter),
        !(s.phase is Ended) && !ev->is_removed ==> s.step(ev, catch_all_exists).actions[0] == (
        if s.phase is CatchAll {
            SearchActionView::PutBackCatchAll
        } else {
            SearchActionView::PutBack
        }),
{
}

/// No socket is asked about twice: the filter is asked only about one that has not come before,
/// and it is remembered.
pub proof fn law_each_socket_is_asked_once(
    s: SearchView,
    ev: SearchEventView,
    catch_all_exists: bool,
)
    requires
        s.visited.no_duplicates(),
    ensures
        s.step(ev, catch_all_exists).state.visited.no_duplicates(),
        s.step(ev, catch_all_exists).actions.contains(SearchActionView::AskFilter) ==> {
            &&& ev is Candidate
            &&& !s.visited.contains(ev->id)
            &&& s.step(ev, catch_all_exists).state.visited == s.visited.push(ev->id)
        },
{
}

/// With a filter that lets all pass, the first socket that comes, has not been removed and is
/// of no host in dark mode is used.
pub proof fn law_first_come_is_used(s: SearchView, id: Seq<char>, catch_all_exists: bool)
    requires
        s.phase is Filtering,
        s.visited.len() == 0,
    ensures
        ({
            let asked = s.step(
                SearchEventView::Candidate { id, is_removed: false, is_dark: false },
                catch_all_exists,
            );
            &&& asked.actions == seq![SearchActionView::AskFilter]
            &&& asked.state.step(SearchEventView::Filtered(true), catch_all_exists).actions == seq![
                SearchActionView::Use,
            ]
        }),
{
}

} // verus!
