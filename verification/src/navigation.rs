use vstd::prelude::*;

verus! {

/// A top-level screen of the client.
#[derive(Clone, Copy, Debug, PartialEq, Eq, Structural)]
pub enum Route {
    Home,
    Search,
    Library,
    Downloads,
    Settings,
}

impl Default for Route {
    fn default() -> (route: Route)
        ensures
            route == Route::Home,
    {
        Route::Home
    }
}

/// The abstract state of the navigation stack.
pub struct NavigationView {
    pub active: Route,
    pub history: Seq<Route>,
    pub search_query: Seq<char>,
}

/// Which screen is shown, how the user got there, and the search text that
/// survives moving between screens.
#[derive(Debug)]
pub struct NavigationState {
    active: Route,
    history: Vec<Route>,
    search_query: String,
}

/// Opening a route pushes the current one, unless it is already shown.
pub open spec fn spec_open(state: NavigationView, route: Route) -> NavigationView {
    if route == state.active {
        state
    } else {
        NavigationView {
            active: route,
            history: state.history.push(state.active),
            search_query: state.search_query,
        }
    }
}

/// Going back pops the most recent route, if there is one.
pub open spec fn spec_back(state: NavigationView) -> NavigationView {
    if state.history.len() == 0 {
        state
    } else {
        NavigationView {
            active: state.history.last(),
            history: state.history.drop_last(),
            search_query: state.search_query,
        }
    }
}

impl View for NavigationState {
    type V = NavigationView;

    closed spec fn view(&self) -> NavigationView {
        NavigationView { active: self.active, history: self.history@, search_query: self.search_query@ }
    }
}

impl Default for NavigationState {
    fn default() -> (state: NavigationState)
        ensures
            state@.active == Route::Home,
            state@.history.len() == 0,
            state@.search_query.len() == 0,
    {
        NavigationState { active: Route::Home, history: Vec::new(), search_query: String::new() }
    }
}

impl Clone for NavigationState {
    fn clone(&self) -> (copy: NavigationState)
        ensures
            copy@ == self@,
    {
        NavigationState { active: self.active, history: self.history.clone(), search_query: self.search_query.clone() }
    }
}

impl NavigationState {
    /// A navigation state with the given screen, trail of earlier screens and
    /// search text, as a client receives it.
    pub fn from_parts(active: Route, history: Vec<Route>, search_query: String) -> (state: NavigationState)
        ensures
            state@ == (NavigationView { active, history: history@, search_query: search_query@ }),
    {
        NavigationState { active, history, search_query }
    }

    /// The screen that is shown.
    pub fn active_route(&self) -> (route: Route)
        ensures
            route == self@.active,
    {
        self.active
    }

    /// The text in the search box.
    pub fn search_query(&self) -> (query: &str)
        ensures
            query@ == self@.search_query,
    {
        self.search_query.as_str()
    }

    /// The routes that `back` returns through, oldest first.
    pub fn history(&self) -> (history: &[Route])
        ensures
            history@ == self@.history,
    {
        self.history.as_slice()
    }

    /// Shows `route`, remembering the current screen unless it is `route` itself.
    pub fn open(&mut self, route: Route)
        ensures
            final(self)@ == spec_open(old(self)@, route),
    {
        if route == self.active {
            return;
        }
        self.history.push(self.active);
        self.active = route;
    }

    /// Returns to the most recently left screen; without history nothing changes.
    pub fn back(&mut self)
        ensures
            final(self)@ == spec_back(old(self)@),
    {
        if let Some(route) = self.history.pop() {
            self.active = route;
        }
    }

    /// Replaces the search text; the screen and history are unchanged.
    pub fn update_search(&mut self, query: &str)
        ensures
            final(self)@ == (NavigationView { search_query: query@, ..old(self)@ }),
    {
        self.search_query = query.to_owned();
    }
}

/// Opening a different screen and going back restores the previous state exactly.
pub proof fn lemma_back_undoes_open(state: NavigationView, route: Route)
    requires
        route != state.active,
    ensures
        spec_back(spec_open(state, route)) == state,
{
    assert(state.history.push(state.active).drop_last() =~= state.history);
}

/// Reopening the screen that is shown changes nothing.
pub proof fn lemma_open_is_idempotent(state: NavigationView, route: Route)
    ensures
        spec_open(spec_open(state, route), route) == spec_open(state, route),
        spec_open(state, state.active) == state,
{
}

/// Navigating never touches the search text.
pub proof fn lemma_navigation_keeps_search(state: NavigationView, route: Route)
    ensures
        spec_open(state, route).search_query == state.search_query,
        spec_back(state).search_query == state.search_query,
{
}

} // verus!
