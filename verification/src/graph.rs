use vstd::prelude::*;
use crate::context::Context;
use crate::error::{Error, LoadError};
use crate::serde_state::SerDeState;
use crate::source::{ConfigSource, Sources};
use crate::option::StateOption;
use crate::state::{recognized, ContextState, OptionsState, State, StateHolder};
use crate::status::{InputStatus, OutputStatus, StatusLike};

verus! {

/// One line of the memo of loaded descriptions: the step that was built from
/// the description under `path`.
#[derive(Debug, Clone, PartialEq, Eq)]
pub struct CacheEntry {
    pub path: String,
    pub state: usize,
}

/// Whether `id` is a step of `nodes`, and no placeholder.
pub open spec fn is_step(nodes: Seq<State>, id: int) -> bool {
    0 <= id < nodes.len() && !(nodes[id] is StateHolder)
}

/// An option leads, if anywhere, to a node that exists.
pub open spec fn target_ok(nodes: Seq<State>, option: StateOption) -> bool {
    option.state matches Some(t) ==> t < nodes.len()
}

/// A field that is answered in a menu names a menu that exists.
pub open spec fn menu_ok(nodes: Seq<State>, context: Context) -> bool {
    context.spec_menu() matches Some(m) ==> m < nodes.len() && nodes[m as int] is OptionsState
}

/// What has to hold of `state` for it to stand at position `i` of `nodes`:
/// its parent is a step that stands before it, so that the parents form a
/// tree; the nodes it refers to exist; its index is within its fields.
pub open spec fn fits(nodes: Seq<State>, state: State, i: int) -> bool {
    &&& state.spec_parent() matches Some(p) ==> p < i && is_step(nodes, p as int)
    &&& match state {
        State::OptionsState(o) => forall|j: int|
            0 <= j < o.options@.len() ==> target_ok(nodes, #[trigger] o.options@[j]),
        State::ContextState(c) => {
            &&& c.index <= c.contexts@.len()
            &&& c.next matches Some(t) ==> t < nodes.len()
            &&& forall|j: int|
                0 <= j < c.contexts@.len() ==> menu_ok(nodes, #[trigger] c.contexts@[j])
        },
        State::StateHolder(h) => h.state matches Some(s) ==> is_step(nodes, s as int),
    }
}

/// The node `i` of `nodes` fits where it stands.
pub open spec fn node_ok(nodes: Seq<State>, i: int) -> bool {
    fits(nodes, nodes[i], i)
}

/// Every node of `nodes` is in order.
pub open spec fn nodes_ok(nodes: Seq<State>) -> bool {
    forall|i: int| 0 <= i < nodes.len() ==> #[trigger] node_ok(nodes, i)
}

/// No path stands twice in the memo, and every line of it names a step.
pub open spec fn cache_ok(nodes: Seq<State>, cache: Seq<CacheEntry>) -> bool {
    &&& forall|k: int| 0 <= k < cache.len() ==> is_step(nodes, (#[trigger] cache[k]).state as int)
    &&& forall|j: int, k: int|
        0 <= j < cache.len() && 0 <= k < cache.len() && j != k ==> (#[trigger] cache[j]).path@
            != (#[trigger] cache[k]).path@
}

/// A placeholder that has been replaced stands for the step that the memo
/// holds for its path.
pub open spec fn memo_ok(nodes: Seq<State>, cache: Seq<CacheEntry>) -> bool {
    forall|i: int|
        0 <= i < nodes.len() ==> (#[trigger] nodes[i] matches State::StateHolder(h) ==> (h.state is Some
            ==> cached(cache, h.path@) == h.state))
}

/// The step that the memo holds for `path`.
pub open spec fn cached(cache: Seq<CacheEntry>, path: Seq<char>) -> Option<usize> {
    if exists|k: int| 0 <= k < cache.len() && (#[trigger] cache[k]).path@ == path {
        let k = choose|k: int| 0 <= k < cache.len() && (#[trigger] cache[k]).path@ == path;
        Some(cache[k].state)
    } else {
        None
    }
}

/// Every node of `before` is of the same kind in `after`.
pub open spec fn same_kinds(before: Seq<State>, after: Seq<State>) -> bool {
    &&& before.len() <= after.len()
    &&& forall|i: int|
        0 <= i < before.len() ==> {
            &&& (#[trigger] before[i] is OptionsState) == (after[i] is OptionsState)
            &&& (before[i] is ContextState) == (after[i] is ContextState)
            &&& (before[i] is StateHolder) == (after[i] is StateHolder)
        }
}

/// What `t` stands for in `nodes`: itself, if it is a step; the step that a
/// placeholder has been replaced by, if it has been.
pub open spec fn settled(nodes: Seq<State>, t: int) -> Option<usize> {
    match nodes[t] {
        State::StateHolder(h) => h.state,
        _ => Some(t as usize),
    }
}

/// `nodes` after the placeholder `t`, if it is one, has taken note of the
/// step `s` that replaces it.
pub open spec fn remembered(nodes: Seq<State>, t: int, s: usize) -> Seq<State> {
    match nodes[t] {
        State::StateHolder(h) => nodes.update(
            t,
            State::StateHolder(StateHolder { state: Some(s), ..h }),
        ),
        _ => nodes,
    }
}

/// `nodes` after the step `id` has started over, and the step that follows
/// it, and so on, for `fuel` steps at most. Only steps that ask for fields
/// start over, and the chain ends at the first node that is none.
pub open spec fn restarted_from(nodes: Seq<State>, id: int, fuel: nat) -> Seq<State>
    decreases fuel,
{
    if fuel == 0 || !(0 <= id < nodes.len()) {
        nodes
    } else {
        match nodes[id] {
            State::ContextState(c) => {
                let here = nodes.update(id, nodes[id].restarted());
                match c.next {
                    Some(n) => restarted_from(here, n as int, (fuel - 1) as nat),
                    None => here,
                }
            },
            _ => nodes,
        }
    }
}

/// Starting over keeps a graph in order and changes no node's kind.
pub proof fn restarted_from_keeps_order(nodes: Seq<State>, id: int, fuel: nat)
    requires
        nodes_ok(nodes),
    ensures
        nodes_ok(restarted_from(nodes, id, fuel)),
        same_kinds(nodes, restarted_from(nodes, id, fuel)),
        restarted_from(nodes, id, fuel).len() == nodes.len(),
        forall|i: int|
            0 <= i < nodes.len() ==> {
                let after = #[trigger] restarted_from(nodes, id, fuel)[i];
                after == nodes[i] || after == nodes[i].restarted()
            },
    decreases fuel,
{
    if fuel == 0 || !(0 <= id < nodes.len()) {
    } else {
        match nodes[id] {
            State::ContextState(c) => {
                let here = nodes.update(id, nodes[id].restarted());
                assert forall|i: int| 0 <= i < here.len() implies #[trigger] node_ok(here, i) by {
                    assert(node_ok(nodes, i));
                }
                assert(same_kinds(nodes, here));
                match c.next {
                    Some(n) => {
                        restarted_from_keeps_order(here, n as int, (fuel - 1) as nat);
                        let last = restarted_from(here, n as int, (fuel - 1) as nat);
                        assert forall|i: int| 0 <= i < nodes.len() implies {
                            &&& (#[trigger] nodes[i] is OptionsState) == (last[i] is OptionsState)
                            &&& (nodes[i] is ContextState) == (last[i] is ContextState)
                            &&& (nodes[i] is StateHolder) == (last[i] is StateHolder)
                        } by {
                            assert((here[i] is OptionsState) == (last[i] is OptionsState));
                        }
                        assert forall|i: int| 0 <= i < nodes.len() implies {
                            let after = #[trigger] last[i];
                            after == nodes[i] || after == nodes[i].restarted()
                        } by {
                            assert(last[i] == here[i] || last[i] == here[i].restarted());
                        }
                    },
                    None => {},
                }
            },
            _ => {},
        }
    }
}

/// How deep descriptions may be nested that are loaded while a flow is
/// walked through.
pub const LOAD_DEPTH: usize = 32;

/// `nodes` after the node `t` was entered and found to stand for the step
/// `s`: a placeholder has taken note of the step, and the step has started
/// over if `reset` says so.
pub open spec fn arrived(nodes: Seq<State>, t: int, s: usize, reset: bool) -> Seq<State> {
    let noted = remembered(nodes, t, s);
    if reset {
        restarted_from(noted, s as int, noted.len())
    } else {
        noted
    }
}

/// Between `before` and `after`, no node but `t` has changed but for
/// starting over, and none at all unless `reset`.
pub open spec fn others_kept(before: Seq<State>, after: Seq<State>, t: int, reset: bool) -> bool {
    &&& before.len() <= after.len()
    &&& forall|i: int|
        0 <= i < before.len() && i != t ==> {
            let now = #[trigger] after[i];
            now == before[i] || (reset && now == before[i].restarted())
        }
}

/// By how much a parent's index goes back when `child` is left for it: by 1
/// where one field led on to the next step, by 2 where a menu is left or was
/// the way in.
pub open spec fn way_back(child: State, parent: State) -> usize {
    if child is ContextState && parent is ContextState {
        1
    } else {
        2
    }
}

/// The node `id` of `nodes` is a step as some description says it, under
/// `parent`, with all that the description writes out inside it.
pub open spec fn described(nodes: Seq<State>, id: usize, parent: Option<usize>) -> bool {
    exists|description: SerDeState| #[trigger] description.built(nodes, id, parent)
}

/// A flow: its steps and placeholders, each known by its position, and the
/// memo of the descriptions that were loaded.
#[derive(Debug)]
pub struct Graph {
    nodes: Vec<State>,
    /// One line for each path that was loaded, with no path twice. Paths are
    /// told apart letter by letter, so that what the memo holds for a path
    /// rests on nothing but the paths themselves.
    cache: Vec<CacheEntry>,
}

impl Graph {
    /// The nodes, by position.
    pub closed spec fn states(&self) -> Seq<State> {
        self.nodes@
    }

    /// The memo, in the order in which the descriptions were loaded.
    pub closed spec fn entries(&self) -> Seq<CacheEntry> {
        self.cache@
    }

    /// The graph is in order.
    pub open spec fn wf(&self) -> bool {
        &&& nodes_ok(self.states())
        &&& cache_ok(self.states(), self.entries())
        &&& memo_ok(self.states(), self.entries())
    }

    /// `self` is `before` with nodes and lines of the memo added at the end.
    pub open spec fn extends(&self, before: &Graph) -> bool {
        &&& before.states().len() <= self.states().len()
        &&& forall|i: int|
            0 <= i < before.states().len() ==> #[trigger] self.states()[i] == before.states()[i]
        &&& before.entries().len() <= self.entries().len()
        &&& forall|k: int|
            0 <= k < before.entries().len() ==> #[trigger] self.entries()[k] == before.entries()[k]
    }

    /// Finding what `t` stands for asks no source, of `n` that there are: the
    /// graph knows the step, or the source that `t` names is not there.
    pub open spec fn asks_nothing(&self, t: int, n: nat) -> bool {
        self.known(t) is Some || self.states()[t]->StateHolder_0.which_function >= n
    }

    /// What the sources were asked between `before` and `after` is what
    /// finding the step that `t` stands for owes, with descriptions nested
    /// `depth` deep at most: nothing, and the sources are as they were, where
    /// the graph knows the step, or the source that `t` names is not there,
    /// or no depth is left; else first of all the source that the
    /// placeholder names, for the placeholder's path.
    pub open spec fn asked_as_owed<S: ConfigSource>(
        &self,
        t: int,
        before: &Sources<S>,
        after: &Sources<S>,
        depth: usize,
    ) -> bool {
        if self.asks_nothing(t, before.count()) || depth == 0 {
            *after == *before
        } else {
            let h = self.states()[t]->StateHolder_0;
            after.asked_next(before, h.which_function, h.path@)
        }
    }

    /// The same for a node that may not be there: without one, nothing is
    /// asked.
    pub open spec fn asked_for<S: ConfigSource>(
        &self,
        target: Option<usize>,
        before: &Sources<S>,
        after: &Sources<S>,
    ) -> bool {
        match target {
            Some(t) => self.asked_as_owed(t as int, before, after, LOAD_DEPTH),
            None => *after == *before,
        }
    }

    /// The node that has to be entered to deal with `input` at the step
    /// `id`: where the chosen option leads, or what follows the last field.
    pub open spec fn target_of_input(&self, id: int, input: Seq<char>) -> Option<usize> {
        match self.states()[id] {
            State::OptionsState(o) => match recognized(o.options@, input) {
                Some(k) => o.options@[k].state,
                None => None,
            },
            State::ContextState(c) => if c.index + 1 < c.contexts@.len() {
                None
            } else {
                c.next
            },
            State::StateHolder(_) => None,
        }
    }

    /// The node that has to be entered to show the step `id`: what follows a
    /// step whose fields are all filled, unless it was told to go back.
    pub open spec fn target_of_output(&self, id: int) -> Option<usize> {
        match self.states()[id] {
            State::ContextState(c) => if !c.go_back && c.exhausted() {
                c.next
            } else {
                None
            },
            _ => None,
        }
    }

    /// The step that has replaced the placeholder `t` of `before` is what
    /// some description says. Where that description names no path to load
    /// at once, the one source was asked the one time and nothing else, and
    /// the memo has the one line more.
    pub open spec fn loaded_once<S: ConfigSource>(
        &self,
        before: &Graph,
        t: int,
        asked_before: &Sources<S>,
        asked_after: &Sources<S>,
    ) -> bool {
        let h = before.states()[t]->StateHolder_0;
        let fresh = before.states().len() as usize;
        exists|description: SerDeState|
            {
                &&& #[trigger] description.built(self.states(), fresh, h.parent)
                &&& description.deferred() ==> {
                    &&& asked_after.asked() == asked_before.asked().push(
                        (h.which_function, h.path@),
                    )
                    &&& self.entries() == before.entries().push(
                        CacheEntry { path: h.path, state: fresh },
                    )
                }
            }
    }

    /// What `t` stands for as far as the graph knows without asking a
    /// source: itself, if it is a step; for a placeholder, the step that has
    /// replaced it, or else the step that the memo holds for its path.
    pub open spec fn known(&self, t: int) -> Option<usize> {
        match self.states()[t] {
            State::StateHolder(h) => if h.state is Some {
                h.state
            } else {
                cached(self.entries(), h.path@)
            },
            _ => Some(t as usize),
        }
    }

    /// A graph without nodes.
    pub fn new() -> (g: Graph)
        ensures
            g.wf(),
            g.states().len() == 0,
            g.entries().len() == 0,
    {
        Graph { nodes: Vec::new(), cache: Vec::new() }
    }

    /// The number of nodes.
    pub fn len(&self) -> (n: usize)
        ensures
            n == self.states().len(),
    {
        self.nodes.len()
    }

    /// Whether `id` is a step of the graph, and no placeholder.
    pub fn has_step(&self, id: usize) -> (b: bool)
        ensures
            b == is_step(self.states(), id as int),
    {
        if id < self.nodes.len() {
            match &self.nodes[id] {
                State::StateHolder(_) => false,
                _ => true,
            }
        } else {
            false
        }
    }

    /// The node at `id`.
    pub fn get(&self, id: usize) -> (state: &State)
        requires
            id < self.states().len(),
        ensures
            *state == self.states()[id as int],
    {
        &self.nodes[id]
    }

    /// The step that the memo holds for `path`.
    pub fn lookup(&self, path: &String) -> (found: Option<usize>)
        requires
            self.wf(),
        ensures
            found == cached(self.entries(), path@),
    {
        let mut k: usize = 0;
        while k < self.cache.len()
            invariant
                k <= self.cache.len(),
                self.wf(),
                forall|j: int| 0 <= j < k ==> (#[trigger] self.cache@[j]).path@ != path@,
            decreases self.cache.len() - k,
        {
            if self.cache[k].path == *path {
                proof {
                    cached_at(self.cache@, k as int);
                }
                return Some(self.cache[k].state);
            }
            k += 1;
        }
        None
    }

    /// Whether `state` may be added to the graph as it is now.
    pub open spec fn admits(&self, state: State) -> bool {
        &&& fits(self.states().push(state), state, self.states().len() as int)
        &&& state matches State::StateHolder(h) ==> (h.state is Some ==> cached(
            self.entries(),
            h.path@,
        ) == h.state)
    }

    /// Whether `state` may be added to the graph as it is now.
    pub fn accepts(&self, state: &State) -> (b: bool)
        requires
            self.wf(),
        ensures
            b == self.admits(*state),
    {
        let n = self.nodes.len();
        let ghost longer = self.nodes@.push(*state);
        match state.get_parent() {
            Some(p) => {
                if !self.has_step(p) {
                    return false;
                }
            },
            None => {},
        }
        match state {
            State::OptionsState(o) => {
                let mut j: usize = 0;
                while j < o.options.len()
                    invariant
                        j <= o.options@.len(),
                        n == self.nodes@.len(),
                        longer == self.nodes@.push(*state),
                        *state == State::OptionsState(*o),
                        forall|i: int| 0 <= i < j ==> target_ok(longer, #[trigger] o.options@[i]),
                    decreases o.options@.len() - j,
                {
                    match o.options[j].state {
                        Some(t) => {
                            if t > n {
                                assert(!target_ok(longer, o.options@[j as int]));
                                return false;
                            }
                        },
                        None => {},
                    }
                    j += 1;
                }
                true
            },
            State::ContextState(c) => {
                if c.index > c.contexts.len() {
                    return false;
                }
                match c.next {
                    Some(t) => {
                        if t > n {
                            return false;
                        }
                    },
                    None => {},
                }
                let mut j: usize = 0;
                while j < c.contexts.len()
                    invariant
                        j <= c.contexts@.len(),
                        n == self.nodes@.len(),
                        longer == self.nodes@.push(*state),
                        *state == State::ContextState(*c),
                        forall|i: int| 0 <= i < j ==> menu_ok(longer, #[trigger] c.contexts@[i]),
                    decreases c.contexts@.len() - j,
                {
                    match c.contexts[j].output() {
                        Some(m) => {
                            let is_menu = m < n && match &self.nodes[m] {
                                State::OptionsState(_) => true,
                                _ => false,
                            };
                            if !is_menu {
                                assert(!menu_ok(longer, c.contexts@[j as int]));
                                return false;
                            }
                        },
                        None => {},
                    }
                    j += 1;
                }
                true
            },
            State::StateHolder(h) => {
                match h.state {
                    Some(s) => {
                        if !self.has_step(s) {
                            return false;
                        }
                        match self.lookup(&h.path) {
                            Some(c) => c == s,
                            None => false,
                        }
                    },
                    None => true,
                }
            },
        }
    }

    /// Adds `state` at the end and says where it stands.
    pub fn add_state(&mut self, state: State) -> (id: usize)
        requires
            old(self).wf(),
            old(self).admits(state),
        ensures
            final(self).wf(),
            id == old(self).states().len(),
            final(self).states() == old(self).states().push(state),
            final(self).entries() == old(self).entries(),
    {
        let id = self.nodes.len();
        proof {
            let before = self.nodes@;
            let after = before.push(state);
            assert forall|i: int| 0 <= i < after.len() implies #[trigger] node_ok(after, i) by {
                if i < before.len() {
                    assert(node_ok(before, i));
                }
            }
        }
        self.nodes.push(state);
        id
    }

    /// Gives the menu `id` its options.
    pub fn set_options(&mut self, id: usize, options: Vec<StateOption>)
        requires
            old(self).wf(),
            id < old(self).states().len(),
            old(self).states()[id as int] is OptionsState,
            forall|j: int|
                0 <= j < options@.len() ==> target_ok(old(self).states(), #[trigger] options@[j]),
        ensures
            final(self).wf(),
            final(self).states() == old(self).states().update(
                id as int,
                State::OptionsState(
                    OptionsState { options, ..old(self).states()[id as int]->OptionsState_0 },
                ),
            ),
            final(self).entries() == old(self).entries(),
    {
        let ghost before = self.nodes@;
        match &mut self.nodes[id] {
            State::OptionsState(o) => {
                o.set_options(options);
            },
            _ => {},
        }
        proof {
            let after = self.nodes@;
            assert forall|i: int| 0 <= i < after.len() implies #[trigger] node_ok(after, i) by {
                assert(node_ok(before, i));
            }
        }
    }

    /// Gives the step `id` its fields.
    pub fn set_contexts(&mut self, id: usize, contexts: Vec<Context>)
        requires
            old(self).wf(),
            id < old(self).states().len(),
            old(self).states()[id as int] is ContextState,
            old(self).states()[id as int]->ContextState_0.index <= contexts@.len(),
            forall|j: int|
                0 <= j < contexts@.len() ==> menu_ok(old(self).states(), #[trigger] contexts@[j]),
        ensures
            final(self).wf(),
            final(self).states() == old(self).states().update(
                id as int,
                State::ContextState(
                    ContextState { contexts, ..old(self).states()[id as int]->ContextState_0 },
                ),
            ),
            final(self).entries() == old(self).entries(),
    {
        let ghost before = self.nodes@;
        match &mut self.nodes[id] {
            State::ContextState(c) => {
                c.set_contexts(contexts);
            },
            _ => {},
        }
        proof {
            let after = self.nodes@;
            assert forall|i: int| 0 <= i < after.len() implies #[trigger] node_ok(after, i) by {
                assert(node_ok(before, i));
            }
        }
    }

    /// Says which node follows the step `id` once its fields are filled.
    pub fn set_next(&mut self, id: usize, next: Option<usize>)
        requires
            old(self).wf(),
            id < old(self).states().len(),
            old(self).states()[id as int] is ContextState,
            next matches Some(t) ==> t < old(self).states().len(),
        ensures
            final(self).wf(),
            final(self).states() == old(self).states().update(
                id as int,
                State::ContextState(
                    ContextState { next, ..old(self).states()[id as int]->ContextState_0 },
                ),
            ),
            final(self).entries() == old(self).entries(),
    {
        let ghost before = self.nodes@;
        match &mut self.nodes[id] {
            State::ContextState(c) => {
                c.set_next(next);
            },
            _ => {},
        }
        proof {
            let after = self.nodes@;
            assert forall|i: int| 0 <= i < after.len() implies #[trigger] node_ok(after, i) by {
                assert(node_ok(before, i));
            }
        }
    }

    /// Replaces the placeholder `id` by the step that it stands for, and says
    /// which step that is; of a step it says nothing. The step is the one
    /// that the placeholder was replaced by before, or the one that the memo
    /// holds for its path. Only where there is neither, the source that the
    /// placeholder names is asked for the description under its path, and
    /// `install` does the rest. Descriptions that are loaded on the way may
    /// be nested `depth` deep at most; a placeholder that names a source
    /// that is not there is reported before the depth is looked at.
    pub fn into_state_sandwich<S: ConfigSource>(
        &mut self,
        id: usize,
        sources: &mut Sources<S>,
        depth: usize,
    ) -> (r: Result<Option<usize>, LoadError>)
        requires
            old(self).wf(),
            id < old(self).states().len(),
        ensures
            final(self).wf(),
            same_kinds(old(self).states(), final(self).states()),
            final(sources).continues(old(sources)),
            old(self).asked_as_owed(id as int, old(sources), final(sources), depth),
            old(self).known(id as int) is None && r is Ok ==> final(self).loaded_once(
                old(self),
                id as int,
                old(sources),
                final(sources),
            ),
            match old(self).known(id as int) {
                Some(s) => {
                    &&& r == Ok::<Option<usize>, LoadError>(
                        if old(self).states()[id as int] is StateHolder {
                            Some(s)
                        } else {
                            None
                        },
                    )
                    &&& final(self).states() == remembered(old(self).states(), id as int, s)
                    &&& final(self).entries() == old(self).entries()
                },
                None => {
                    let h = old(self).states()[id as int]->StateHolder_0;
                    let fresh = old(self).states().len() as usize;
                    &&& final(self).extends_but(old(self), id as int)
                    &&& match r {
                        Ok(x) => {
                            &&& x == Some(fresh)
                            &&& final(self).states()[id as int] == State::StateHolder(
                                StateHolder { state: Some(fresh), ..h },
                            )
                            &&& cached(final(self).entries(), h.path@) == Some(fresh)
                            &&& final(self).entries().last() == (CacheEntry {
                                path: h.path,
                                state: fresh,
                            })
                            &&& described(final(self).states(), fresh, h.parent)
                        },
                        Err(_) => final(self).states()[id as int] == old(self).states()[id as int],
                    }
                    &&& h.which_function >= old(sources).count() ==> {
                        &&& r == Err::<Option<usize>, LoadError>(LoadError::FunctionNotFound)
                        &&& final(self).states() == old(self).states()
                        &&& final(self).entries() == old(self).entries()
                    }
                    &&& h.which_function < old(sources).count() && depth == 0 ==> {
                        &&& r == Err::<Option<usize>, LoadError>(LoadError::TooDeep)
                        &&& final(self).states() == old(self).states()
                        &&& final(self).entries() == old(self).entries()
                    }
                },
            },
        decreases depth, 0int,
    {
        let ghost before = self.nodes@;
        let (path, which, parent) = match &self.nodes[id] {
            State::StateHolder(h) => {
                match h.state {
                    Some(s) => {
                        assert(self.nodes@ =~= remembered(before, id as int, s));
                        return Ok(Some(s));
                    },
                    None => {},
                }
                (h.path.clone(), h.which_function, h.parent)
            },
            _ => {
                return Ok(None);
            },
        };
        match self.lookup(&path) {
            Some(s) => {
                self.remember(id, s);
                return Ok(Some(s));
            },
            None => {},
        }
        if which >= sources.len() {
            return Err(LoadError::FunctionNotFound);
        }
        if depth == 0 {
            return Err(LoadError::TooDeep);
        }
        let loaded = sources.ask(which, &path);
        let ghost got = loaded;
        let r = self.install(id, loaded, sources, depth - 1);
        proof {
            if r is Ok {
                let description = got->Ok_0;
                assert(description.built(
                    self.states(),
                    old(self).states().len() as usize,
                    old(self).states()[id as int]->StateHolder_0.parent,
                ));
            }
        }
        r
    }

    /// Replaces the placeholder `id`, of which the graph does not know what
    /// it stands for, by the step that `loaded` describes, where `loaded` is
    /// what a source gave for the placeholder's path. A source's error is
    /// handed on and nothing changes. A description is built under the
    /// placeholder's parent; the placeholder and the memo take note of the
    /// step. A description that lacks something is refused as invalid, and
    /// so is one that, while it is built, has its own path loaded and noted
    /// once more: the memo holds one step for a path. Where the description
    /// names no path to load at once, that is all that can happen. What was
    /// built of a description that is refused stays in the graph, where
    /// nothing refers to it.
    pub fn install<S: ConfigSource>(
        &mut self,
        id: usize,
        loaded: Result<SerDeState, LoadError>,
        sources: &mut Sources<S>,
        depth: usize,
    ) -> (r: Result<Option<usize>, LoadError>)
        requires
            old(self).wf(),
            id < old(self).states().len(),
            old(self).states()[id as int] is StateHolder,
            old(self).known(id as int) is None,
        ensures
            final(self).wf(),
            same_kinds(old(self).states(), final(self).states()),
            final(sources).continues(old(sources)),
            final(self).extends_but(old(self), id as int),
            ({
                let h = old(self).states()[id as int]->StateHolder_0;
                let fresh = old(self).states().len() as usize;
                match loaded {
                    Err(e) => {
                        &&& r == Err::<Option<usize>, LoadError>(e)
                        &&& final(self).states() == old(self).states()
                        &&& final(self).entries() == old(self).entries()
                        &&& *final(sources) == *old(sources)
                    },
                    Ok(description) => {
                        &&& match r {
                            Ok(x) => {
                                &&& x == Some(fresh)
                                &&& final(self).states()[id as int] == State::StateHolder(
                                    StateHolder { state: Some(fresh), ..h },
                                )
                                &&& cached(final(self).entries(), h.path@) == Some(fresh)
                                &&& final(self).entries().last() == (CacheEntry {
                                    path: h.path,
                                    state: fresh,
                                })
                                &&& description.built(final(self).states(), fresh, h.parent)
                            },
                            Err(_) => final(self).states()[id as int] == old(self).states()[id as int],
                        }
                        &&& description.deferred() ==> {
                            &&& *final(sources) == *old(sources)
                            &&& r is Ok <==> description.complete()
                            &&& description.complete() ==> final(self).entries() == old(
                                self,
                            ).entries().push(CacheEntry { path: h.path, state: fresh })
                            &&& !description.complete() ==> r == Err::<Option<usize>, LoadError>(
                                LoadError::Invalid(Error::BadConstruction),
                            ) && final(self).entries() == old(self).entries()
                        }
                    },
                }
            }),
        decreases depth, 2int,
    {
        let description = match loaded {
            Ok(d) => d,
            Err(e) => {
                return Err(e);
            },
        };
        assert(node_ok(self.nodes@, id as int));
        let (path, parent) = match &self.nodes[id] {
            State::StateHolder(h) => (h.path.clone(), h.parent),
            _ => (String::new(), None),
        };
        let state = match description.into_state(self, parent, sources, depth) {
            Ok(Ok(s)) => s,
            Ok(Err(e)) => {
                return Err(LoadError::Invalid(e));
            },
            Err(e) => {
                return Err(e);
            },
        };
        match self.lookup(&path) {
            Some(_) => {
                return Err(LoadError::Invalid(Error::BadConstruction));
            },
            None => {},
        }
        let ghost built = self.nodes@;
        let ghost middle = self.cache@;
        self.cache.push(CacheEntry { path, state });
        proof {
            let last = middle.len() as int;
            assert(self.cache@[last].path@ == path@);
            assert forall|j: int, k: int|
                0 <= j < self.cache@.len() && 0 <= k < self.cache@.len() && j != k implies (
            #[trigger] self.cache@[j]).path@ != (#[trigger] self.cache@[k]).path@ by {
                if j < last {
                    assert(self.cache@[j] == middle[j]);
                }
                if k < last {
                    assert(self.cache@[k] == middle[k]);
                }
            }
            assert forall|k: int| 0 <= k < self.cache@.len() implies is_step(
                self.nodes@,
                (#[trigger] self.cache@[k]).state as int,
            ) by {
                if k < last {
                    assert(self.cache@[k] == middle[k]);
                }
            }
            cached_at(self.cache@, last);
            cached_after_push(middle, self.cache@[last]);
            assert(self.cache@ =~= middle.push(self.cache@[last]));
        }
        self.remember(id, state);
        proof {
            description.built_stays(built, self.nodes@, state, parent);
        }
        Ok(Some(state))
    }

    /// How the graph `self` and the answer `r` stand after `before` was asked
    /// which step the node `t` stands for, with `n` sources at hand. Where
    /// `before` knows the step, that is the answer, and nothing but the
    /// placeholder's note has changed. Where it does not, all depends on the
    /// source: on success the step is the first node added, the placeholder
    /// and the memo have taken note of it, and whatever the outcome no other
    /// node that there was has changed.
    pub open spec fn resolved_from(
        &self,
        before: &Graph,
        t: int,
        r: Result<usize, LoadError>,
        n: nat,
    ) -> bool {
        match before.known(t) {
            Some(s) => {
                &&& r == Ok::<usize, LoadError>(s)
                &&& self.states() == remembered(before.states(), t, s)
                &&& self.entries() == before.entries()
            },
            None => {
                let h = before.states()[t]->StateHolder_0;
                let fresh = before.states().len() as usize;
                &&& self.extends_but(before, t)
                &&& match r {
                    Ok(x) => {
                        &&& x == fresh
                        &&& is_step(self.states(), fresh as int)
                        &&& self.states()[t] == State::StateHolder(
                            StateHolder { state: Some(fresh), ..h },
                        )
                        &&& cached(self.entries(), h.path@) == Some(fresh)
                        &&& self.entries().last() == (CacheEntry { path: h.path, state: fresh })
                        &&& described(self.states(), fresh, h.parent)
                    },
                    Err(_) => self.states()[t] == before.states()[t],
                }
                &&& h.which_function >= n ==> {
                    &&& r == Err::<usize, LoadError>(LoadError::FunctionNotFound)
                    &&& self.states() == before.states()
                    &&& self.entries() == before.entries()
                }
            },
        }
    }

    /// The step that the node `t` stands for. A placeholder is replaced on
    /// the way, as `into_state_sandwich` says.
    pub fn resolve<S: ConfigSource>(&mut self, t: usize, sources: &mut Sources<S>) -> (r: Result<
        usize,
        LoadError,
    >)
        requires
            old(self).wf(),
            t < old(self).states().len(),
        ensures
            final(self).wf(),
            same_kinds(old(self).states(), final(self).states()),
            final(self).resolved_from(old(self), t as int, r, old(sources).count()),
            r matches Ok(s) ==> is_step(final(self).states(), s as int),
            final(sources).continues(old(sources)),
            old(self).asked_as_owed(t as int, old(sources), final(sources), LOAD_DEPTH),
            old(self).known(t as int) is None && r is Ok ==> final(self).loaded_once(
                old(self),
                t as int,
                old(sources),
                final(sources),
            ),
    {
        assert(node_ok(self.nodes@, t as int));
        match self.into_state_sandwich(t, sources, LOAD_DEPTH) {
            Ok(Some(s)) => Ok(s),
            Ok(None) => Ok(t),
            Err(e) => Err(e),
        }
    }

    /// Enters the step that the option `k` of the menu `id` leads to, and
    /// says which step that is: a placeholder is replaced, and if the option
    /// says so the step starts over. An option may lead nowhere.
    pub fn get_state<S: ConfigSource>(&mut self, id: usize, k: usize, sources: &mut Sources<S>) -> (r:
        Result<Option<usize>, LoadError>)
        requires
            old(self).wf(),
            id < old(self).states().len(),
            old(self).states()[id as int] is OptionsState,
            k < old(self).states()[id as int]->OptionsState_0.options@.len(),
        ensures
            final(self).wf(),
            same_kinds(old(self).states(), final(self).states()),
            final(sources).continues(old(sources)),
            r matches Ok(Some(s)) ==> is_step(final(self).states(), s as int),
            old(self).asked_for(
                old(self).states()[id as int]->OptionsState_0.options@[k as int].state,
                old(sources),
                final(sources),
            ),
            forall|i: int|
                0 <= i < old(self).states().len() && old(self).states()[i] is OptionsState
                    ==> #[trigger] final(self).states()[i] == old(self).states()[i],
            ({
                let option = old(self).states()[id as int]->OptionsState_0.options@[k as int];
                match option.state {
                    None => {
                        &&& r == Ok::<Option<usize>, LoadError>(None)
                        &&& final(self).states() == old(self).states()
                        &&& final(self).entries() == old(self).entries()
                    },
                    Some(t) => match old(self).known(t as int) {
                        Some(s) => {
                            &&& r == Ok::<Option<usize>, LoadError>(Some(s))
                            &&& final(self).states() == arrived(
                                old(self).states(),
                                t as int,
                                s,
                                option.reset,
                            )
                            &&& final(self).entries() == old(self).entries()
                        },
                        None => {
                            let h = old(self).states()[t as int]->StateHolder_0;
                            let fresh = old(self).states().len() as usize;
                            &&& match r {
                                Ok(x) => {
                                    &&& x == Some(fresh)
                                    &&& is_step(final(self).states(), fresh as int)
                                    &&& settled(final(self).states(), t as int) == Some(fresh)
                                    &&& cached(final(self).entries(), h.path@) == Some(fresh)
                                    &&& others_kept(
                                        old(self).states(),
                                        final(self).states(),
                                        t as int,
                                        option.reset,
                                    )
                                },
                                Err(_) => final(self).extends_but(old(self), t as int)
                                    && final(self).states()[t as int] == old(self).states()[t as int],
                            }
                            &&& h.which_function >= old(sources).count() ==> {
                                &&& r == Err::<Option<usize>, LoadError>(LoadError::FunctionNotFound)
                                &&& final(self).states() == old(self).states()
                                &&& final(self).entries() == old(self).entries()
                            }
                        },
                    },
                }
            }),
    {
        let ghost before = self.nodes@;
        assert(node_ok(before, id as int));
        let (target, reset) = match &self.nodes[id] {
            State::OptionsState(o) => (o.options[k].state, o.options[k].reset),
            _ => (None, false),
        };
        let t = match target {
            Some(t) => t,
            None => {
                return Ok(None);
            },
        };
        assert(target_ok(before, before[id as int]->OptionsState_0.options@[k as int]));
        let s = match self.resolve(t, sources) {
            Ok(s) => s,
            Err(e) => {
                return Err(e);
            },
        };
        let ghost middle = self.nodes@;
        if reset {
            proof {
                restarted_from_keeps_order(middle, s as int, middle.len());
            }
            self.reset_index(s);
        }
        proof {
            assert forall|i: int|
                0 <= i < before.len() && before[i] is OptionsState implies #[trigger] self.nodes@[i]
                == before[i] by {
                assert(middle[i] == before[i]);
                if reset {
                    let after = restarted_from(middle, s as int, middle.len())[i];
                    assert(after == middle[i] || after == middle[i].restarted());
                }
            }
            if reset {
                let after = restarted_from(middle, s as int, middle.len())[t as int];
                assert(after == middle[t as int] || after == middle[t as int].restarted());
            }
            if old(self).known(t as int) is None {
                assert forall|i: int| 0 <= i < before.len() && i != t implies {
                    let now = #[trigger] self.nodes@[i];
                    now == before[i] || (reset && now == before[i].restarted())
                } by {
                    assert(middle[i] == before[i]);
                    if reset {
                        let after = restarted_from(middle, s as int, middle.len())[i];
                        assert(after == middle[i] || after == middle[i].restarted());
                    }
                }
            }
        }
        Ok(Some(s))
    }

    /// Takes `input` as the user's answer to the step `id`.
    ///
    /// A menu takes it as a choice: a numeral counts to an option, from 1;
    /// any other text has to be an option's name. Text that chooses nothing
    /// is reported as not recognised and changes nothing. A choice is noted
    /// in the menu's index, the step it leads to is entered and becomes the
    /// current one, and the flow is complete if the option says so.
    ///
    /// A step that asks for fields takes it as the value of the field under
    /// its index and moves on to the next field. After the last field it
    /// hands over to the step that follows; where none follows, the flow is
    /// complete.
    pub fn input<S: ConfigSource>(&mut self, id: usize, input: String, sources: &mut Sources<S>) -> (r:
        Result<InputStatus, LoadError>)
        requires
            old(self).wf(),
            is_step(old(self).states(), id as int),
        ensures
            final(self).wf(),
            same_kinds(old(self).states(), final(self).states()),
            final(sources).continues(old(sources)),
            old(self).asked_for(
                old(self).target_of_input(id as int, input@),
                old(sources),
                final(sources),
            ),
            r matches Ok(status) ==> (status.state matches Some(s) ==> is_step(
                final(self).states(),
                s as int,
            )),
            old(self).states()[id as int] matches State::OptionsState(o) ==> match recognized(
                o.options@,
                input@,
            ) {
                None => {
                    &&& r == Ok::<InputStatus, LoadError>(
                        InputStatus {
                            state_changed: false,
                            state: None,
                            submit: false,
                            input_recognized: false,
                        },
                    )
                    &&& final(self).states() == old(self).states()
                    &&& final(self).entries() == old(self).entries()
                },
                Some(k) => {
                    let option = o.options@[k];
                    let chosen = State::OptionsState(OptionsState { index: k as usize, ..o });
                    &&& r matches Ok(status) ==> {
                        &&& status.state_changed
                        &&& status.input_recognized
                        &&& status.submit == option.submit
                        &&& final(self).states()[id as int] == chosen
                    }
                    &&& r is Err ==> final(self).states()[id as int] == old(self).states()[id as int]
                    &&& match option.state {
                        None => {
                            &&& r matches Ok(status) && status.state is None
                            &&& final(self).states() == old(self).states().update(id as int, chosen)
                            &&& final(self).entries() == old(self).entries()
                        },
                        Some(t) => match old(self).known(t as int) {
                            Some(s) => {
                                &&& r matches Ok(status) && status.state == Some(s)
                                &&& final(self).states() == arrived(
                                    old(self).states(),
                                    t as int,
                                    s,
                                    option.reset,
                                ).update(id as int, chosen)
                                &&& final(self).entries() == old(self).entries()
                            },
                            None => {
                                let h = old(self).states()[t as int]->StateHolder_0;
                                let fresh = old(self).states().len() as usize;
                                &&& r matches Ok(status) ==> {
                                    &&& status.state == Some(fresh)
                                    &&& is_step(final(self).states(), fresh as int)
                                    &&& settled(final(self).states(), t as int) == Some(fresh)
                                    &&& cached(final(self).entries(), h.path@) == Some(fresh)
                                    &&& others_kept(
                                        old(self).states().update(id as int, chosen),
                                        final(self).states(),
                                        t as int,
                                        option.reset,
                                    )
                                }
                                &&& r is Err ==> final(self).extends_but(old(self), t as int)
                                    && final(self).states()[t as int] == old(self).states()[t as int]
                                &&& h.which_function >= old(sources).count() ==> {
                                    &&& r == Err::<InputStatus, LoadError>(
                                        LoadError::FunctionNotFound,
                                    )
                                    &&& final(self).states() == old(self).states()
                                    &&& final(self).entries() == old(self).entries()
                                }
                            },
                        },
                    }
                },
            },
            old(self).states()[id as int] matches State::ContextState(c) ==> {
                &&& final(self).states()[id as int] matches State::ContextState(later)
                &&& c.entered(input, later)
                &&& r matches Ok(status) ==> status.input_recognized
                &&& if c.index + 1 < c.contexts@.len() {
                    &&& r == Ok::<InputStatus, LoadError>(
                        InputStatus {
                            state_changed: false,
                            state: None,
                            submit: false,
                            input_recognized: true,
                        },
                    )
                    &&& final(self).states() == old(self).states().update(
                        id as int,
                        final(self).states()[id as int],
                    )
                    &&& final(self).entries() == old(self).entries()
                } else {
                    &&& r matches Ok(status) ==> status.state_changed
                    &&& final(self).handed_over(
                        old(self),
                        id as int,
                        c,
                        match r {
                            Ok(status) => Ok((status.state, status.submit)),
                            Err(e) => Err(e),
                        },
                        old(sources).count(),
                    )
                }
            },
    {
        let ghost before = self.nodes@;
        assert(node_ok(before, id as int));
        let choice = match &self.nodes[id] {
            State::OptionsState(o) => {
                match o.recognize(&input) {
                    Some(k) => Some((k, o.options[k].submit)),
                    None => {
                        return Ok(
                            InputStatus {
                                state_changed: false,
                                state: None,
                                submit: false,
                                input_recognized: false,
                            },
                        );
                    },
                }
            },
            _ => None,
        };
        match choice {
            Some((k, submit)) => {
                let state = match self.get_state(id, k, sources) {
                    Ok(state) => state,
                    Err(e) => {
                        return Err(e);
                    },
                };
                let ghost middle = self.nodes@;
                match &mut self.nodes[id] {
                    State::OptionsState(o) => {
                        o.index = k;
                    },
                    _ => {},
                }
                proof {
                    let after = self.nodes@;
                    assert forall|i: int| 0 <= i < after.len() implies #[trigger] node_ok(
                        after,
                        i,
                    ) by {
                        assert(node_ok(middle, i));
                    }
                    assert(after =~= middle.update(id as int, after[id as int]));
                }
                Ok(InputStatus { state_changed: true, state, submit, input_recognized: true })
            },
            None => {
                let complete = self.write_field(id, input);
                let mut status = InputStatus {
                    state_changed: false,
                    state: None,
                    submit: false,
                    input_recognized: true,
                };
                if complete {
                    let ghost middle = *self;
                    proof {
                        assert(same_kinds(before, middle.states()));
                        match before[id as int]->ContextState_0.next {
                            Some(t) => {
                                assert(middle.known(t as int) == old(self).known(t as int));
                                assert(middle.states()[t as int] is StateHolder ==> middle.states()[t as int]
                                    == before[t as int]);
                            },
                            None => {},
                        }
                    }
                    let handed = self.hand_over(id, sources, &mut status);
                    proof {
                        assert(before.update(id as int, self.nodes@[id as int])
                            =~= middle.states().update(id as int, self.nodes@[id as int]));
                    }
                    match handed {
                        Ok(_) => {},
                        Err(e) => {
                            return Err(e);
                        },
                    }
                }
                Ok(
                    InputStatus {
                        state_changed: status.state_changed,
                        state: status.state,
                        submit: status.submit,
                        input_recognized: true,
                    },
                )
            },
        }
    }

    /// How the graph `self` and the answer `r` stand after the step `id` of
    /// `before`, all of whose fields are filled, has handed over. `c` is the
    /// step as it was, and `r` holds the step that is current from now on and
    /// whether the flow is complete. Where no step follows, the flow is
    /// complete and nothing else has changed. Where one follows, it becomes
    /// the current step, a placeholder is replaced as `resolve` says, and the
    /// flow is complete if the step `id` says so.
    pub open spec fn handed_over(
        &self,
        before: &Graph,
        id: int,
        c: ContextState,
        r: Result<(Option<usize>, bool), LoadError>,
        n: nat,
    ) -> bool {
        let base = before.states().update(id, self.states()[id]);
        match c.next {
            None => {
                &&& r == Ok::<(Option<usize>, bool), LoadError>((None, true))
                &&& self.states() == base
                &&& self.entries() == before.entries()
            },
            Some(t) => match before.known(t as int) {
                Some(s) => {
                    &&& r == Ok::<(Option<usize>, bool), LoadError>((Some(s), c.submit))
                    &&& self.states() == remembered(base, t as int, s)
                    &&& self.entries() == before.entries()
                },
                None => {
                    let h = before.states()[t as int]->StateHolder_0;
                    let fresh = before.states().len() as usize;
                    &&& r matches Ok(x) ==> {
                        &&& x == (Some(fresh), c.submit)
                        &&& is_step(self.states(), fresh as int)
                        &&& settled(self.states(), t as int) == Some(fresh)
                        &&& cached(self.entries(), h.path@) == Some(fresh)
                        &&& described(self.states(), fresh, h.parent)
                    }
                    &&& r is Err ==> self.states()[t as int] == before.states()[t as int]
                    &&& others_kept(base, self.states(), t as int, false)
                    &&& h.which_function >= n ==> {
                        &&& r == Err::<(Option<usize>, bool), LoadError>(LoadError::FunctionNotFound)
                        &&& self.states() == base
                        &&& self.entries() == before.entries()
                    }
                },
            },
        }
    }

    /// What the step `id` shows.
    ///
    /// A menu shows its prompt and changes nothing. A step that asks for
    /// fields shows the field under its index, with one exception: a field
    /// that is answered in a menu sends the host to that menu, and the index
    /// moves on by one. A step whose fields are all filled hands over as it
    /// does after the last input. A step that was told to go back sends the
    /// host to its parent, once.
    pub fn output<S: ConfigSource>(&mut self, id: usize, sources: &mut Sources<S>) -> (r: Result<
        OutputStatus,
        LoadError,
    >)
        requires
            old(self).wf(),
            is_step(old(self).states(), id as int),
        ensures
            final(self).wf(),
            same_kinds(old(self).states(), final(self).states()),
            final(sources).continues(old(sources)),
            old(self).asked_for(
                old(self).target_of_output(id as int),
                old(sources),
                final(sources),
            ),
            r matches Ok(status) ==> (status.state matches Some(s) ==> is_step(
                final(self).states(),
                s as int,
            )),
            old(self).states()[id as int] matches State::OptionsState(o) ==> {
                &&& r matches Ok(status)
                &&& !status.state_changed
                &&& status.state is None
                &&& !status.submit
                &&& status.output matches Some(output)
                &&& output@.title == o.name@
                &&& output@.description == o.description@
                &&& output@.options == o.option_names()
                &&& output@.help == Seq::<char>::empty()
                &&& final(self).states() == old(self).states()
                &&& final(self).entries() == old(self).entries()
            },
            old(self).states()[id as int] matches State::ContextState(c) ==> {
                if c.go_back {
                    &&& r == Ok::<OutputStatus, LoadError>(
                        OutputStatus {
                            state_changed: true,
                            state: c.parent,
                            submit: false,
                            output: None,
                        },
                    )
                    &&& final(self).states() == old(self).states().update(
                        id as int,
                        State::ContextState(ContextState { go_back: false, ..c }),
                    )
                    &&& final(self).entries() == old(self).entries()
                } else if c.exhausted() {
                    &&& final(self).states()[id as int] == old(self).states()[id as int]
                    &&& r matches Ok(status) ==> status.state_changed && status.output is None
                    &&& final(self).handed_over(
                        old(self),
                        id as int,
                        c,
                        match r {
                            Ok(status) => Ok((status.state, status.submit)),
                            Err(e) => Err(e),
                        },
                        old(sources).count(),
                    )
                } else {
                    match c.contexts@[c.index as int].spec_menu() {
                        Some(m) => {
                            &&& r == Ok::<OutputStatus, LoadError>(
                                OutputStatus {
                                    state_changed: true,
                                    state: Some(m),
                                    submit: false,
                                    output: None,
                                },
                            )
                            &&& final(self).states() == old(self).states().update(
                                id as int,
                                State::ContextState(
                                    ContextState { index: (c.index + 1) as usize, ..c },
                                ),
                            )
                            &&& final(self).entries() == old(self).entries()
                        },
                        None => {
                            &&& r matches Ok(status)
                            &&& !status.state_changed
                            &&& status.state is None
                            &&& !status.submit
                            &&& status.output matches Some(output)
                            &&& output@.title == c.name@
                            &&& output@.description == c.description@
                            &&& output@.options == seq![c.contexts@[c.index as int].spec_name()@]
                            &&& output@.help == Seq::<char>::empty()
                            &&& final(self).states() == old(self).states()
                            &&& final(self).entries() == old(self).entries()
                        },
                    }
                }
            },
    {
        let ghost before = self.nodes@;
        assert(node_ok(before, id as int));
        let mut sent_back: Option<Option<usize>> = None;
        let mut complete = false;
        let mut menu: Option<usize> = None;
        match &self.nodes[id] {
            State::OptionsState(o) => {
                return Ok(o.output());
            },
            State::ContextState(c) => {
                if !c.go_back && c.index < c.contexts.len() && c.contexts[c.index].output().is_none() {
                    let output = c.prompt();
                    return Ok(
                        OutputStatus {
                            state_changed: false,
                            state: None,
                            submit: false,
                            output: Some(output),
                        },
                    );
                }
            },
            State::StateHolder(_) => {},
        }
        match &mut self.nodes[id] {
            State::ContextState(c) => {
                if c.go_back {
                    c.go_back = false;
                    sent_back = Some(c.parent);
                } else if c.index >= c.contexts.len() {
                    complete = true;
                } else {
                    menu = c.contexts[c.index].output();
                    c.index += 1;
                }
            },
            _ => {},
        }
        proof {
            let after = self.nodes@;
            assert(after =~= before.update(id as int, after[id as int]));
            assert forall|i: int| 0 <= i < after.len() implies #[trigger] node_ok(after, i) by {
                assert(node_ok(before, i));
            }
        }
        match sent_back {
            Some(parent) => {
                return Ok(
                    OutputStatus { state_changed: true, state: parent, submit: false, output: None },
                );
            },
            None => {},
        }
        if complete {
            assert(self.nodes@ =~= before);
            let mut status = OutputStatus {
                state_changed: false,
                state: None,
                submit: false,
                output: None,
            };
            return match self.hand_over(id, sources, &mut status) {
                Ok(_) => Ok(
                    OutputStatus {
                        state_changed: status.state_changed,
                        state: status.state,
                        submit: status.submit,
                        output: None,
                    },
                ),
                Err(e) => Err(e),
            };
        }
        Ok(OutputStatus { state_changed: true, state: menu, submit: false, output: None })
    }

    /// Goes back from the step `id`.
    ///
    /// A step that asks for fields goes back by one field. From its first
    /// field, and from a menu, the way back leads to the parent, which
    /// becomes the current step; its index goes back by `way_back`. A step
    /// without a parent stays the current one.
    pub fn back(&mut self, id: usize) -> (status: InputStatus)
        requires
            old(self).wf(),
            is_step(old(self).states(), id as int),
        ensures
            final(self).wf(),
            final(self).entries() == old(self).entries(),
            same_kinds(old(self).states(), final(self).states()),
            !status.submit,
            status.input_recognized,
            status.state matches Some(s) ==> is_step(final(self).states(), s as int),
            ({
                let node = old(self).states()[id as int];
                if node is ContextState && node.spec_index() > 0 {
                    &&& !status.state_changed
                    &&& status.state is None
                    &&& final(self).states() == old(self).states().update(
                        id as int,
                        State::ContextState(
                            ContextState {
                                index: (node.spec_index() - 1) as usize,
                                ..node->ContextState_0
                            },
                        ),
                    )
                } else {
                    match node.spec_parent() {
                        Some(p) => {
                            &&& status.state_changed
                            &&& status.state == Some(p)
                            &&& final(self).states() == old(self).states().update(
                                p as int,
                                old(self).states()[p as int].decreased(
                                    way_back(node, old(self).states()[p as int]),
                                ),
                            )
                        },
                        None => {
                            &&& !status.state_changed
                            &&& status.state is None
                            &&& final(self).states() == old(self).states()
                        },
                    }
                }
            }),
    {
        let ghost before = self.nodes@;
        assert(node_ok(before, id as int));
        let mut status = InputStatus {
            state_changed: false,
            state: None,
            submit: false,
            input_recognized: true,
        };
        let (leave, parent, fields) = match &mut self.nodes[id] {
            State::OptionsState(o) => (true, o.parent, false),
            State::ContextState(c) => (c.back(), c.parent, true),
            State::StateHolder(_) => (false, None, false),
        };
        proof {
            let after = self.nodes@;
            assert(after =~= before.update(id as int, after[id as int]));
            assert forall|i: int| 0 <= i < after.len() implies #[trigger] node_ok(after, i) by {
                assert(node_ok(before, i));
            }
        }
        if leave {
            assert(self.nodes@ =~= before);
            match parent {
                Some(p) => {
                    let amount: usize = match &self.nodes[p] {
                        State::ContextState(_) => if fields {
                            1
                        } else {
                            2
                        },
                        _ => 2,
                    };
                    self.decrease_index(p, amount);
                    status.state_changed = true;
                    status.state = parent;
                },
                None => {},
            }
        }
        status
    }

    /// Writes `input` into the field under the index of the step `id` and
    /// moves the index on. Says whether all fields are filled after that.
    fn write_field(&mut self, id: usize, input: String) -> (complete: bool)
        requires
            old(self).wf(),
            id < old(self).states().len(),
            old(self).states()[id as int] is ContextState,
        ensures
            final(self).wf(),
            final(self).states()[id as int] matches State::ContextState(later)
                && old(self).states()[id as int]->ContextState_0.entered(input, later)
                && complete == later.exhausted(),
            final(self).states() == old(self).states().update(
                id as int,
                final(self).states()[id as int],
            ),
            final(self).entries() == old(self).entries(),
    {
        let ghost before = self.nodes@;
        assert(node_ok(before, id as int));
        let complete = match &mut self.nodes[id] {
            State::ContextState(c) => c.input(input),
            _ => false,
        };
        proof {
            let after = self.nodes@;
            assert(after =~= before.update(id as int, after[id as int]));
            let c = before[id as int]->ContextState_0;
            let later = after[id as int]->ContextState_0;
            assert forall|i: int| 0 <= i < after.len() implies #[trigger] node_ok(after, i) by {
                assert(node_ok(before, i));
                if i == id {
                    assert forall|j: int| 0 <= j < later.contexts@.len() implies menu_ok(
                        after,
                        #[trigger] later.contexts@[j],
                    ) by {
                        assert(menu_ok(before, c.contexts@[j]));
                    }
                }
            }
        }
        complete
    }

    /// Lets the step `id`, all of whose fields are filled, hand over: finds
    /// the step that follows, replacing a placeholder on the way, and fills
    /// in `status`.
    fn hand_over<S: ConfigSource, T: StatusLike>(
        &mut self,
        id: usize,
        sources: &mut Sources<S>,
        status: &mut T,
    ) -> (r: Result<(), LoadError>)
        requires
            old(self).wf(),
            id < old(self).states().len(),
            old(self).states()[id as int] is ContextState,
            old(status).state_of() is None,
        ensures
            final(self).wf(),
            same_kinds(old(self).states(), final(self).states()),
            final(sources).continues(old(sources)),
            old(self).asked_for(
                old(self).states()[id as int]->ContextState_0.next,
                old(sources),
                final(sources),
            ),
            final(self).states()[id as int] == old(self).states()[id as int],
            r is Ok ==> (final(status).state_of() matches Some(s) ==> is_step(
                final(self).states(),
                s as int,
            )),
            final(self).handed_over(
                old(self),
                id as int,
                old(self).states()[id as int]->ContextState_0,
                match r {
                    Ok(_) => Ok((final(status).state_of(), final(status).submit_of())),
                    Err(e) => Err(e),
                },
                old(sources).count(),
            ),
            r is Ok ==> final(status).state_changed_of(),
    {
        let ghost before = self.nodes@;
        assert(node_ok(before, id as int));
        let next = match &self.nodes[id] {
            State::ContextState(c) => c.next,
            _ => None,
        };
        let follows = match next {
            Some(t) => {
                match self.resolve(t, sources) {
                    Ok(s) => Some(s),
                    Err(e) => {
                        assert(before.update(id as int, self.nodes@[id as int]) =~= before);
                        return Err(e);
                    },
                }
            },
            None => None,
        };
        assert(self.nodes@[id as int] == before[id as int]);
        match &self.nodes[id] {
            State::ContextState(c) => {
                c.on_highest_index(status, follows);
            },
            _ => {},
        }
        proof {
            if next is Some {
                assert(before.update(id as int, self.nodes@[id as int]) =~= before);
            } else {
                assert(self.nodes@ =~= before.update(id as int, self.nodes@[id as int]));
            }
        }
        Ok(())
    }

    /// Lets the placeholder `id` take note of the step `s` that replaces it.
    fn remember(&mut self, id: usize, s: usize)
        requires
            old(self).wf(),
            id < old(self).states().len(),
            old(self).states()[id as int] is StateHolder,
            is_step(old(self).states(), s as int),
            cached(old(self).entries(), old(self).states()[id as int]->StateHolder_0.path@) == Some(s),
        ensures
            final(self).wf(),
            final(self).states() == remembered(old(self).states(), id as int, s),
            final(self).entries() == old(self).entries(),
    {
        let ghost before = self.nodes@;
        match &mut self.nodes[id] {
            State::StateHolder(h) => {
                h.state = Some(s);
            },
            _ => {},
        }
        proof {
            let after = self.nodes@;
            assert(after =~= remembered(before, id as int, s));
            assert forall|i: int| 0 <= i < after.len() implies #[trigger] node_ok(after, i) by {
                assert(node_ok(before, i));
            }
        }
    }

    /// `self` is `before` with nodes and lines of the memo added at the
    /// end, but for the node `id`.
    pub open spec fn extends_but(&self, before: &Graph, id: int) -> bool {
        &&& before.states().len() <= self.states().len()
        &&& forall|i: int|
            0 <= i < before.states().len() && i != id ==> #[trigger] self.states()[i]
                == before.states()[i]
        &&& before.entries().len() <= self.entries().len()
        &&& forall|k: int|
            0 <= k < before.entries().len() ==> #[trigger] self.entries()[k] == before.entries()[k]
    }

    /// Takes `amount` from the index of the node `id`.
    pub fn decrease_index(&mut self, id: usize, amount: usize)
        requires
            old(self).wf(),
            id < old(self).states().len(),
        ensures
            final(self).wf(),
            final(self).states() == old(self).states().update(
                id as int,
                old(self).states()[id as int].decreased(amount),
            ),
            final(self).entries() == old(self).entries(),
    {
        let ghost before = self.nodes@;
        self.nodes[id].decrease_index(amount);
        proof {
            let after = self.nodes@;
            assert forall|i: int| 0 <= i < after.len() implies #[trigger] node_ok(after, i) by {
                assert(node_ok(before, i));
            }
        }
    }

    /// Starts the step `id` over, and the steps that follow it one after the
    /// other: each is asked for its first field again.
    pub fn reset_index(&mut self, id: usize)
        requires
            old(self).wf(),
        ensures
            final(self).wf(),
            final(self).states() == restarted_from(
                old(self).states(),
                id as int,
                old(self).states().len(),
            ),
            same_kinds(old(self).states(), final(self).states()),
            final(self).entries() == old(self).entries(),
    {
        proof {
            restarted_from_keeps_order(self.nodes@, id as int, self.nodes@.len());
        }
        let mut at: usize = id;
        let mut fuel: usize = self.nodes.len();
        while fuel > 0 && at < self.nodes.len()
            invariant
                self.nodes@.len() == old(self).nodes@.len(),
                self.cache@ == old(self).cache@,
                restarted_from(self.nodes@, at as int, fuel as nat) == restarted_from(
                    old(self).nodes@,
                    id as int,
                    old(self).nodes@.len(),
                ),
            decreases fuel,
        {
            match &mut self.nodes[at] {
                State::ContextState(c) => {
                    c.reset_index();
                    match c.next {
                        Some(n) => {
                            at = n;
                            fuel -= 1;
                        },
                        None => {
                            fuel = 0;
                        },
                    }
                },
                _ => {
                    fuel = 0;
                },
            }
        }
    }
}

/// A line added to the memo for a path that it did not hold changes nothing
/// for the paths that it held.
pub proof fn cached_after_push(cache: Seq<CacheEntry>, entry: CacheEntry)
    requires
        forall|i: int, j: int|
            0 <= i < cache.len() + 1 && 0 <= j < cache.len() + 1 && i != j ==> (
            #[trigger] cache.push(entry)[i]).path@ != (#[trigger] cache.push(entry)[j]).path@,
    ensures
        forall|path: Seq<char>| #[trigger]
            cached(cache, path) is Some ==> cached(cache.push(entry), path) == cached(cache, path),
{
    let longer = cache.push(entry);
    assert forall|path: Seq<char>| #[trigger] cached(cache, path) is Some implies cached(
        longer,
        path,
    ) == cached(cache, path) by {
        let k = choose|k: int| 0 <= k < cache.len() && (#[trigger] cache[k]).path@ == path;
        assert(longer[k] == cache[k]);
        assert forall|i: int, j: int|
            0 <= i < longer.len() && 0 <= j < longer.len() && i != j implies (
        #[trigger] longer[i]).path@ != (#[trigger] longer[j]).path@ by {
            assert(longer[i] == cache.push(entry)[i]);
        }
        cached_at(longer, k);
    }
}

/// With no path twice in the memo, the line `k` is the one that `cached`
/// finds for its path.
pub proof fn cached_at(cache: Seq<CacheEntry>, k: int)
    requires
        0 <= k < cache.len(),
        forall|i: int, j: int|
            0 <= i < cache.len() && 0 <= j < cache.len() && i != j ==> (#[trigger] cache[i]).path@
                != (#[trigger] cache[j]).path@,
    ensures
        cached(cache, cache[k].path@) == Some(cache[k].state),
{
    let path = cache[k].path@;
    assert(0 <= k < cache.len() && cache[k].path@ == path);
    let found = choose|j: int| 0 <= j < cache.len() && (#[trigger] cache[j]).path@ == path;
    assert(found == k);
}

} // verus!
