use vstd::prelude::*;
use crate::collection::{Collection, CollectionView, ContextLikeCollection};
use crate::context::{Context, StateOptionsContext};
use crate::error::Error;
use crate::graph::{is_step, settled, Graph};
use crate::state::{ContextState, OptionsState, State};

verus! {

/// The text that was entered after "something else" was chosen in `menu`:
/// the value of the first field of the step that the menu's last option leads
/// to, where that option is the chosen one and leads to such a step.
pub open spec fn free_text(nodes: Seq<State>, menu: OptionsState) -> Option<Seq<char>> {
    if menu.index + 1 == menu.options@.len() {
        match menu.options@[menu.index as int].state {
            Some(t) if t < nodes.len() => match settled(nodes, t as int) {
                Some(s) if s < nodes.len() => match nodes[s as int] {
                    State::ContextState(c) if c.contexts@.len() > 0 => Some(
                        c.contexts@[0].spec_value()@,
                    ),
                    _ => None,
                },
                _ => None,
            },
            _ => None,
        }
    } else {
        None
    }
}

/// What `menu` answers: the text entered for "something else", or else the
/// name of the chosen option. A menu whose index names no option answers
/// nothing.
pub open spec fn answer(nodes: Seq<State>, menu: OptionsState) -> Option<Seq<char>> {
    if menu.index < menu.options@.len() {
        match free_text(nodes, menu) {
            Some(text) => Some(text),
            None => Some(menu.options@[menu.index as int].name@),
        }
    } else {
        None
    }
}

/// The name of a field with what was entered for it. For a field that is
/// answered in a menu that is the menu's answer.
pub open spec fn field_entry(nodes: Seq<State>, field: Context) -> Option<(Seq<char>, Seq<char>)> {
    match field {
        Context::StateContext(c) => Some((c.name@, c.value@)),
        Context::StateOptionsContext(c) => if c.state < nodes.len() {
            match nodes[c.state as int] {
                State::OptionsState(menu) => match answer(nodes, menu) {
                    Some(text) => Some((c.name@, text)),
                    None => None,
                },
                _ => None,
            }
        } else {
            None
        },
    }
}

/// What the step `i` contributes to the result of a flow. A menu contributes
/// the chosen option's name, under its own name as the field and its parent's
/// name, or `None`, as the step. A step that asks for fields contributes
/// every field.
pub open spec fn contribution(nodes: Seq<State>, i: int) -> Option<CollectionView> {
    match nodes[i] {
        State::OptionsState(o) => if o.index < o.options@.len() {
            Some(
                CollectionView {
                    state_name: match o.parent {
                        Some(p) => nodes[p as int].spec_name()@,
                        None => "None"@,
                    },
                    entries: seq![(o.name@, o.options@[o.index as int].name@)],
                },
            )
        } else {
            None
        },
        State::ContextState(c) => if forall|j: int|
            0 <= j < c.contexts@.len() ==> field_entry(nodes, #[trigger] c.contexts@[j]) is Some {
            Some(
                CollectionView {
                    state_name: c.name@,
                    entries: Seq::new(
                        c.contexts@.len(),
                        |j: int| field_entry(nodes, c.contexts@[j])->0,
                    ),
                },
            )
        } else {
            None
        },
        State::StateHolder(_) => None,
    }
}

/// The step `id`, its parent, the parent's parent and so on up to the root.
pub open spec fn path_to_root(nodes: Seq<State>, id: int) -> Seq<int>
    decreases id,
{
    match nodes[id].spec_parent() {
        Some(p) if 0 <= id && p < id => seq![id] + path_to_root(nodes, p as int),
        _ => seq![id],
    }
}

impl StateOptionsContext {
    /// The field's name with the answer of its menu in `graph`.
    pub fn collect(&self, graph: &Graph) -> (r: Result<ContextLikeCollection, Error>)
        ensures
            match r {
                Ok(c) => field_entry(graph.states(), Context::StateOptionsContext(*self)) == Some(c@),
                Err(_) => field_entry(graph.states(), Context::StateOptionsContext(*self)) is None,
            },
    {
        if self.state >= graph.len() {
            return Err(Error::BadConstruction);
        }
        let menu = match graph.get(self.state) {
            State::OptionsState(menu) => menu,
            _ => {
                return Err(Error::BadConstruction);
            },
        };
        if menu.index >= menu.options.len() {
            return Err(Error::BadConstruction);
        }
        let option = &menu.options[menu.index];
        if menu.index + 1 == menu.options.len() {
            match option.state {
                Some(t) => {
                    if t < graph.len() {
                        let s = match graph.get(t) {
                            State::StateHolder(h) => h.state,
                            _ => Some(t),
                        };
                        match s {
                            Some(s) => {
                                if s < graph.len() {
                                    match graph.get(s) {
                                        State::ContextState(c) => {
                                            if c.contexts.len() > 0 {
                                                return Ok(
                                                    ContextLikeCollection::new(
                                                        self.name.clone(),
                                                        c.contexts[0].get_value(),
                                                    ),
                                                );
                                            }
                                        },
                                        _ => {},
                                    }
                                }
                            },
                            None => {},
                        }
                    }
                },
                None => {},
            }
        }
        Ok(ContextLikeCollection::new(self.name.clone(), option.get_name()))
    }
}

impl Context {
    /// The field's name with what was entered for it, in `graph`.
    pub fn collect(&self, graph: &Graph) -> (r: Result<ContextLikeCollection, Error>)
        ensures
            match r {
                Ok(c) => field_entry(graph.states(), *self) == Some(c@),
                Err(_) => field_entry(graph.states(), *self) is None,
            },
    {
        match self {
            Context::StateContext(c) => Ok(c.collect()),
            Context::StateOptionsContext(c) => c.collect(graph),
        }
    }
}

impl ContextState {
    /// The step's name with every field and what was entered for it.
    pub fn collect(&self, graph: &Graph) -> (r: Result<Collection, Error>)
        ensures
            match r {
                Ok(c) => c@.state_name == self.name@ && c@.entries.len() == self.contexts@.len()
                    && forall|j: int|
                    0 <= j < self.contexts@.len() ==> field_entry(
                        graph.states(),
                        #[trigger] self.contexts@[j],
                    ) == Some(c@.entries[j]),
                Err(_) => exists|j: int|
                    0 <= j < self.contexts@.len() && field_entry(
                        graph.states(),
                        #[trigger] self.contexts@[j],
                    ) is None,
            },
    {
        let mut entries: Vec<ContextLikeCollection> = Vec::new();
        let mut j: usize = 0;
        while j < self.contexts.len()
            invariant
                j <= self.contexts@.len(),
                entries@.len() == j,
                forall|i: int|
                    0 <= i < j ==> field_entry(graph.states(), #[trigger] self.contexts@[i]) == Some(
                        entries@[i]@,
                    ),
            decreases self.contexts@.len() - j,
        {
            match self.contexts[j].collect(graph) {
                Ok(entry) => {
                    entries.push(entry);
                },
                Err(e) => {
                    return Err(e);
                },
            }
            j += 1;
        }
        Ok(Collection::new(self.get_name(), entries))
    }
}

impl OptionsState {
    /// The chosen option's name, under the menu's name as the field and
    /// `step` as the step. A menu whose index names no option is refused.
    pub fn collect(&self, step: String) -> (r: Result<Collection, Error>)
        ensures
            match r {
                Ok(c) => self.index < self.options@.len() && c@ == (CollectionView {
                    state_name: step@,
                    entries: seq![(self.name@, self.options@[self.index as int].name@)],
                }),
                Err(e) => self.index >= self.options@.len() && e == Error::BadConstruction,
            },
    {
        if self.index >= self.options.len() {
            return Err(Error::BadConstruction);
        }
        let mut entries: Vec<ContextLikeCollection> = Vec::new();
        entries.push(ContextLikeCollection::new(self.get_name(), self.options[self.index].get_name()));
        let c = Collection::new(step, entries);
        assert(c@.entries =~= seq![(self.name@, self.options@[self.index as int].name@)]);
        Ok(c)
    }
}

impl Graph {
    /// What the step `id` contributes to the result of the flow.
    pub fn contribution_of(&self, id: usize) -> (r: Result<Collection, Error>)
        requires
            self.wf(),
            is_step(self.states(), id as int),
        ensures
            match r {
                Ok(c) => contribution(self.states(), id as int) == Some(c@),
                Err(_) => contribution(self.states(), id as int) is None,
            },
    {
        match self.get(id) {
            State::OptionsState(o) => {
                let step = match o.parent {
                    Some(p) => {
                        assert(crate::graph::node_ok(self.states(), id as int));
                        self.get(p).get_name()
                    },
                    None => "None".to_owned(),
                };
                o.collect(step)
            },
            State::ContextState(s) => {
                match s.collect(self) {
                    Ok(c) => {
                        assert(c@.entries =~= Seq::new(
                            s.contexts@.len(),
                            |j: int| field_entry(self.states(), s.contexts@[j])->0,
                        ));
                        Ok(c)
                    },
                    Err(e) => Err(e),
                }
            },
            State::StateHolder(_) => Err(Error::BadConstruction),
        }
    }

    /// Gathers what was entered on the way to the step `id`: the
    /// contribution of `id` first, then its parent's, and so on up to the
    /// root, one for each step on the way. Nothing is gathered where a menu
    /// on the way has no option under its index.
    pub fn collect(&self, id: usize) -> (r: Result<Vec<Collection>, Error>)
        requires
            self.wf(),
            is_step(self.states(), id as int),
        ensures
            match r {
                Ok(v) => {
                    let path = path_to_root(self.states(), id as int);
                    &&& v@.len() == path.len()
                    &&& forall|k: int|
                        0 <= k < path.len() ==> contribution(self.states(), #[trigger] path[k])
                            == Some(v@[k]@)
                },
                Err(e) => {
                    let path = path_to_root(self.states(), id as int);
                    &&& e == Error::BadConstruction
                    &&& exists|k: int|
                        0 <= k < path.len() && contribution(self.states(), #[trigger] path[k]) is None
                },
            },
    {
        let mut out: Vec<Collection> = Vec::new();
        let mut at: usize = id;
        let ghost mut done: Seq<int> = Seq::empty();
        loop
            invariant
                self.wf(),
                is_step(self.states(), at as int),
                done.len() == out@.len(),
                path_to_root(self.states(), id as int) == done + path_to_root(
                    self.states(),
                    at as int,
                ),
                forall|k: int|
                    0 <= k < done.len() ==> contribution(self.states(), #[trigger] done[k]) == Some(
                        out@[k]@,
                    ),
            decreases at,
        {
            let ghost rest = path_to_root(self.states(), at as int);
            let ghost path = path_to_root(self.states(), id as int);
            assert(rest[0] == at);
            assert(path[done.len() as int] == at);
            match self.contribution_of(at) {
                Ok(c) => {
                    out.push(c);
                },
                Err(_) => {
                    return Err(Error::BadConstruction);
                },
            }
            assert(crate::graph::node_ok(self.states(), at as int));
            match self.get(at).get_parent() {
                Some(p) => {
                    proof {
                        assert(rest =~= seq![at as int] + path_to_root(self.states(), p as int));
                        assert(path =~= done.push(at as int) + path_to_root(self.states(), p as int));
                        done = done.push(at as int);
                    }
                    at = p;
                },
                None => {
                    proof {
                        assert(rest =~= seq![at as int]);
                        assert(path =~= done.push(at as int));
                    }
                    return Ok(out);
                },
            }
        }
    }
}

} // verus!
