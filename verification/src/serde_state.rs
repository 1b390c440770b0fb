use vstd::prelude::*;
use crate::context::{Context, StateContext, StateOptionsContext};
use crate::error::{Error, LoadError};
use crate::graph::{cached, described, is_step, menu_ok, target_ok, Graph};
use crate::option::StateOption;
use crate::source::{ConfigSource, Sources};
use crate::state::{ContextState, OptionsState, State, StateHolder};

verus! {

/// The description of a step.
#[derive(Debug, PartialEq, Eq)]
pub struct SerDeState {
    pub name: String,
    pub description: String,
    pub kind: StateType,
}

/// What kind of step a description describes, and what the step consists of.
#[derive(Debug, PartialEq, Eq)]
pub enum StateType {
    /// A menu with these options.
    Options(Vec<SerDeOption>),
    /// A step with these fields; whether the flow is complete when they are
    /// filled; the step that follows.
    Context(Vec<SerDeContext>, bool, Option<Box<SerDeIntoState>>),
}

/// The description of a field.
#[derive(Debug, PartialEq, Eq)]
pub struct SerDeContext {
    pub name: String,
    pub value: Option<String>,
    pub kind: ContextType,
}

#[derive(Debug, PartialEq, Eq)]
pub enum ContextType {
    /// A field for any text.
    Normal,
    /// A field answered in a menu of these options; the name of the option
    /// that stands for "something else"; the question asked of a user who
    /// picks it.
    Options(Vec<SerDeOption>, String, String),
}

/// The description of an option. Without a step of its own it leads to where
/// the menu is told to send such options.
#[derive(Debug, PartialEq, Eq)]
pub struct SerDeOption {
    pub name: String,
    pub submit: Option<bool>,
    pub reset: Option<bool>,
    pub state: Option<SerDeIntoState>,
}

/// A step written out where it is used, or the path under which a source
/// holds its description.
#[derive(Debug, PartialEq, Eq)]
pub enum SerDeIntoState {
    Inline(SerDeState),
    /// The path; whether loading waits until the step is first used; which
    /// of the sources to ask.
    Path(String, Option<bool>, usize),
}

/// The text of `value`, or no text where there is none.
pub open spec fn text_or_empty(value: Option<String>) -> Seq<char> {
    match value {
        Some(v) => v@,
        None => Seq::<char>::empty(),
    }
}

/// What a flag says; one that is left out says no.
pub open spec fn flag(value: Option<bool>) -> bool {
    match value {
        Some(b) => b,
        None => false,
    }
}

impl SerDeIntoState {
    /// Building the step asks no source for anything.
    pub open spec fn deferred(&self) -> bool
        decreases self,
    {
        match self {
            SerDeIntoState::Inline(s) => s.deferred(),
            SerDeIntoState::Path(_, lazy, _) => flag(*lazy),
        }
    }

    /// Nothing is missing from what is written out.
    pub open spec fn complete(&self) -> bool
        decreases self,
    {
        match self {
            SerDeIntoState::Inline(s) => s.complete(),
            SerDeIntoState::Path(_, _, _) => true,
        }
    }

    /// The node `id` of `nodes` is what the description says, under `parent`:
    /// the step that is written out, with all that is written out inside it,
    /// or a placeholder for the path, which has been replaced by a step
    /// unless it is to wait.
    pub open spec fn built(&self, nodes: Seq<State>, id: usize, parent: Option<usize>) -> bool
        decreases self,
    {
        match self {
            SerDeIntoState::Inline(s) => s.built(nodes, id, parent),
            SerDeIntoState::Path(path, lazy, which) => {
                &&& id < nodes.len()
                &&& nodes[id as int] matches State::StateHolder(h)
                &&& h.path@ == path@
                &&& h.which_function == which
                &&& h.parent == parent
                &&& flag(*lazy) == (h.state is None)
            },
        }
    }

    /// What is built stays built while the nodes from `id` on stay as they
    /// are.
    pub proof fn built_stays(
        &self,
        before: Seq<State>,
        after: Seq<State>,
        id: usize,
        parent: Option<usize>,
    )
        requires
            self.built(before, id, parent),
            before.len() <= after.len(),
            forall|i: int| id <= i < before.len() ==> #[trigger] after[i] == before[i],
        ensures
            self.built(after, id, parent),
        decreases self,
    {
        match self {
            SerDeIntoState::Inline(s) => {
                s.built_stays(before, after, id, parent);
            },
            SerDeIntoState::Path(_, _, _) => {
                assert(after[id as int] == before[id as int]);
            },
        }
    }

    /// Adds to `graph` the step that is written out, under `parent`, or a
    /// placeholder for the one that a path names. A placeholder that is not
    /// to wait is replaced at once, which may load descriptions nested
    /// `depth` deep at most.
    pub fn into_into_state<S: ConfigSource>(
        &self,
        graph: &mut Graph,
        parent: Option<usize>,
        sources: &mut Sources<S>,
        depth: usize,
    ) -> (r: Result<Result<usize, Error>, LoadError>)
        requires
            old(graph).wf(),
            parent matches Some(p) ==> is_step(old(graph).states(), p as int),
        ensures
            final(graph).wf(),
            final(graph).extends(old(graph)),
            final(sources).continues(old(sources)),
            r matches Ok(Ok(id)) ==> {
                &&& id == old(graph).states().len()
                &&& id < final(graph).states().len()
                &&& self.built(final(graph).states(), id, parent)
            },
            self matches SerDeIntoState::Path(_, lazy, _) && flag(*lazy) ==> {
                &&& final(graph).states().len() == old(graph).states().len() + 1
                &&& final(graph).entries() == old(graph).entries()
            },
            self matches SerDeIntoState::Path(path, lazy, which) ==> (if flag(*lazy) || cached(
                old(graph).entries(),
                path@,
            ) is Some || which >= old(sources).count() || depth == 0 {
                *final(sources) == *old(sources)
            } else {
                final(sources).asked_next(old(sources), *which, path@)
            }),
            self.deferred() ==> r is Ok && (r->Ok_0 is Ok <==> self.complete()),
            self.deferred() ==> *final(sources) == *old(sources) && final(graph).entries() == old(
                graph,
            ).entries(),
        decreases depth, 1int, self,
    {
        match self {
            SerDeIntoState::Inline(state) => state.into_state(graph, parent, sources, depth),
            SerDeIntoState::Path(path, lazy, which_function) => {
                let holder = StateHolder::new(parent, path.clone(), *which_function);
                let id = graph.add_state(State::StateHolder(holder));
                let wait = match lazy {
                    Some(b) => *b,
                    None => false,
                };
                if !wait {
                    match graph.into_state_sandwich(id, sources, depth) {
                        Ok(_) => {},
                        Err(e) => {
                            return Err(e);
                        },
                    }
                }
                Ok(Ok(id))
            },
        }
    }
}

impl SerDeOption {
    /// Making the option asks no source for anything.
    pub open spec fn deferred(&self) -> bool
        decreases self,
    {
        match self.state {
            Some(t) => t.deferred(),
            None => true,
        }
    }

    /// The option leads somewhere: to a step of its own that lacks nothing,
    /// or, if `backup`, to where the menu sends it.
    pub open spec fn complete(&self, backup: bool) -> bool
        decreases self,
    {
        match self.state {
            Some(t) => t.complete(),
            None => backup,
        }
    }

    /// `option` is what the description says: its name and flags, and where
    /// it leads. That is a node of `nodes` that stands after `parent` and is
    /// what the description says of the option's own step, or else `backup`.
    pub open spec fn built(
        &self,
        nodes: Seq<State>,
        option: StateOption,
        parent: Option<usize>,
        backup: Option<usize>,
    ) -> bool
        decreases self,
    {
        &&& option.name@ == self.name@
        &&& option.submit == flag(self.submit)
        &&& option.reset == flag(self.reset)
        &&& match self.state {
            Some(t) => {
                &&& option.state matches Some(id)
                &&& parent matches Some(p) ==> p < id
                &&& t.built(nodes, id, parent)
            },
            None => backup is Some && option.state == backup,
        }
    }

    /// What is built stays built while the nodes after `parent` stay as they
    /// are.
    pub proof fn built_stays(
        &self,
        before: Seq<State>,
        after: Seq<State>,
        option: StateOption,
        parent: Option<usize>,
        backup: Option<usize>,
    )
        requires
            self.built(before, option, parent, backup),
            parent is Some,
            before.len() <= after.len(),
            forall|i: int| parent->0 < i < before.len() ==> #[trigger] after[i] == before[i],
        ensures
            self.built(after, option, parent, backup),
        decreases self,
    {
        match self.state {
            Some(t) => {
                t.built_stays(before, after, option.state->0, parent);
            },
            None => {},
        }
    }

    /// Makes the option. It leads to its own step, which is added to `graph`
    /// under `parent`, or else to `backup_state`. An option with neither is
    /// refused.
    pub fn into_option<S: ConfigSource>(
        &self,
        graph: &mut Graph,
        parent: Option<usize>,
        backup_state: Option<usize>,
        sources: &mut Sources<S>,
        depth: usize,
    ) -> (r: Result<Result<StateOption, Error>, LoadError>)
        requires
            old(graph).wf(),
            parent matches Some(p) ==> is_step(old(graph).states(), p as int),
            backup_state matches Some(b) ==> b < old(graph).states().len(),
        ensures
            final(graph).wf(),
            final(graph).extends(old(graph)),
            final(sources).continues(old(sources)),
            r matches Ok(Ok(option)) ==> {
                &&& self.built(final(graph).states(), option, parent, backup_state)
                &&& target_ok(final(graph).states(), option)
                &&& self.state is Some ==> option.state == Some(old(graph).states().len() as usize)
            },
            self.state is None ==> final(graph).states() == old(graph).states(),
            self.deferred() ==> r is Ok && (r->Ok_0 is Ok <==> self.complete(backup_state is Some)),
            self.deferred() ==> *final(sources) == *old(sources) && final(graph).entries() == old(
                graph,
            ).entries(),
        decreases depth, 1int, self,
    {
        let submit = match self.submit {
            Some(b) => b,
            None => false,
        };
        let reset = match self.reset {
            Some(b) => b,
            None => false,
        };
        match &self.state {
            Some(state) => {
                match state.into_into_state(graph, parent, sources, depth) {
                    Ok(Ok(id)) => Ok(Ok(StateOption::new(self.name.clone(), Some(id), submit, reset))),
                    Ok(Err(e)) => Ok(Err(e)),
                    Err(e) => Err(e),
                }
            },
            None => {
                match backup_state {
                    Some(b) => Ok(Ok(StateOption::new(self.name.clone(), Some(b), submit, reset))),
                    None => Ok(Err(Error::BadConstruction)),
                }
            },
        }
    }
}

impl SerDeContext {
    /// Making the field asks no source for anything.
    pub open spec fn deferred(&self) -> bool
        decreases self,
    {
        match self.kind {
            ContextType::Normal => true,
            ContextType::Options(options, _, _) => forall|j: int|
                0 <= j < options@.len() ==> (#[trigger] options@[j]).deferred(),
        }
    }

    /// Nothing is missing: a field answered in a menu belongs to a step, if
    /// `owned`, and each step written out for an answer lacks nothing.
    pub open spec fn complete(&self, owned: bool) -> bool
        decreases self,
    {
        match self.kind {
            ContextType::Normal => true,
            ContextType::Options(options, _, _) => owned && forall|j: int|
                0 <= j < options@.len() ==> (#[trigger] options@[j]).complete(true),
        }
    }

    /// `context` is the field that the description says, in `nodes`: its name
    /// and value, and for a field answered in a menu the menu: its options,
    /// last among them the one for "something else", which leads to a step
    /// with the one question and from there back to `owner`. That step goes
    /// by the owner's name, and the field's name describes it, as it
    /// describes the menu.
    pub open spec fn built(&self, nodes: Seq<State>, context: Context, owner: Option<usize>) -> bool
        decreases self,
    {
        &&& context.spec_name()@ == self.name@
        &&& context.spec_value()@ == text_or_empty(self.value)
        &&& match self.kind {
            ContextType::Normal => context is StateContext,
            ContextType::Options(options, other, question) => {
                &&& context matches Context::StateOptionsContext(f)
                &&& owner matches Some(p) && p < f.state
                &&& f.state + 1 < nodes.len()
                &&& nodes[f.state as int] matches State::OptionsState(menu)
                &&& menu.parent == owner
                &&& menu.name@ == "OPTIONS"@
                &&& menu.description@ == self.name@
                &&& menu.index == 0
                &&& menu.options@.len() == options@.len() + 1
                &&& forall|j: int|
                    0 <= j < options@.len() ==> (#[trigger] options@[j]).built(
                        nodes,
                        menu.options@[j],
                        Some(f.state),
                        owner,
                    )
                &&& menu.options@.last().name@ == other@
                &&& menu.options@.last().state == Some((f.state + 1) as usize)
                &&& !menu.options@.last().submit
                &&& !menu.options@.last().reset
                &&& nodes[f.state + 1] matches State::ContextState(free)
                &&& free.name@ == nodes[owner->0 as int].spec_name()@
                &&& free.description@ == self.name@
                &&& free.parent == Some(f.state)
                &&& free.next == owner
                &&& free.index == 0
                &&& !free.submit
                &&& !free.go_back
                &&& free.contexts@.len() == 1
                &&& free.contexts@[0] is StateContext
                &&& free.contexts@[0].spec_name()@ == question@
                &&& free.contexts@[0].spec_value()@ == Seq::<char>::empty()
            },
        }
    }

    /// What is built stays built while the nodes after `owner` stay as they
    /// are and `owner` keeps its name.
    pub proof fn built_stays(
        &self,
        before: Seq<State>,
        after: Seq<State>,
        context: Context,
        owner: Option<usize>,
    )
        requires
            self.built(before, context, owner),
            before.len() <= after.len(),
            owner matches Some(p) ==> forall|i: int|
                p < i < before.len() ==> #[trigger] after[i] == before[i],
            owner matches Some(p) ==> p < before.len() ==> after[p as int].spec_name()
                == before[p as int].spec_name(),
        ensures
            self.built(after, context, owner),
        decreases self,
    {
        match self.kind {
            ContextType::Normal => {},
            ContextType::Options(options, _, _) => {
                let f = context->StateOptionsContext_0;
                let menu = before[f.state as int]->OptionsState_0;
                assert(after[f.state as int] == before[f.state as int]);
                assert(after[f.state + 1] == before[f.state + 1]);
                assert forall|j: int| 0 <= j < options@.len() implies (#[trigger] options@[j]).built(
                    after,
                    menu.options@[j],
                    Some(f.state),
                    owner,
                ) by {
                    options@[j].built_stays(before, after, menu.options@[j], Some(f.state), owner);
                }
            },
        }
    }

    /// Makes the field. For a field answered in a menu, the menu and the step
    /// for "something else" are added to `graph` under the step that owns the
    /// field, `parent_of_options_state`; without an owner such a field is
    /// refused.
    pub fn into_context<S: ConfigSource>(
        &self,
        graph: &mut Graph,
        parent_of_options_state: Option<usize>,
        sources: &mut Sources<S>,
        depth: usize,
    ) -> (r: Result<Result<Context, Error>, LoadError>)
        requires
            old(graph).wf(),
            parent_of_options_state matches Some(p) ==> is_step(old(graph).states(), p as int),
        ensures
            final(graph).wf(),
            final(graph).extends(old(graph)),
            final(sources).continues(old(sources)),
            r matches Ok(Ok(context)) ==> {
                &&& self.built(final(graph).states(), context, parent_of_options_state)
                &&& menu_ok(final(graph).states(), context)
                &&& context.spec_menu() matches Some(m) ==> m == old(graph).states().len()
            },
            self.kind is Normal ==> final(graph).states() == old(graph).states(),
            self.deferred() ==> r is Ok && (r->Ok_0 is Ok <==> self.complete(
                parent_of_options_state is Some,
            )),
            self.deferred() ==> *final(sources) == *old(sources) && final(graph).entries() == old(
                graph,
            ).entries(),
        decreases depth, 1int, self,
    {
        let value = match &self.value {
            Some(v) => v.clone(),
            None => String::new(),
        };
        match &self.kind {
            ContextType::Normal => Ok(
                Ok(Context::StateContext(StateContext::new(self.name.clone(), value))),
            ),
            ContextType::Options(options, given_option, given_question) => {
                let owner = match parent_of_options_state {
                    Some(p) => p,
                    None => {
                        return Ok(Err(Error::BadConstruction));
                    },
                };
                let name = graph.get(owner).get_name();
                let menu = graph.add_state(
                    State::OptionsState(
                        OptionsState::new(
                            "OPTIONS".to_owned(),
                            self.name.clone(),
                            parent_of_options_state,
                            Vec::new(),
                        ),
                    ),
                );
                let mut question: Vec<Context> = Vec::new();
                question.push(
                    Context::StateContext(StateContext::new(given_question.clone(), String::new())),
                );
                let free = graph.add_state(
                    State::ContextState(
                        ContextState::new(
                            name,
                            self.name.clone(),
                            Some(menu),
                            parent_of_options_state,
                            question,
                            false,
                        ),
                    ),
                );
                let ghost middle = *graph;
                let mut built: Vec<StateOption> = Vec::new();
                let mut k: usize = 0;
                while k < options.len()
                    invariant
                        k <= options@.len(),
                        graph.wf(),
                        sources.continues(old(sources)),
                        self.deferred() ==> *sources == *old(sources) && graph.entries() == old(
                            graph,
                        ).entries(),
                        graph.extends(&middle),
                        middle.states().len() == old(graph).states().len() + 2,
                        menu == old(graph).states().len(),
                        free == menu + 1,
                        parent_of_options_state == Some(owner),
                        self.kind matches ContextType::Options(o, _, _) && o == *options,
                        is_step(middle.states(), owner as int),
                        is_step(middle.states(), menu as int),
                        built@.len() == k,
                        forall|j: int|
                            0 <= j < k ==> (#[trigger] options@[j]).built(
                                graph.states(),
                                built@[j],
                                Some(menu),
                                Some(owner),
                            ),
                        forall|j: int| 0 <= j < k ==> target_ok(graph.states(), #[trigger] built@[j]),
                        middle.extends(old(graph)),
                        forall|j: int|
                            0 <= j < k ==> (#[trigger] options@[j]).deferred() ==> options@[j].complete(true),
                    decreases options@.len() - k,
                {
                    let ghost earlier = graph.states();
                    match options[k].into_option(graph, Some(menu), Some(owner), sources, depth) {
                        Ok(Ok(option)) => {
                            proof {
                                assert forall|j: int| 0 <= j < k implies (#[trigger] options@[j]).built(
                                    graph.states(),
                                    built@[j],
                                    Some(menu),
                                    Some(owner),
                                ) by {
                                    options@[j].built_stays(
                                        earlier,
                                        graph.states(),
                                        built@[j],
                                        Some(menu),
                                        Some(owner),
                                    );
                                }
                            }
                            built.push(option);
                        },
                        Ok(Err(e)) => {
                            return Ok(Err(e));
                        },
                        Err(e) => {
                            return Err(e);
                        },
                    }
                    k += 1;
                }
                built.push(StateOption::new(given_option.clone(), Some(free), false, false));
                let ghost earlier = graph.states();
                graph.set_options(menu, built);
                proof {
                    assert forall|j: int| 0 <= j < options@.len() implies (#[trigger] options@[j]).built(
                        graph.states(),
                        built@[j],
                        Some(menu),
                        Some(owner),
                    ) by {
                        options@[j].built_stays(
                            earlier,
                            graph.states(),
                            built@[j],
                            Some(menu),
                            Some(owner),
                        );
                    }
                }
                Ok(
                    Ok(
                        Context::StateOptionsContext(
                            StateOptionsContext::new(self.name.clone(), value, menu),
                        ),
                    ),
                )
            },
        }
    }
}

impl SerDeState {
    /// Building the step asks no source for anything: every path that is
    /// named inside it is to wait.
    pub open spec fn deferred(&self) -> bool
        decreases self,
    {
        match self.kind {
            StateType::Options(options) => forall|j: int|
                0 <= j < options@.len() ==> (#[trigger] options@[j]).deferred(),
            StateType::Context(contexts, _, next) => {
                &&& forall|j: int| 0 <= j < contexts@.len() ==> (#[trigger] contexts@[j]).deferred()
                &&& next matches Some(n) ==> n.deferred()
            },
        }
    }

    /// Nothing is missing: every option leads to a step, and every step
    /// written out inside lacks nothing.
    pub open spec fn complete(&self) -> bool
        decreases self,
    {
        match self.kind {
            StateType::Options(options) => forall|j: int|
                0 <= j < options@.len() ==> (#[trigger] options@[j]).complete(false),
            StateType::Context(contexts, _, next) => {
                &&& forall|j: int|
                    0 <= j < contexts@.len() ==> (#[trigger] contexts@[j]).complete(true)
                &&& next matches Some(n) ==> n.complete()
            },
        }
    }

    /// The node `id` of `nodes` is the step that the description says, at its
    /// beginning and under `parent`: its name and description, and each
    /// option or field as the description says it, with the steps that they
    /// lead to and the step that follows.
    pub open spec fn built(&self, nodes: Seq<State>, id: usize, parent: Option<usize>) -> bool
        decreases self,
    {
        &&& id < nodes.len()
        &&& match self.kind {
            StateType::Options(options) => {
                &&& nodes[id as int] matches State::OptionsState(o)
                &&& o.name@ == self.name@
                &&& o.description@ == self.description@
                &&& o.parent == parent
                &&& o.index == 0
                &&& o.options@.len() == options@.len()
                &&& forall|j: int|
                    0 <= j < options@.len() ==> (#[trigger] options@[j]).built(
                        nodes,
                        o.options@[j],
                        Some(id),
                        None,
                    )
            },
            StateType::Context(contexts, submit, next) => {
                &&& nodes[id as int] matches State::ContextState(c)
                &&& c.name@ == self.name@
                &&& c.description@ == self.description@
                &&& c.parent == parent
                &&& c.index == 0
                &&& c.submit == submit
                &&& !c.go_back
                &&& c.contexts@.len() == contexts@.len()
                &&& forall|j: int|
                    0 <= j < contexts@.len() ==> (#[trigger] contexts@[j]).built(
                        nodes,
                        c.contexts@[j],
                        Some(id),
                    )
                &&& match next {
                    Some(n) => c.next matches Some(t) && id < t && n.built(nodes, t, Some(id)),
                    None => c.next is None,
                }
            },
        }
    }

    /// What is built stays built while the nodes from `id` on stay as they
    /// are.
    pub proof fn built_stays(
        &self,
        before: Seq<State>,
        after: Seq<State>,
        id: usize,
        parent: Option<usize>,
    )
        requires
            self.built(before, id, parent),
            before.len() <= after.len(),
            forall|i: int| id <= i < before.len() ==> #[trigger] after[i] == before[i],
        ensures
            self.built(after, id, parent),
        decreases self,
    {
        assert(after[id as int] == before[id as int]);
        match self.kind {
            StateType::Options(options) => {
                let o = before[id as int]->OptionsState_0;
                assert forall|j: int| 0 <= j < options@.len() implies (#[trigger] options@[j]).built(
                    after,
                    o.options@[j],
                    Some(id),
                    None,
                ) by {
                    options@[j].built_stays(before, after, o.options@[j], Some(id), None);
                }
            },
            StateType::Context(contexts, _, next) => {
                let c = before[id as int]->ContextState_0;
                assert forall|j: int| 0 <= j < contexts@.len() implies (
                #[trigger] contexts@[j]).built(after, c.contexts@[j], Some(id)) by {
                    contexts@[j].built_stays(before, after, c.contexts@[j], Some(id));
                }
                match next {
                    Some(n) => {
                        n.built_stays(before, after, c.next->0, Some(id));
                    },
                    None => {},
                }
            },
        }
    }

    /// Adds the step that is described to `graph`, under `parent`, with all
    /// that is written out inside it, and says where it stands. Descriptions
    /// that have to be loaded on the way may be nested `depth` deep at most.
    pub fn into_state<S: ConfigSource>(
        &self,
        graph: &mut Graph,
        parent: Option<usize>,
        sources: &mut Sources<S>,
        depth: usize,
    ) -> (r: Result<Result<usize, Error>, LoadError>)
        requires
            old(graph).wf(),
            parent matches Some(p) ==> is_step(old(graph).states(), p as int),
        ensures
            final(graph).wf(),
            final(graph).extends(old(graph)),
            final(sources).continues(old(sources)),
            r matches Ok(Ok(id)) ==> {
                &&& id == old(graph).states().len()
                &&& is_step(final(graph).states(), id as int)
                &&& self.built(final(graph).states(), id, parent)
            },
            self.deferred() ==> r is Ok && (r->Ok_0 is Ok <==> self.complete()),
            self.deferred() ==> *final(sources) == *old(sources) && final(graph).entries() == old(
                graph,
            ).entries(),
        decreases depth, 1int, self,
    {
        match &self.kind {
            StateType::Context(contexts, submit, next) => {
                let id = graph.add_state(
                    State::ContextState(
                        ContextState::new(
                            self.name.clone(),
                            self.description.clone(),
                            parent,
                            None,
                            Vec::new(),
                            *submit,
                        ),
                    ),
                );
                let ghost middle = *graph;
                let mut built: Vec<Context> = Vec::new();
                let mut k: usize = 0;
                while k < contexts.len()
                    invariant
                        k <= contexts@.len(),
                        graph.wf(),
                        sources.continues(old(sources)),
                        self.deferred() ==> *sources == *old(sources) && graph.entries() == old(
                            graph,
                        ).entries(),
                        graph.extends(&middle),
                        middle.states().len() == old(graph).states().len() + 1,
                        id == old(graph).states().len(),
                        is_step(middle.states(), id as int),
                        built@.len() == k,
                        middle.extends(old(graph)),
                        self.kind matches StateType::Context(c, _, _) && c == *contexts,
                        forall|j: int| 0 <= j < k ==> menu_ok(graph.states(), #[trigger] built@[j]),
                        forall|j: int|
                            0 <= j < k ==> (#[trigger] contexts@[j]).built(
                                graph.states(),
                                built@[j],
                                Some(id),
                            ),
                        forall|j: int|
                            0 <= j < k ==> (#[trigger] contexts@[j]).deferred() ==> contexts@[j].complete(true),
                    decreases contexts@.len() - k,
                {
                    let ghost earlier = graph.states();
                    match contexts[k].into_context(graph, Some(id), sources, depth) {
                        Ok(Ok(context)) => {
                            proof {
                                assert forall|j: int| 0 <= j < k implies (
                                #[trigger] contexts@[j]).built(graph.states(), built@[j], Some(id)) by {
                                    contexts@[j].built_stays(
                                        earlier,
                                        graph.states(),
                                        built@[j],
                                        Some(id),
                                    );
                                }
                            }
                            built.push(context);
                        },
                        Ok(Err(e)) => {
                            return Ok(Err(e));
                        },
                        Err(e) => {
                            return Err(e);
                        },
                    }
                    k += 1;
                }
                let ghost earlier = graph.states();
                graph.set_contexts(id, built);
                proof {
                    assert forall|j: int| 0 <= j < contexts@.len() implies (
                    #[trigger] contexts@[j]).built(graph.states(), built@[j], Some(id)) by {
                        contexts@[j].built_stays(earlier, graph.states(), built@[j], Some(id));
                    }
                }
                match next {
                    Some(next) => {
                        let ghost earlier = graph.states();
                        match next.into_into_state(graph, Some(id), sources, depth) {
                            Ok(Ok(n)) => {
                                let ghost middle = graph.states();
                                graph.set_next(id, Some(n));
                                proof {
                                    next.built_stays(middle, graph.states(), n, Some(id));
                                    assert forall|j: int| 0 <= j < contexts@.len() implies (
                                    #[trigger] contexts@[j]).built(
                                        graph.states(),
                                        built@[j],
                                        Some(id),
                                    ) by {
                                        contexts@[j].built_stays(
                                            earlier,
                                            middle,
                                            built@[j],
                                            Some(id),
                                        );
                                        contexts@[j].built_stays(
                                            middle,
                                            graph.states(),
                                            built@[j],
                                            Some(id),
                                        );
                                    }
                                }
                            },
                            Ok(Err(e)) => {
                                return Ok(Err(e));
                            },
                            Err(e) => {
                                return Err(e);
                            },
                        }
                    },
                    None => {},
                }
                Ok(Ok(id))
            },
            StateType::Options(options) => {
                let id = graph.add_state(
                    State::OptionsState(
                        OptionsState::new(
                            self.name.clone(),
                            self.description.clone(),
                            parent,
                            Vec::new(),
                        ),
                    ),
                );
                let ghost middle = *graph;
                let mut built: Vec<StateOption> = Vec::new();
                let mut k: usize = 0;
                while k < options.len()
                    invariant
                        k <= options@.len(),
                        graph.wf(),
                        sources.continues(old(sources)),
                        self.deferred() ==> *sources == *old(sources) && graph.entries() == old(
                            graph,
                        ).entries(),
                        graph.extends(&middle),
                        middle.states().len() == old(graph).states().len() + 1,
                        id == old(graph).states().len(),
                        is_step(middle.states(), id as int),
                        self.kind matches StateType::Options(o) && o == *options,
                        built@.len() == k,
                        forall|j: int|
                            0 <= j < k ==> (#[trigger] options@[j]).built(
                                graph.states(),
                                built@[j],
                                Some(id),
                                None,
                            ),
                        forall|j: int| 0 <= j < k ==> target_ok(graph.states(), #[trigger] built@[j]),
                        middle.extends(old(graph)),
                        forall|j: int|
                            0 <= j < k ==> (#[trigger] options@[j]).deferred() ==> options@[j].complete(false),
                    decreases options@.len() - k,
                {
                    let ghost earlier = graph.states();
                    match options[k].into_option(graph, Some(id), None, sources, depth) {
                        Ok(Ok(option)) => {
                            proof {
                                assert forall|j: int| 0 <= j < k implies (#[trigger] options@[j]).built(
                                    graph.states(),
                                    built@[j],
                                    Some(id),
                                    None,
                                ) by {
                                    options@[j].built_stays(
                                        earlier,
                                        graph.states(),
                                        built@[j],
                                        Some(id),
                                        None,
                                    );
                                }
                            }
                            built.push(option);
                        },
                        Ok(Err(e)) => {
                            return Ok(Err(e));
                        },
                        Err(e) => {
                            return Err(e);
                        },
                    }
                    k += 1;
                }
                let ghost earlier = graph.states();
                graph.set_options(id, built);
                proof {
                    assert forall|j: int| 0 <= j < options@.len() implies (#[trigger] options@[j]).built(
                        graph.states(),
                        built@[j],
                        Some(id),
                        None,
                    ) by {
                        options@[j].built_stays(earlier, graph.states(), built@[j], Some(id), None);
                    }
                }
                Ok(Ok(id))
            },
        }
    }

    /// Asks the source `which_function` for the description under `name` and
    /// adds the step that it describes to `graph` as a root, as `into_state`
    /// says of the description. A source that is not there is reported and
    /// nothing changes; a source's error is handed on.
    pub fn create_from_yaml_str<S: ConfigSource>(
        graph: &mut Graph,
        sources: &mut Sources<S>,
        name: String,
        which_function: usize,
        depth: usize,
    ) -> (r: Result<Result<usize, Error>, LoadError>)
        requires
            old(graph).wf(),
        ensures
            final(graph).wf(),
            final(graph).extends(old(graph)),
            final(sources).continues(old(sources)),
            which_function >= old(sources).count() ==> {
                &&& r == Err::<Result<usize, Error>, LoadError>(LoadError::FunctionNotFound)
                &&& final(graph).states() == old(graph).states()
                &&& final(graph).entries() == old(graph).entries()
                &&& *final(sources) == *old(sources)
            },
            which_function < old(sources).count() ==> final(sources).asked_next(
                old(sources),
                which_function,
                name@,
            ),
            r matches Ok(Ok(id)) ==> {
                &&& id == old(graph).states().len()
                &&& is_step(final(graph).states(), id as int)
                &&& described(final(graph).states(), id, None)
                &&& exists|description: SerDeState|
                    {
                        &&& #[trigger] description.built(final(graph).states(), id, None)
                        &&& description.deferred() ==> {
                            &&& final(sources).asked() == old(sources).asked().push(
                                (which_function, name@),
                            )
                            &&& final(graph).entries() == old(graph).entries()
                        }
                    }
            },
    {
        if which_function >= sources.len() {
            return Err(LoadError::FunctionNotFound);
        }
        match sources.ask(which_function, &name) {
            Ok(description) => {
                let r = description.into_state(graph, None, sources, depth);
                proof {
                    if r is Ok && r->Ok_0 is Ok {
                        assert(description.built(graph.states(), r->Ok_0->Ok_0, None));
                    }
                }
                r
            },
            Err(e) => Err(e),
        }
    }
}

} // verus!
