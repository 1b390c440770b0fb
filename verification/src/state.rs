use vstd::prelude::*;
use crate::context::Context;
use crate::number::{numeral, parse_u32};
use crate::option::StateOption;
use crate::status::{InputStatus, Output, OutputStatus, StatusLike};

verus! {

/// A placeholder for a step that a source describes under `path`. It is
/// replaced by that step the first time it is used.
#[derive(Debug, Clone, PartialEq, Eq)]
pub struct StateHolder {
    pub parent: Option<usize>,
    pub path: String,
    /// Which of the sources holds the description.
    pub which_function: usize,
    /// The step that stands for the placeholder, once it is known.
    pub state: Option<usize>,
}

impl StateHolder {
    /// A placeholder that has not been replaced yet.
    pub fn new(parent: Option<usize>, path: String, which_function: usize) -> (h: StateHolder)
        ensures
            h.parent == parent,
            h.path == path,
            h.which_function == which_function,
            h.state is None,
    {
        StateHolder { parent, path, which_function, state: None }
    }

    /// The placeholder's path, which serves as its name.
    pub fn get_name(&self) -> (name: String)
        ensures
            name == self.path,
    {
        self.path.clone()
    }
}

/// A menu: a step that is answered by choosing one of its options.
#[derive(Debug, Clone, PartialEq, Eq)]
pub struct OptionsState {
    pub name: String,
    pub description: String,
    /// The option that was chosen last.
    pub index: usize,
    pub parent: Option<usize>,
    pub options: Vec<StateOption>,
}

/// The first option from `from` on whose name is `input`.
pub open spec fn first_named(options: Seq<StateOption>, input: Seq<char>, from: int) -> Option<int>
    decreases options.len() - from,
{
    if from < 0 || from >= options.len() {
        None
    } else if options[from].name@ == input {
        Some(from)
    } else {
        first_named(options, input, from + 1)
    }
}

/// The option that `input` chooses: the one it counts to, from 1, where it is
/// a numeral that counts to one; else the first one that it names.
pub open spec fn recognized(options: Seq<StateOption>, input: Seq<char>) -> Option<int> {
    match numeral(input) {
        Some(n) if 1 <= n <= options.len() => Some(n - 1),
        _ => first_named(options, input, 0),
    }
}

/// `first_named` finds the least index that bears the name, and none only
/// where no option bears it.
pub proof fn first_named_is_least(options: Seq<StateOption>, input: Seq<char>, from: int)
    requires
        0 <= from,
    ensures
        match first_named(options, input, from) {
            Some(k) => from <= k < options.len() && options[k].name@ == input
                && forall|j: int| from <= j < k ==> options[j].name@ != input,
            None => forall|j: int| from <= j < options.len() ==> options[j].name@ != input,
        },
    decreases options.len() - from,
{
    if from < options.len() && options[from].name@ != input {
        first_named_is_least(options, input, from + 1);
    }
}

impl OptionsState {
    pub fn new(
        name: String,
        description: String,
        parent: Option<usize>,
        options: Vec<StateOption>,
    ) -> (s: OptionsState)
        ensures
            s.name == name,
            s.description == description,
            s.index == 0,
            s.parent == parent,
            s.options == options,
    {
        OptionsState { name, description, index: 0, parent, options }
    }

    pub fn get_name(&self) -> (name: String)
        ensures
            name == self.name,
    {
        self.name.clone()
    }

    pub fn get_description(&self) -> (description: String)
        ensures
            description == self.description,
    {
        self.description.clone()
    }

    pub fn get_parent(&self) -> (parent: Option<usize>)
        ensures
            parent == self.parent,
    {
        self.parent
    }

    pub fn get_index(&self) -> (index: usize)
        ensures
            index == self.index,
    {
        self.index
    }

    pub fn get_options(&self) -> (options: Option<&Vec<StateOption>>)
        ensures
            options == Some(&self.options),
    {
        Some(&self.options)
    }

    pub fn set_options(&mut self, options: Vec<StateOption>)
        ensures
            *final(self) == (OptionsState { options, ..*old(self) }),
    {
        self.options = options;
    }

    /// The names of the options, in their order.
    pub open spec fn option_names(&self) -> Seq<Seq<char>> {
        Seq::new(self.options@.len(), |i: int| self.options@[i].name@)
    }

    /// Which option `input` chooses, if any. Nothing is changed.
    pub fn recognize(&self, input: &String) -> (choice: Option<usize>)
        ensures
            match choice {
                Some(k) => recognized(self.options@, input@) == Some(k as int) && k
                    < self.options@.len(),
                None => recognized(self.options@, input@) is None,
            },
    {
        match parse_u32(input) {
            Some(n) => {
                if n > 0 && n as usize - 1 < self.options.len() {
                    return Some(n as usize - 1);
                }
            },
            None => {},
        }
        assert(recognized(self.options@, input@) == first_named(self.options@, input@, 0));
        let mut i: usize = 0;
        while i < self.options.len()
            invariant
                i <= self.options.len(),
                recognized(self.options@, input@) == first_named(self.options@, input@, i as int),
            decreases self.options.len() - i,
        {
            if self.options[i].input(input) {
                return Some(i);
            }
            i += 1;
        }
        None
    }

    /// The menu's prompt: its name, its description and the names of its
    /// options. A menu never changes the current step by being shown.
    pub fn output(&self) -> (status: OutputStatus)
        ensures
            !status.state_changed,
            status.state is None,
            !status.submit,
            status.output is Some,
            status.output->0@.title == self.name@,
            status.output->0@.description == self.description@,
            status.output->0@.options == self.option_names(),
            status.output->0@.help == Seq::<char>::empty(),
    {
        let mut names: Vec<String> = Vec::new();
        let mut i: usize = 0;
        while i < self.options.len()
            invariant
                i <= self.options.len(),
                names@.len() == i,
                forall|j: int| 0 <= j < i ==> names@[j]@ == self.options@[j].name@,
            decreases self.options.len() - i,
        {
            names.push(self.options[i].get_name());
            i += 1;
        }
        let output = Output::new(self.get_name(), self.get_description(), names, String::new());
        assert(output@.options =~= self.option_names());
        OutputStatus { state_changed: false, state: None, submit: false, output: Some(output) }
    }

    /// Takes `amount` from the index, which stops at 0.
    pub fn decrease_index(&mut self, amount: usize)
        ensures
            *final(self) == (OptionsState {
                index: if amount > old(self).index {
                    0
                } else {
                    (old(self).index - amount) as usize
                },
                ..*old(self)
            }),
    {
        if amount > self.index {
            self.index = 0;
        } else {
            self.index -= amount;
        }
    }
}

/// A step that asks for its fields one after the other.
#[derive(Debug, Clone, PartialEq, Eq)]
pub struct ContextState {
    pub name: String,
    pub description: String,
    /// The field that is asked for next; all are filled when it equals their
    /// number.
    pub index: usize,
    pub parent: Option<usize>,
    /// The step that follows when all fields are filled.
    pub next: Option<usize>,
    pub contexts: Vec<Context>,
    /// Whether the flow is complete when all fields are filled.
    pub submit: bool,
    /// Whether the step is to hand over to its parent when it is shown next.
    pub go_back: bool,
}

impl ContextState {
    pub fn new(
        name: String,
        description: String,
        parent: Option<usize>,
        next: Option<usize>,
        contexts: Vec<Context>,
        submit: bool,
    ) -> (s: ContextState)
        ensures
            s.name == name,
            s.description == description,
            s.index == 0,
            s.parent == parent,
            s.next == next,
            s.contexts == contexts,
            s.submit == submit,
            !s.go_back,
    {
        ContextState { name, description, index: 0, parent, next, contexts, submit, go_back: false }
    }

    pub fn get_name(&self) -> (name: String)
        ensures
            name == self.name,
    {
        self.name.clone()
    }

    pub fn get_description(&self) -> (description: String)
        ensures
            description == self.description,
    {
        self.description.clone()
    }

    pub fn get_parent(&self) -> (parent: Option<usize>)
        ensures
            parent == self.parent,
    {
        self.parent
    }

    pub fn get_index(&self) -> (index: usize)
        ensures
            index == self.index,
    {
        self.index
    }

    pub fn get_contexts(&self) -> (contexts: Option<&Vec<Context>>)
        ensures
            contexts == Some(&self.contexts),
    {
        Some(&self.contexts)
    }

    /// Replaces the fields. The index has to fit the new fields.
    pub fn set_contexts(&mut self, contexts: Vec<Context>)
        ensures
            *final(self) == (ContextState { contexts, ..*old(self) }),
    {
        self.contexts = contexts;
    }

    pub fn set_next(&mut self, next: Option<usize>)
        ensures
            *final(self) == (ContextState { next, ..*old(self) }),
    {
        self.next = next;
    }

    /// Whether every field has been filled.
    pub open spec fn exhausted(&self) -> bool {
        self.index >= self.contexts@.len()
    }

    /// How `later` differs from `self` after `input` was entered: the field
    /// under the index holds `input` and the index has moved on by one; a step
    /// whose fields are all filled stays as it is.
    pub open spec fn entered(&self, input: String, later: ContextState) -> bool {
        &&& later.name == self.name
        &&& later.description == self.description
        &&& later.parent == self.parent
        &&& later.next == self.next
        &&& later.submit == self.submit
        &&& later.go_back == self.go_back
        &&& if self.index < self.contexts@.len() {
            &&& later.index == self.index + 1
            &&& later.contexts@ == self.contexts@.update(
                self.index as int,
                self.contexts@[self.index as int].with_value(input),
            )
        } else {
            &&& later.index == self.index
            &&& later.contexts@ == self.contexts@
        }
    }

    /// Writes `input` into the field under the index and moves the index on.
    /// Says whether all fields are filled after that.
    pub fn input(&mut self, input: String) -> (complete: bool)
        ensures
            old(self).entered(input, *final(self)),
            complete == final(self).exhausted(),
    {
        if self.index < self.contexts.len() {
            self.contexts[self.index].input(input);
            self.index += 1;
        }
        self.index >= self.contexts.len()
    }

    /// Fills in what a step reports once all its fields are filled. `next` is
    /// the step that follows, where there is one: the host goes there, and the
    /// flow is complete if the step says so. A step that nothing follows
    /// always completes the flow.
    pub fn on_highest_index<T: StatusLike>(&self, status: &mut T, next: Option<usize>)
        ensures
            final(status).state_changed_of(),
            final(status).state_of() == (if next is Some {
                next
            } else {
                old(status).state_of()
            }),
            final(status).submit_of() == (self.submit || next is None),
    {
        status.set_state_changed(true);
        status.set_submit(self.submit);
        if next.is_some() {
            status.set_state(next);
        } else {
            status.set_submit(true);
        }
    }

    /// The prompt for the field under the index: the step's name and
    /// description, and the field's name as the one thing asked for.
    pub fn prompt(&self) -> (output: Output)
        requires
            !self.exhausted(),
        ensures
            output@.title == self.name@,
            output@.description == self.description@,
            output@.options == seq![self.contexts@[self.index as int].spec_name()@],
            output@.help == Seq::<char>::empty(),
    {
        let mut names: Vec<String> = Vec::new();
        names.push(self.contexts[self.index].get_name());
        let output = Output::new(self.get_name(), self.get_description(), names, String::new());
        assert(output@.options =~= seq![self.contexts@[self.index as int].spec_name()@]);
        output
    }

    /// Steps back by one field. Says whether there was none to step back to,
    /// in which case the step is left for its parent.
    pub fn back(&mut self) -> (leave: bool)
        ensures
            leave == (old(self).index == 0),
            *final(self) == (ContextState {
                index: if old(self).index == 0 {
                    0
                } else {
                    (old(self).index - 1) as usize
                },
                ..*old(self)
            }),
    {
        if self.index == 0 {
            true
        } else {
            self.index -= 1;
            false
        }
    }

    /// Takes `amount` from the index. Where the index is too small for that,
    /// it becomes 0 and the step hands over to its parent when shown next.
    pub fn decrease_index(&mut self, amount: usize)
        ensures
            *final(self) == old(self).decreased(amount),
    {
        if amount > self.index {
            self.go_back = true;
            self.index = 0;
        } else {
            self.index -= amount;
        }
    }

    /// The step after `amount` was taken from its index.
    pub open spec fn decreased(&self, amount: usize) -> ContextState {
        if amount > self.index {
            ContextState { index: 0, go_back: true, ..*self }
        } else {
            ContextState { index: (self.index - amount) as usize, ..*self }
        }
    }

    /// Starts the step over: the first field is asked for next.
    pub fn reset_index(&mut self)
        ensures
            *final(self) == (ContextState { index: 0, ..*old(self) }),
    {
        self.index = 0;
    }
}

/// One step of a flow, or a placeholder for one.
#[derive(Debug, Clone, PartialEq, Eq)]
pub enum State {
    OptionsState(OptionsState),
    ContextState(ContextState),
    StateHolder(StateHolder),
}

impl State {
    /// The node's name; a placeholder goes by its path.
    pub open spec fn spec_name(&self) -> String {
        match self {
            State::OptionsState(s) => s.name,
            State::ContextState(s) => s.name,
            State::StateHolder(s) => s.path,
        }
    }

    pub open spec fn spec_parent(&self) -> Option<usize> {
        match self {
            State::OptionsState(s) => s.parent,
            State::ContextState(s) => s.parent,
            State::StateHolder(s) => s.parent,
        }
    }

    pub open spec fn spec_index(&self) -> usize {
        match self {
            State::OptionsState(s) => s.index,
            State::ContextState(s) => s.index,
            State::StateHolder(_) => 0,
        }
    }

    /// The step after `amount` was taken from its index: see
    /// `decrease_index` of the two kinds of step. A placeholder has no index.
    pub open spec fn decreased(&self, amount: usize) -> State {
        match self {
            State::OptionsState(s) => State::OptionsState(
                OptionsState {
                    index: if amount > s.index {
                        0
                    } else {
                        (s.index - amount) as usize
                    },
                    ..*s
                },
            ),
            State::ContextState(s) => State::ContextState(s.decreased(amount)),
            State::StateHolder(_) => *self,
        }
    }

    /// The step started over. Only a step that asks for fields has a place to
    /// start over from.
    pub open spec fn restarted(&self) -> State {
        match self {
            State::ContextState(s) => State::ContextState(ContextState { index: 0, ..*s }),
            _ => *self,
        }
    }

    pub fn get_name(&self) -> (name: String)
        ensures
            name == self.spec_name(),
    {
        match self {
            State::OptionsState(s) => s.get_name(),
            State::ContextState(s) => s.get_name(),
            State::StateHolder(s) => s.get_name(),
        }
    }

    pub fn get_description(&self) -> (description: String)
        requires
            !(self is StateHolder),
        ensures
            self matches State::OptionsState(s) ==> description == s.description,
            self matches State::ContextState(s) ==> description == s.description,
    {
        match self {
            State::OptionsState(s) => s.get_description(),
            State::ContextState(s) => s.get_description(),
            State::StateHolder(_) => String::new(),
        }
    }

    pub fn get_parent(&self) -> (parent: Option<usize>)
        ensures
            parent == self.spec_parent(),
    {
        match self {
            State::OptionsState(s) => s.get_parent(),
            State::ContextState(s) => s.get_parent(),
            State::StateHolder(s) => s.parent,
        }
    }

    pub fn get_index(&self) -> (index: usize)
        requires
            !(self is StateHolder),
        ensures
            index == self.spec_index(),
    {
        match self {
            State::OptionsState(s) => s.get_index(),
            State::ContextState(s) => s.get_index(),
            State::StateHolder(_) => 0,
        }
    }

    /// The options of a menu; none for any other step.
    pub fn get_options(&self) -> (options: Option<&Vec<StateOption>>)
        ensures
            self matches State::OptionsState(s) ==> options == Some(&s.options),
            !(self is OptionsState) ==> options is None,
    {
        match self {
            State::OptionsState(s) => s.get_options(),
            _ => None,
        }
    }

    /// The fields of a step that asks for fields; none for any other step.
    pub fn get_contexts(&self) -> (contexts: Option<&Vec<Context>>)
        ensures
            self matches State::ContextState(s) ==> contexts == Some(&s.contexts),
            !(self is ContextState) ==> contexts is None,
    {
        match self {
            State::ContextState(s) => s.get_contexts(),
            _ => None,
        }
    }

    pub fn decrease_index(&mut self, amount: usize)
        ensures
            *final(self) == old(self).decreased(amount),
    {
        match self {
            State::OptionsState(s) => s.decrease_index(amount),
            State::ContextState(s) => s.decrease_index(amount),
            State::StateHolder(_) => {},
        }
    }

}

} // verus!
