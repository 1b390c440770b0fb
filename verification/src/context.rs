use vstd::prelude::*;
use crate::collection::ContextLikeCollection;

verus! {

/// A field that takes whatever text is entered.
#[derive(Debug, Clone, PartialEq, Eq)]
pub struct StateContext {
    pub name: String,
    pub value: String,
}

impl StateContext {
    pub fn new(name: String, value: String) -> (c: StateContext)
        ensures
            c.name == name,
            c.value == value,
    {
        StateContext { name, value }
    }

    /// Stores `input` as the field's value.
    pub fn input(&mut self, input: String)
        ensures
            final(self).name == old(self).name,
            final(self).value == input,
    {
        self.value = input;
    }

    /// A plain field never leads to another step.
    pub fn output(&self) -> (next: Option<usize>)
        ensures
            next is None,
    {
        None
    }

    pub fn get_name(&self) -> (name: String)
        ensures
            name == self.name,
    {
        self.name.clone()
    }

    pub fn get_value(&self) -> (value: String)
        ensures
            value == self.value,
    {
        self.value.clone()
    }

    /// The field's name with its value.
    pub fn collect(&self) -> (c: ContextLikeCollection)
        ensures
            c.name == self.name,
            c.value == self.value,
    {
        ContextLikeCollection::new(self.name.clone(), self.value.clone())
    }
}

/// A field that is answered in a menu of canonical answers. The menu is the
/// step `state` of the graph that holds the field; its last option stands for
/// "something else" and leads to a step with one free-text field.
#[derive(Debug, Clone, PartialEq, Eq)]
pub struct StateOptionsContext {
    pub name: String,
    pub value: String,
    pub state: usize,
}

impl StateOptionsContext {
    pub fn new(name: String, value: String, state: usize) -> (c: StateOptionsContext)
        ensures
            c.name == name,
            c.value == value,
            c.state == state,
    {
        StateOptionsContext { name, value, state }
    }

    /// Stores `input` as the field's value.
    pub fn input(&mut self, input: String)
        ensures
            final(self).name == old(self).name,
            final(self).state == old(self).state,
            final(self).value == input,
    {
        self.value = input;
    }

    /// The menu in which the field is answered.
    pub fn output(&self) -> (next: Option<usize>)
        ensures
            next == Some(self.state),
    {
        Some(self.state)
    }

    pub fn get_name(&self) -> (name: String)
        ensures
            name == self.name,
    {
        self.name.clone()
    }

    pub fn get_value(&self) -> (value: String)
        ensures
            value == self.value,
    {
        self.value.clone()
    }
}

/// One field of a step that asks for fields.
#[derive(Debug, Clone, PartialEq, Eq)]
pub enum Context {
    StateContext(StateContext),
    StateOptionsContext(StateOptionsContext),
}

impl Context {
    pub open spec fn spec_name(&self) -> String {
        match self {
            Context::StateContext(c) => c.name,
            Context::StateOptionsContext(c) => c.name,
        }
    }

    pub open spec fn spec_value(&self) -> String {
        match self {
            Context::StateContext(c) => c.value,
            Context::StateOptionsContext(c) => c.value,
        }
    }

    /// The menu that answers the field, where it has one.
    pub open spec fn spec_menu(&self) -> Option<usize> {
        match self {
            Context::StateContext(_) => None,
            Context::StateOptionsContext(c) => Some(c.state),
        }
    }

    /// The field with `value` in place of its value.
    pub open spec fn with_value(&self, value: String) -> Context {
        match self {
            Context::StateContext(c) => Context::StateContext(
                StateContext { name: c.name, value },
            ),
            Context::StateOptionsContext(c) => Context::StateOptionsContext(
                StateOptionsContext { name: c.name, value, state: c.state },
            ),
        }
    }

    /// Stores `input` as the field's value.
    pub fn input(&mut self, input: String)
        ensures
            *final(self) == old(self).with_value(input),
    {
        match self {
            Context::StateContext(c) => c.input(input),
            Context::StateOptionsContext(c) => c.input(input),
        }
    }

    /// The step that has to be visited to answer the field, where there is
    /// one.
    pub fn output(&self) -> (next: Option<usize>)
        ensures
            next == self.spec_menu(),
    {
        match self {
            Context::StateContext(c) => c.output(),
            Context::StateOptionsContext(c) => c.output(),
        }
    }

    pub fn get_name(&self) -> (name: String)
        ensures
            name == self.spec_name(),
    {
        match self {
            Context::StateContext(c) => c.get_name(),
            Context::StateOptionsContext(c) => c.get_name(),
        }
    }

    pub fn get_value(&self) -> (value: String)
        ensures
            value == self.spec_value(),
    {
        match self {
            Context::StateContext(c) => c.get_value(),
            Context::StateOptionsContext(c) => c.get_value(),
        }
    }
}

} // verus!
