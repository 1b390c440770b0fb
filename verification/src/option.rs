use vstd::prelude::*;

verus! {

/// One choice of a menu.
#[derive(Debug, Clone, PartialEq, Eq)]
pub struct StateOption {
    pub name: String,
    /// The step that the choice leads to, where it leads anywhere.
    pub state: Option<usize>,
    /// Whether choosing it completes the flow.
    pub submit: bool,
    /// Whether the step it leads to starts over when it is entered this way.
    pub reset: bool,
}

impl StateOption {
    pub fn new(name: String, state: Option<usize>, submit: bool, reset: bool) -> (o: StateOption)
        ensures
            o.name == name,
            o.state == state,
            o.submit == submit,
            o.reset == reset,
    {
        StateOption { name, state, submit, reset }
    }

    /// Whether `input` is the option's name, letter for letter.
    pub fn input(&self, input: &String) -> (matched: bool)
        ensures
            matched == (self.name@ == input@),
    {
        self.name == *input
    }

    pub fn get_name(&self) -> (name: String)
        ensures
            name == self.name,
    {
        self.name.clone()
    }

    pub fn get_submit(&self) -> (submit: bool)
        ensures
            submit == self.submit,
    {
        self.submit
    }
}

} // verus!
