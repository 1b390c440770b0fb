use vstd::prelude::*;

verus! {

/// The fields that the result of a query and the result of a transition share.
pub trait StatusLike {
    spec fn state_changed_of(&self) -> bool;

    spec fn state_of(&self) -> Option<usize>;

    spec fn submit_of(&self) -> bool;

    fn set_state_changed(&mut self, state_changed: bool)
        ensures
            final(self).state_changed_of() == state_changed,
            final(self).state_of() == old(self).state_of(),
            final(self).submit_of() == old(self).submit_of(),
    ;

    fn set_state(&mut self, state: Option<usize>)
        ensures
            final(self).state_of() == state,
            final(self).state_changed_of() == old(self).state_changed_of(),
            final(self).submit_of() == old(self).submit_of(),
    ;

    fn set_submit(&mut self, submit: bool)
        ensures
            final(self).submit_of() == submit,
            final(self).state_changed_of() == old(self).state_changed_of(),
            final(self).state_of() == old(self).state_of(),
    ;
}

/// What `input` and `back` report to the host.
#[derive(Debug, Clone, Copy, PartialEq, Eq, Structural)]
pub struct InputStatus {
    /// Whether the host has to look at `state` and `submit`.
    pub state_changed: bool,
    /// The step that is current from now on, where there is one.
    pub state: Option<usize>,
    /// Whether the flow is complete.
    pub submit: bool,
    /// Whether the text was understood; `false` asks the host to prompt again.
    pub input_recognized: bool,
}

impl StatusLike for InputStatus {
    open spec fn state_changed_of(&self) -> bool {
        self.state_changed
    }

    open spec fn state_of(&self) -> Option<usize> {
        self.state
    }

    open spec fn submit_of(&self) -> bool {
        self.submit
    }

    fn set_state_changed(&mut self, state_changed: bool)
        ensures
            final(self).input_recognized == old(self).input_recognized,
    {
        self.state_changed = state_changed;
    }

    fn set_state(&mut self, state: Option<usize>)
        ensures
            final(self).input_recognized == old(self).input_recognized,
    {
        self.state = state;
    }

    fn set_submit(&mut self, submit: bool)
        ensures
            final(self).input_recognized == old(self).input_recognized,
    {
        self.submit = submit;
    }
}

/// What a step shows: a title, a description and the choices or the field
/// that it asks for.
#[derive(Default, Debug, Clone, PartialEq, Eq)]
pub struct Output {
    pub title: String,
    pub description: String,
    pub options: Vec<String>,
    pub help: String,
}

/// The mathematical content of an [`Output`].
pub struct OutputView {
    pub title: Seq<char>,
    pub description: Seq<char>,
    pub options: Seq<Seq<char>>,
    pub help: Seq<char>,
}

impl View for Output {
    type V = OutputView;

    open spec fn view(&self) -> OutputView {
        OutputView {
            title: self.title@,
            description: self.description@,
            options: Seq::new(self.options@.len(), |i: int| self.options@[i]@),
            help: self.help@,
        }
    }
}

impl Output {
    pub fn new(title: String, description: String, options: Vec<String>, help: String) -> (o: Output)
        ensures
            o.title == title,
            o.description == description,
            o.options == options,
            o.help == help,
    {
        Output { title, description, options, help }
    }
}

/// What `output` reports to the host.
#[derive(Debug, Clone, PartialEq, Eq)]
pub struct OutputStatus {
    pub state_changed: bool,
    pub state: Option<usize>,
    pub submit: bool,
    /// The prompt, where the step has one to show.
    pub output: Option<Output>,
}

impl StatusLike for OutputStatus {
    open spec fn state_changed_of(&self) -> bool {
        self.state_changed
    }

    open spec fn state_of(&self) -> Option<usize> {
        self.state
    }

    open spec fn submit_of(&self) -> bool {
        self.submit
    }

    fn set_state_changed(&mut self, state_changed: bool)
        ensures
            final(self).output == old(self).output,
    {
        self.state_changed = state_changed;
    }

    fn set_state(&mut self, state: Option<usize>)
        ensures
            final(self).output == old(self).output,
    {
        self.state = state;
    }

    fn set_submit(&mut self, submit: bool)
        ensures
            final(self).output == old(self).output,
    {
        self.submit = submit;
    }
}

} // verus!
