use vstd::prelude::*;
use vstd::string::StringExecFns;
use crate::context::{Context, StateContext, StateOptionsContext};
use crate::graph::Graph;
use crate::status::{InputStatus, Output, OutputStatus};

verus! {

/// How a truth value is written.
pub open spec fn bool_text(b: bool) -> Seq<char> {
    if b {
        "true"@
    } else {
        "false"@
    }
}

fn write_bool(b: bool) -> (text: &'static str)
    ensures
        text@ == bool_text(b),
{
    if b {
        "true"
    } else {
        "false"
    }
}

/// What the standard library's `Debug` formatting writes for a list of
/// strings with these contents.
pub uninterp spec fn debug_text(items: Seq<Seq<char>>) -> Seq<char>;

/// The list as `format!("{:?}", items)` of the standard library writes it:
/// in square brackets, each string quoted and escaped. The contract gives
/// that text a name and claims only that it is determined by the contents of
/// the strings.
#[verifier::external_body]
fn write_debug(items: &Vec<String>) -> (text: String)
    ensures
        text@ == debug_text(Seq::new(items@.len(), |i: int| items@[i]@)),
{
    format!("{:?}", items)
}

/// The name of the node `state` of `graph`, as a status shows it: no name
/// unless the status reports a change to a node that the graph holds.
pub open spec fn shown_name(graph: &Graph, state_changed: bool, state: Option<usize>) -> Seq<char> {
    match state {
        Some(id) if state_changed && id < graph.states().len() => graph.states()[id as int].spec_name()@,
        _ => Seq::<char>::empty(),
    }
}

fn write_name(graph: &Graph, state_changed: bool, state: Option<usize>) -> (name: String)
    ensures
        name@ == shown_name(graph, state_changed, state),
{
    match state {
        Some(id) => {
            if state_changed && id < graph.len() {
                graph.get(id).get_name()
            } else {
                String::new()
            }
        },
        None => String::new(),
    }
}

impl Output {
    /// The text of the prompt.
    pub open spec fn spec_text(&self) -> Seq<char> {
        "title: "@ + self.title@ + "\ndescription: "@ + self.description@ + "\noptions: "@
            + debug_text(self@.options) + "\nhelp: "@ + self.help@
    }

    /// The prompt in four lines: title, description, options and help.
    pub fn to_text(&self) -> (text: String)
        ensures
            text@ == self.spec_text(),
    {
        let mut text = "title: ".to_owned();
        text.append(self.title.as_str());
        text.append("\ndescription: ");
        text.append(self.description.as_str());
        text.append("\noptions: ");
        let options = write_debug(&self.options);
        text.append(options.as_str());
        text.append("\nhelp: ");
        text.append(self.help.as_str());
        text
    }
}

impl InputStatus {
    /// The text of the status.
    pub open spec fn spec_text(&self, graph: &Graph) -> Seq<char> {
        "state_changed: "@ + bool_text(self.state_changed) + "\nsubmit: "@ + bool_text(self.submit)
            + "\nstate name: "@ + shown_name(graph, self.state_changed, self.state)
            + "\ninput_recognized: "@ + bool_text(self.input_recognized)
    }

    /// The status in four lines, with the name that the new current step has
    /// in `graph`.
    pub fn to_text(&self, graph: &Graph) -> (text: String)
        ensures
            text@ == self.spec_text(graph),
    {
        let name = write_name(graph, self.state_changed, self.state);
        let mut text = "state_changed: ".to_owned();
        text.append(write_bool(self.state_changed));
        text.append("\nsubmit: ");
        text.append(write_bool(self.submit));
        text.append("\nstate name: ");
        text.append(name.as_str());
        text.append("\ninput_recognized: ");
        text.append(write_bool(self.input_recognized));
        text
    }
}

impl OutputStatus {
    /// The text of the status.
    pub open spec fn spec_text(&self, graph: &Graph) -> Seq<char> {
        "state_changed: "@ + bool_text(self.state_changed) + "\nsubmit: "@ + bool_text(self.submit)
            + "\nstate name: "@ + shown_name(graph, self.state_changed, self.state) + "\noutput: "@
            + match self.output {
            Some(output) => output.spec_text(),
            None => "None"@,
        }
    }

    /// The status in four lines and the prompt after them, with the name
    /// that the new current step has in `graph`.
    pub fn to_text(&self, graph: &Graph) -> (text: String)
        ensures
            text@ == self.spec_text(graph),
    {
        let name = write_name(graph, self.state_changed, self.state);
        let output = match &self.output {
            Some(output) => output.to_text(),
            None => "None".to_owned(),
        };
        let mut text = "state_changed: ".to_owned();
        text.append(write_bool(self.state_changed));
        text.append("\nsubmit: ");
        text.append(write_bool(self.submit));
        text.append("\nstate name: ");
        text.append(name.as_str());
        text.append("\noutput: ");
        text.append(output.as_str());
        text
    }
}

impl StateContext {
    /// The text of the field.
    pub open spec fn spec_text(&self) -> Seq<char> {
        "StateContext: Name: "@ + self.name@ + ", Value: "@ + self.value@
    }

    /// The field with its value.
    pub fn to_text(&self) -> (text: String)
        ensures
            text@ == self.spec_text(),
    {
        let mut text = "StateContext: Name: ".to_owned();
        text.append(self.name.as_str());
        text.append(", Value: ");
        text.append(self.value.as_str());
        text
    }
}

impl StateOptionsContext {
    /// The text of the field.
    pub open spec fn spec_text(&self, graph: &Graph) -> Seq<char> {
        "StateOptionsContext: Name: "@ + self.name@ + ", Value: "@ + self.value@ + " | Parent: "@
            + shown_name(graph, true, Some(self.state))
    }

    /// The field with the name of its menu in `graph`.
    pub fn to_text(&self, graph: &Graph) -> (text: String)
        ensures
            text@ == self.spec_text(graph),
    {
        let menu = write_name(graph, true, Some(self.state));
        let mut text = "StateOptionsContext: Name: ".to_owned();
        text.append(self.name.as_str());
        text.append(", Value: ");
        text.append(self.value.as_str());
        text.append(" | Parent: ");
        text.append(menu.as_str());
        text
    }
}

impl Context {
    /// The text of the field.
    pub open spec fn spec_text(&self, graph: &Graph) -> Seq<char> {
        match self {
            Context::StateContext(c) => c.spec_text(),
            Context::StateOptionsContext(c) => c.spec_text(graph),
        }
    }

    /// The field with its value, and with the name of its menu in `graph`
    /// where it has one.
    pub fn to_text(&self, graph: &Graph) -> (text: String)
        ensures
            text@ == self.spec_text(graph),
    {
        match self {
            Context::StateContext(c) => c.to_text(),
            Context::StateOptionsContext(c) => c.to_text(graph),
        }
    }
}

} // verus!
