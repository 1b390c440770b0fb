use statemachine::collection::{Collection, ContextLikeCollection};
use statemachine::context::{Context, StateContext};
use statemachine::error::{Error, LoadError};
use statemachine::graph::Graph;
use statemachine::number::parse_u32;
use statemachine::option::StateOption;
use statemachine::serde_state::SerDeState;
use statemachine::source::{ConfigSource, Sources};
use statemachine::state::{ContextState, OptionsState, State};
use statemachine::status::{InputStatus, Output};

struct NoSource;

impl ConfigSource for NoSource {
    fn load(&mut self, path: &String) -> Result<SerDeState, LoadError> {
        Err(LoadError::Failed(format!("nothing under {}", path)))
    }
}

fn none() -> Sources<NoSource> {
    Sources::new(Vec::new())
}

fn text(s: &str) -> String {
    String::from(s)
}

fn plain(name: &str) -> Context {
    Context::StateContext(StateContext::new(text(name), String::new()))
}

fn menu(g: &mut Graph, name: &str, parent: Option<usize>) -> usize {
    g.add_state(State::OptionsState(OptionsState::new(text(name), text("pick one"), parent, Vec::new())))
}

fn form(g: &mut Graph, name: &str, parent: Option<usize>, fields: &[&str], submit: bool) -> usize {
    let contexts: Vec<Context> = fields.iter().map(|f| plain(f)).collect();
    g.add_state(State::ContextState(ContextState::new(
        text(name),
        text("fill in"),
        parent,
        None,
        contexts,
        submit,
    )))
}

fn index_of(g: &Graph, id: usize) -> usize {
    g.get(id).get_index()
}

fn value_of(g: &Graph, id: usize, field: usize) -> String {
    g.get(id).get_contexts().unwrap()[field].get_value()
}

fn alpha_beta() -> (Graph, usize, usize, usize) {
    let mut g = Graph::new();
    let root = menu(&mut g, "greek", None);
    let a = form(&mut g, "a", Some(root), &["x"], true);
    let b = form(&mut g, "b", Some(root), &["y"], true);
    g.set_options(
        root,
        vec![
            StateOption::new(text("Alpha"), Some(a), false, false),
            StateOption::new(text("Beta"), Some(b), true, false),
        ],
    );
    (g, root, a, b)
}

#[test]
fn empty_graph_has_no_steps() {
    let g = Graph::new();
    assert_eq!(g.len(), 0);
    assert!(!g.has_step(0));
}

#[test]
fn a_numeral_counts_to_an_option() {
    let (mut g, root, _a, b) = alpha_beta();
    let status = g.input(root, text("2"), &mut none()).unwrap();
    assert_eq!(
        status,
        InputStatus { state_changed: true, state: Some(b), submit: true, input_recognized: true }
    );
    assert_eq!(index_of(&g, root), 1);
}

#[test]
fn a_name_chooses_its_option() {
    let (mut g, root, a, _b) = alpha_beta();
    g.input(root, text("2"), &mut none()).unwrap();
    let status = g.input(root, text("Alpha"), &mut none()).unwrap();
    assert_eq!(
        status,
        InputStatus { state_changed: true, state: Some(a), submit: false, input_recognized: true }
    );
    assert_eq!(index_of(&g, root), 0);
}

#[test]
fn a_name_in_the_wrong_case_is_not_recognised() {
    let (mut g, root, _a, _b) = alpha_beta();
    g.input(root, text("2"), &mut none()).unwrap();
    let status = g.input(root, text("alpha"), &mut none()).unwrap();
    assert_eq!(
        status,
        InputStatus { state_changed: false, state: None, submit: false, input_recognized: false }
    );
    assert_eq!(index_of(&g, root), 1);
}

#[test]
fn a_numeral_out_of_range_may_still_be_a_name() {
    let mut g = Graph::new();
    let root = menu(&mut g, "numbers", None);
    let a = form(&mut g, "a", Some(root), &["x"], false);
    g.set_options(
        root,
        vec![
            StateOption::new(text("one"), Some(a), false, false),
            StateOption::new(text("7"), Some(a), true, false),
        ],
    );
    let status = g.input(root, text("7"), &mut none()).unwrap();
    assert!(status.input_recognized);
    assert!(status.submit);
    assert_eq!(index_of(&g, root), 1);
    let status = g.input(root, text("0"), &mut none()).unwrap();
    assert!(!status.input_recognized);
    let status = g.input(root, text("3"), &mut none()).unwrap();
    assert!(!status.input_recognized);
    let status = g.input(root, text("+1"), &mut none()).unwrap();
    assert!(status.input_recognized);
    assert_eq!(index_of(&g, root), 0);
}

#[test]
fn the_first_of_two_options_with_one_name_is_chosen() {
    let mut g = Graph::new();
    let root = menu(&mut g, "twins", None);
    let a = form(&mut g, "a", Some(root), &["x"], false);
    let b = form(&mut g, "b", Some(root), &["y"], false);
    g.set_options(
        root,
        vec![
            StateOption::new(text("other"), Some(a), false, false),
            StateOption::new(text("same"), Some(a), false, false),
            StateOption::new(text("same"), Some(b), false, false),
        ],
    );
    let status = g.input(root, text("same"), &mut none()).unwrap();
    assert_eq!(status.state, Some(a));
    assert_eq!(index_of(&g, root), 1);
}

#[test]
fn numerals_are_read_as_unsigned_decimals() {
    assert_eq!(parse_u32(&text("2")), Some(2));
    assert_eq!(parse_u32(&text("+2")), Some(2));
    assert_eq!(parse_u32(&text("007")), Some(7));
    assert_eq!(parse_u32(&text("0")), Some(0));
    assert_eq!(parse_u32(&text("4294967295")), Some(4294967295));
    assert_eq!(parse_u32(&text("4294967296")), None);
    assert_eq!(parse_u32(&text("99999999999999999999")), None);
    assert_eq!(parse_u32(&text("")), None);
    assert_eq!(parse_u32(&text("+")), None);
    assert_eq!(parse_u32(&text("-1")), None);
    assert_eq!(parse_u32(&text("1a")), None);
    assert_eq!(parse_u32(&text(" 1")), None);
    assert_eq!(parse_u32(&text("1+")), None);
}

#[test]
fn a_walk_from_a_menu_through_a_form_to_the_result() {
    let mut g = Graph::new();
    let root = menu(&mut g, "root", None);
    let context = form(&mut g, "context_node", Some(root), &["f1"], true);
    g.set_options(root, vec![StateOption::new(text("A"), Some(context), false, false)]);

    let shown = g.output(root, &mut none()).unwrap();
    assert!(!shown.state_changed);
    assert_eq!(
        shown.output,
        Some(Output::new(text("root"), text("pick one"), vec![text("A")], String::new()))
    );

    let status = g.input(root, text("A"), &mut none()).unwrap();
    assert!(status.state_changed);
    assert_eq!(status.state, Some(context));
    assert!(!status.submit);

    let shown = g.output(context, &mut none()).unwrap();
    assert!(!shown.state_changed);
    assert_eq!(
        shown.output,
        Some(Output::new(text("context_node"), text("fill in"), vec![text("f1")], String::new()))
    );

    let status = g.input(context, text("hello"), &mut none()).unwrap();
    assert_eq!(
        status,
        InputStatus { state_changed: true, state: None, submit: true, input_recognized: true }
    );

    let collected = g.collect(context).unwrap();
    assert_eq!(
        collected,
        vec![
            Collection::new(
                text("context_node"),
                vec![ContextLikeCollection::new(text("f1"), text("hello"))]
            ),
            Collection::new(text("None"), vec![ContextLikeCollection::new(text("root"), text("A"))]),
        ]
    );
}

#[test]
fn each_input_fills_the_next_field() {
    let mut g = Graph::new();
    let c = form(&mut g, "three", None, &["a", "b", "c"], false);
    let inputs = ["one", "two", "three"];
    for (k, input) in inputs.iter().enumerate() {
        assert_eq!(index_of(&g, c), k);
        let status = g.input(c, text(input), &mut none()).unwrap();
        assert!(status.input_recognized);
        assert_eq!(value_of(&g, c, k), *input);
        assert_eq!(index_of(&g, c), k + 1);
        assert_eq!(status.state_changed, k == 2);
        for later in k + 1..3 {
            assert_eq!(value_of(&g, c, later), "");
        }
    }
    let status = g.input(c, text("four"), &mut none()).unwrap();
    assert!(status.state_changed);
    assert!(status.submit);
    assert_eq!(index_of(&g, c), 3);
    assert_eq!(value_of(&g, c, 0), "one");
    assert_eq!(value_of(&g, c, 1), "two");
    assert_eq!(value_of(&g, c, 2), "three");
}

#[test]
fn a_last_step_that_submits_completes_the_flow() {
    let mut g = Graph::new();
    let c = form(&mut g, "last", None, &["a", "b"], true);
    let first = g.input(c, text("x"), &mut none()).unwrap();
    assert_eq!(
        first,
        InputStatus { state_changed: false, state: None, submit: false, input_recognized: true }
    );
    let second = g.input(c, text("y"), &mut none()).unwrap();
    assert!(second.submit);
    assert_eq!(second.state, None);
    assert!(second.state_changed);
}

#[test]
fn a_step_that_nothing_follows_completes_the_flow_anyway() {
    let mut g = Graph::new();
    let c = form(&mut g, "last", None, &["a"], false);
    let status = g.input(c, text("x"), &mut none()).unwrap();
    assert!(status.submit);
    assert_eq!(status.state, None);
    let shown = g.output(c, &mut none()).unwrap();
    assert!(shown.state_changed);
    assert!(shown.submit);
    assert_eq!(shown.state, None);
    assert_eq!(shown.output, None);
}

#[test]
fn a_step_hands_over_to_the_step_that_follows() {
    let mut g = Graph::new();
    let first = form(&mut g, "first", None, &["a"], false);
    let second = form(&mut g, "second", Some(first), &["b"], true);
    g.set_next(first, Some(second));
    let status = g.input(first, text("x"), &mut none()).unwrap();
    assert_eq!(
        status,
        InputStatus { state_changed: true, state: Some(second), submit: false, input_recognized: true }
    );
    let status = g.input(second, text("y"), &mut none()).unwrap();
    assert!(status.submit);
    let collected = g.collect(second).unwrap();
    assert_eq!(collected.len(), 2);
    assert_eq!(collected[0].state_name, "second");
    assert_eq!(collected[1].state_name, "first");
    assert_eq!(collected[1].context_collections[0].value, "x");
}

#[test]
fn going_back_inside_a_form_goes_back_one_field() {
    let mut g = Graph::new();
    let c = form(&mut g, "form", None, &["a", "b"], false);
    g.input(c, text("x"), &mut none()).unwrap();
    assert_eq!(index_of(&g, c), 1);
    let status = g.back(c);
    assert_eq!(
        status,
        InputStatus { state_changed: false, state: None, submit: false, input_recognized: true }
    );
    assert_eq!(index_of(&g, c), 0);
    let status = g.back(c);
    assert!(!status.state_changed);
    assert_eq!(index_of(&g, c), 0);
}

#[test]
fn going_back_from_a_first_field_takes_two_from_the_menu() {
    let mut g = Graph::new();
    let root = menu(&mut g, "root", None);
    let a = form(&mut g, "a", Some(root), &["x"], false);
    g.set_options(
        root,
        vec![
            StateOption::new(text("one"), Some(a), false, false),
            StateOption::new(text("two"), Some(a), false, false),
            StateOption::new(text("three"), Some(a), false, false),
            StateOption::new(text("four"), Some(a), false, false),
        ],
    );
    g.input(root, text("4"), &mut none()).unwrap();
    assert_eq!(index_of(&g, root), 3);
    let status = g.back(a);
    assert_eq!(
        status,
        InputStatus { state_changed: true, state: Some(root), submit: false, input_recognized: true }
    );
    assert_eq!(index_of(&g, root), 1);
    let status = g.back(a);
    assert_eq!(status.state, Some(root));
    assert_eq!(index_of(&g, root), 0);
}

#[test]
fn going_back_from_a_form_to_a_form_takes_one() {
    let mut g = Graph::new();
    let first = form(&mut g, "first", None, &["a", "b"], false);
    let second = form(&mut g, "second", Some(first), &["c"], true);
    g.set_next(first, Some(second));
    g.input(first, text("x"), &mut none()).unwrap();
    g.input(first, text("y"), &mut none()).unwrap();
    assert_eq!(index_of(&g, first), 2);
    let status = g.back(second);
    assert_eq!(status.state, Some(first));
    assert_eq!(index_of(&g, first), 1);
}

#[test]
fn going_back_from_a_menu_takes_two_from_a_form() {
    let mut g = Graph::new();
    let first = form(&mut g, "first", None, &["a", "b", "c"], false);
    let choice = menu(&mut g, "choice", Some(first));
    g.input(first, text("x"), &mut none()).unwrap();
    g.input(first, text("y"), &mut none()).unwrap();
    let status = g.back(choice);
    assert_eq!(status.state, Some(first));
    assert_eq!(index_of(&g, first), 0);
    match g.get(first) {
        State::ContextState(c) => assert!(!c.go_back),
        _ => panic!("not a form"),
    }
}

#[test]
fn a_form_that_cannot_go_back_far_enough_sends_the_host_to_its_parent() {
    let mut g = Graph::new();
    let root = menu(&mut g, "root", None);
    let first = form(&mut g, "first", Some(root), &["a", "b"], false);
    let choice = menu(&mut g, "choice", Some(first));
    g.input(first, text("x"), &mut none()).unwrap();
    let status = g.back(choice);
    assert_eq!(status.state, Some(first));
    assert_eq!(index_of(&g, first), 0);
    let shown = g.output(first, &mut none()).unwrap();
    assert!(shown.state_changed);
    assert_eq!(shown.state, Some(root));
    assert!(!shown.submit);
    assert_eq!(shown.output, None);
    let shown = g.output(first, &mut none()).unwrap();
    assert!(!shown.state_changed);
    assert!(shown.output.is_some());
}

#[test]
fn a_root_stays_where_it_is_on_back() {
    let (mut g, root, _a, _b) = alpha_beta();
    let status = g.back(root);
    assert_eq!(
        status,
        InputStatus { state_changed: false, state: None, submit: false, input_recognized: true }
    );
}

#[test]
fn showing_a_step_twice_shows_the_same() {
    let (mut g, root, a, _b) = alpha_beta();
    let once = g.output(root, &mut none()).unwrap();
    let twice = g.output(root, &mut none()).unwrap();
    assert_eq!(once, twice);
    let once = g.output(a, &mut none()).unwrap();
    let twice = g.output(a, &mut none()).unwrap();
    assert_eq!(once, twice);
    assert_eq!(index_of(&g, a), 0);
}

#[test]
fn results_come_leaf_first() {
    let mut g = Graph::new();
    let root = menu(&mut g, "root", None);
    let middle = form(&mut g, "middle", Some(root), &["m1", "m2"], false);
    let leaf = menu(&mut g, "leaf", Some(middle));
    let end = form(&mut g, "end", Some(leaf), &["e"], true);
    g.set_options(root, vec![StateOption::new(text("go"), Some(middle), false, false)]);
    g.set_next(middle, Some(leaf));
    g.set_options(
        leaf,
        vec![
            StateOption::new(text("left"), Some(end), false, false),
            StateOption::new(text("right"), Some(end), false, false),
        ],
    );
    g.input(root, text("go"), &mut none()).unwrap();
    g.input(middle, text("v1"), &mut none()).unwrap();
    g.input(middle, text("v2"), &mut none()).unwrap();
    g.input(leaf, text("right"), &mut none()).unwrap();
    g.input(end, text("done"), &mut none()).unwrap();
    let collected = g.collect(end).unwrap();
    assert_eq!(
        collected,
        vec![
            Collection::new(text("end"), vec![ContextLikeCollection::new(text("e"), text("done"))]),
            Collection::new(
                text("middle"),
                vec![ContextLikeCollection::new(text("leaf"), text("right"))]
            ),
            Collection::new(
                text("middle"),
                vec![
                    ContextLikeCollection::new(text("m1"), text("v1")),
                    ContextLikeCollection::new(text("m2"), text("v2")),
                ]
            ),
            Collection::new(text("None"), vec![ContextLikeCollection::new(text("root"), text("go"))]),
        ]
    );
    let mut reversed = g.collect(end).unwrap();
    reversed.reverse();
    assert_eq!(reversed[0].context_collections[0].name, "root");
    assert_eq!(g.collect(root).unwrap().len(), 1);
}

#[test]
fn a_menu_without_options_cannot_be_collected() {
    let mut g = Graph::new();
    let root = menu(&mut g, "root", None);
    let c = form(&mut g, "c", Some(root), &["x"], true);
    assert_eq!(g.collect(root), Err(Error::BadConstruction));
    assert_eq!(g.collect(c), Err(Error::BadConstruction));
    assert_eq!(Error::BadConstruction.description(), "BadConstruction");
}

#[test]
fn an_option_that_resets_starts_its_step_over() {
    let mut g = Graph::new();
    let root = menu(&mut g, "root", None);
    let first = form(&mut g, "first", Some(root), &["a"], false);
    let second = form(&mut g, "second", Some(first), &["b", "c"], true);
    g.set_next(first, Some(second));
    g.set_options(
        root,
        vec![
            StateOption::new(text("again"), Some(first), false, true),
            StateOption::new(text("resume"), Some(first), false, false),
        ],
    );
    g.input(root, text("again"), &mut none()).unwrap();
    g.input(first, text("x"), &mut none()).unwrap();
    g.input(second, text("y"), &mut none()).unwrap();
    assert_eq!(index_of(&g, first), 1);
    assert_eq!(index_of(&g, second), 1);
    g.input(root, text("resume"), &mut none()).unwrap();
    assert_eq!(index_of(&g, first), 1);
    assert_eq!(index_of(&g, second), 1);
    let status = g.input(root, text("again"), &mut none()).unwrap();
    assert_eq!(status.state, Some(first));
    assert_eq!(index_of(&g, first), 0);
    assert_eq!(index_of(&g, second), 0);
    assert_eq!(value_of(&g, first, 0), "x");
}

#[test]
fn an_option_may_lead_nowhere() {
    let mut g = Graph::new();
    let root = menu(&mut g, "root", None);
    g.set_options(root, vec![StateOption::new(text("stop"), None, true, false)]);
    let status = g.input(root, text("1"), &mut none()).unwrap();
    assert_eq!(
        status,
        InputStatus { state_changed: true, state: None, submit: true, input_recognized: true }
    );
}

#[test]
fn the_graph_says_what_it_can_take() {
    let mut g = Graph::new();
    let orphan = State::ContextState(ContextState::new(
        text("orphan"),
        String::new(),
        Some(3),
        None,
        Vec::new(),
        false,
    ));
    assert!(!g.accepts(&orphan));
    let root = menu(&mut g, "root", None);
    let child = State::ContextState(ContextState::new(
        text("child"),
        String::new(),
        Some(root),
        Some(5),
        Vec::new(),
        false,
    ));
    assert!(!g.accepts(&child));
    let child = State::ContextState(ContextState::new(
        text("child"),
        String::new(),
        Some(root),
        Some(root),
        vec![plain("x")],
        false,
    ));
    assert!(g.accepts(&child));
    let pointing = State::OptionsState(OptionsState::new(
        text("pointing"),
        String::new(),
        None,
        vec![StateOption::new(text("far"), Some(9), false, false)],
    ));
    assert!(!g.accepts(&pointing));
}

#[test]
fn a_menu_and_a_form_take_an_index_back_differently() {
    let mut o = OptionsState::new(text("m"), String::new(), None, Vec::new());
    o.index = 5;
    o.decrease_index(2);
    assert_eq!(o.index, 3);
    o.decrease_index(4);
    assert_eq!(o.index, 0);
    let mut c = ContextState::new(text("c"), String::new(), None, None, vec![plain("a"), plain("b")], false);
    c.index = 2;
    c.decrease_index(2);
    assert_eq!(c.index, 0);
    assert!(!c.go_back);
    c.index = 1;
    c.decrease_index(2);
    assert_eq!(c.index, 0);
    assert!(c.go_back);
}
