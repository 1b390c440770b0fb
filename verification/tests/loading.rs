use statemachine::collection::{Collection, ContextLikeCollection};
use statemachine::context::Context;
use statemachine::error::{Error, LoadError};
use statemachine::graph::Graph;
use statemachine::serde_state::{
    ContextType, SerDeContext, SerDeIntoState, SerDeOption, SerDeState, StateType,
};
use statemachine::source::{ConfigSource, Sources};
use statemachine::state::State;
use statemachine::status::{InputStatus, Output};
use std::cell::Cell;

struct Files {
    files: Vec<(&'static str, fn() -> SerDeState)>,
    loads: Cell<usize>,
}

impl ConfigSource for Files {
    fn load(&mut self, path: &String) -> Result<SerDeState, LoadError> {
        self.loads.set(self.loads.get() + 1);
        for (name, make) in &self.files {
            if name == path {
                return Ok(make());
            }
        }
        Err(LoadError::Failed(format!("no description under {}", path)))
    }
}

fn files(files: Vec<(&'static str, fn() -> SerDeState)>) -> Sources<Files> {
    Sources::new(vec![Files { files, loads: Cell::new(0) }])
}

fn s(text: &str) -> String {
    String::from(text)
}

fn field(name: &str) -> SerDeContext {
    SerDeContext { name: s(name), value: None, kind: ContextType::Normal }
}

fn option(name: &str, state: Option<SerDeIntoState>) -> SerDeOption {
    SerDeOption { name: s(name), submit: None, reset: None, state }
}

fn lazy(path: &str) -> SerDeIntoState {
    SerDeIntoState::Path(s(path), Some(true), 0)
}

fn eager(path: &str) -> SerDeIntoState {
    SerDeIntoState::Path(s(path), None, 0)
}

fn address() -> SerDeState {
    SerDeState {
        name: s("address"),
        description: s("where to"),
        kind: StateType::Context(vec![field("street"), field("town")], true, None),
    }
}

fn root_with(first: SerDeIntoState, second: SerDeIntoState) -> SerDeState {
    SerDeState {
        name: s("root"),
        description: s("what next"),
        kind: StateType::Options(vec![
            option("home", Some(first)),
            option("work", Some(second)),
        ]),
    }
}

fn broken() -> SerDeState {
    SerDeState {
        name: s("broken"),
        description: s("an option that leads nowhere"),
        kind: StateType::Options(vec![option("dangling", None)]),
    }
}

fn itself() -> SerDeState {
    SerDeState {
        name: s("itself"),
        description: s("refers to itself"),
        kind: StateType::Context(vec![field("x")], false, Some(Box::new(eager("itself")))),
    }
}

fn survey() -> SerDeState {
    SerDeState {
        name: s("survey"),
        description: s("about you"),
        kind: StateType::Context(
            vec![
                field("name"),
                SerDeContext {
                    name: s("colour"),
                    value: None,
                    kind: ContextType::Options(
                        vec![option("red", None), option("green", None)],
                        s("other"),
                        s("which colour?"),
                    ),
                },
                SerDeContext { name: s("age"), value: Some(s("unknown")), kind: ContextType::Normal },
            ],
            true,
            None,
        ),
    }
}

fn name_of(g: &Graph, id: usize) -> String {
    g.get(id).get_name()
}

#[test]
fn a_description_becomes_a_step_with_its_parts() {
    let mut g = Graph::new();
    let mut sources = files(vec![]);
    let root = root_with(SerDeIntoState::Inline(address()), lazy("work.yaml"))
        .into_state(&mut g, None, &mut sources, 4)
        .unwrap()
        .unwrap();
    assert_eq!(root, 0);
    assert_eq!(g.len(), 3);
    assert_eq!(name_of(&g, 0), "root");
    assert_eq!(name_of(&g, 1), "address");
    assert_eq!(name_of(&g, 2), "work.yaml");
    assert_eq!(g.get(0).get_parent(), None);
    assert_eq!(g.get(1).get_parent(), Some(0));
    assert_eq!(g.get(2).get_parent(), Some(0));
    assert!(g.has_step(1));
    assert!(!g.has_step(2));
    let options = g.get(0).get_options().unwrap();
    assert_eq!(options.len(), 2);
    assert_eq!(options[0].name, "home");
    assert_eq!(options[0].state, Some(1));
    assert_eq!(options[1].name, "work");
    assert_eq!(options[1].state, Some(2));
    assert!(!options[0].submit);
    assert!(!options[0].reset);
    let fields = g.get(1).get_contexts().unwrap();
    assert_eq!(fields.len(), 2);
    assert_eq!(fields[0].get_name(), "street");
    assert_eq!(fields[1].get_name(), "town");
    assert_eq!(fields[0].get_value(), "");
    assert_eq!(sources.get(0).loads.get(), 0);
}

#[test]
fn a_placeholder_that_waits_is_loaded_when_it_is_used() {
    let mut g = Graph::new();
    let mut sources = files(vec![("address.yaml", address)]);
    let root = root_with(lazy("address.yaml"), lazy("address.yaml"))
        .into_state(&mut g, None, &mut sources, 4)
        .unwrap()
        .unwrap();
    assert_eq!(g.len(), 3);
    assert_eq!(sources.get(0).loads.get(), 0);
    assert_eq!(g.lookup(&s("address.yaml")), None);

    let status = g.input(root, s("home"), &mut sources).unwrap();
    assert_eq!(
        status,
        InputStatus { state_changed: true, state: Some(3), submit: false, input_recognized: true }
    );
    assert_eq!(sources.get(0).loads.get(), 1);
    assert_eq!(g.len(), 4);
    assert_eq!(name_of(&g, 3), "address");
    assert_eq!(g.get(3).get_parent(), Some(root));
    assert_eq!(g.lookup(&s("address.yaml")), Some(3));
}

#[test]
fn one_path_gives_one_step() {
    let mut g = Graph::new();
    let mut sources = files(vec![("address.yaml", address)]);
    let root = root_with(lazy("address.yaml"), lazy("address.yaml"))
        .into_state(&mut g, None, &mut sources, 4)
        .unwrap()
        .unwrap();
    let first = g.input(root, s("home"), &mut sources).unwrap();
    g.input(first.state.unwrap(), s("main street"), &mut sources).unwrap();
    let second = g.input(root, s("work"), &mut sources).unwrap();
    assert_eq!(first.state, second.state);
    assert_eq!(sources.get(0).loads.get(), 1);
    assert_eq!(g.len(), 4);
    assert_eq!(g.get(3).get_index(), 1);
    let third = g.input(root, s("home"), &mut sources).unwrap();
    assert_eq!(third.state, Some(3));
    assert_eq!(sources.get(0).loads.get(), 1);
    match g.get(1) {
        State::StateHolder(h) => assert_eq!(h.state, Some(3)),
        _ => panic!("not a placeholder"),
    }
    match g.get(2) {
        State::StateHolder(h) => assert_eq!(h.state, Some(3)),
        _ => panic!("not a placeholder"),
    }
}

#[test]
fn a_placeholder_that_does_not_wait_is_loaded_at_once() {
    let mut g = Graph::new();
    let mut sources = files(vec![("address.yaml", address)]);
    let root = root_with(eager("address.yaml"), eager("address.yaml"))
        .into_state(&mut g, None, &mut sources, 4)
        .unwrap()
        .unwrap();
    assert_eq!(sources.get(0).loads.get(), 1);
    assert_eq!(g.len(), 4);
    assert_eq!(g.lookup(&s("address.yaml")), Some(2));
    let status = g.input(root, s("2"), &mut sources).unwrap();
    assert_eq!(status.state, Some(2));
    assert_eq!(sources.get(0).loads.get(), 1);
}

#[test]
fn a_root_is_loaded_from_a_source() {
    let mut g = Graph::new();
    let mut sources = files(vec![("address.yaml", address)]);
    let root = SerDeState::create_from_yaml_str(&mut g, &mut sources, s("address.yaml"), 0, 4)
        .unwrap()
        .unwrap();
    assert_eq!(root, 0);
    assert_eq!(name_of(&g, root), "address");
    assert_eq!(g.get(root).get_parent(), None);
    assert_eq!(
        SerDeState::create_from_yaml_str(&mut g, &mut sources, s("address.yaml"), 1, 4),
        Err(LoadError::FunctionNotFound)
    );
    assert_eq!(
        SerDeState::create_from_yaml_str(&mut g, &mut sources, s("missing.yaml"), 0, 4),
        Err(LoadError::Failed(s("no description under missing.yaml")))
    );
    assert_eq!(g.len(), 1);
}

#[test]
fn a_source_that_is_not_there_is_reported() {
    let mut g = Graph::new();
    let mut sources = files(vec![("address.yaml", address)]);
    let root = root_with(
        SerDeIntoState::Path(s("address.yaml"), Some(true), 3),
        lazy("address.yaml"),
    )
    .into_state(&mut g, None, &mut sources, 4)
    .unwrap()
    .unwrap();
    assert_eq!(g.input(root, s("home"), &mut sources), Err(LoadError::FunctionNotFound));
    assert_eq!(g.get(root).get_index(), 0);
    assert_eq!(sources.get(0).loads.get(), 0);
    assert_eq!(g.len(), 3);
    let status = g.input(root, s("work"), &mut sources).unwrap();
    assert_eq!(status.state, Some(3));
    assert_eq!(g.get(root).get_index(), 1);
}

#[test]
fn a_description_that_loads_itself_is_refused() {
    let mut g = Graph::new();
    let mut sources = files(vec![("itself", itself)]);
    let r = SerDeState::create_from_yaml_str(&mut g, &mut sources, s("itself"), 0, 3);
    assert_eq!(r, Err(LoadError::TooDeep));
    assert_eq!(sources.get(0).loads.get(), 4);
}

#[test]
fn a_failing_source_fails_the_input_and_leaves_the_menu() {
    let mut g = Graph::new();
    let mut sources = files(vec![("broken.yaml", broken)]);
    let root = root_with(lazy("nowhere.yaml"), lazy("broken.yaml"))
        .into_state(&mut g, None, &mut sources, 4)
        .unwrap()
        .unwrap();
    g.input(root, s("home"), &mut sources).unwrap_err();
    assert_eq!(
        g.input(root, s("home"), &mut sources),
        Err(LoadError::Failed(s("no description under nowhere.yaml")))
    );
    assert_eq!(g.input(root, s("work"), &mut sources), Err(LoadError::Invalid(Error::BadConstruction)));
    assert_eq!(g.get(root).get_index(), 0);
    assert_eq!(g.lookup(&s("broken.yaml")), None);
}

#[test]
fn an_option_that_leads_nowhere_is_refused() {
    let mut g = Graph::new();
    let mut sources = files(vec![]);
    assert_eq!(broken().into_state(&mut g, None, &mut sources, 4), Ok(Err(Error::BadConstruction)));
    let mut g = Graph::new();
    let owner = address().into_state(&mut g, None, &mut sources, 4).unwrap().unwrap();
    let lone = option("lone", None);
    assert_eq!(lone.into_option(&mut g, Some(owner), None, &mut sources, 4), Ok(Err(Error::BadConstruction)));
    let made = lone.into_option(&mut g, Some(owner), Some(owner), &mut sources, 4).unwrap().unwrap();
    assert_eq!(made.state, Some(owner));
    assert_eq!(made.name, "lone");
}

#[test]
fn a_field_with_a_menu_needs_an_owner() {
    let mut g = Graph::new();
    let mut sources = files(vec![]);
    let colour = SerDeContext {
        name: s("colour"),
        value: None,
        kind: ContextType::Options(vec![option("red", None)], s("other"), s("which?")),
    };
    assert_eq!(colour.into_context(&mut g, None, &mut sources, 4), Ok(Err(Error::BadConstruction)));
    assert_eq!(g.len(), 0);
    let plain = field("plain").into_context(&mut g, None, &mut sources, 4).unwrap().unwrap();
    assert!(matches!(plain, Context::StateContext(_)));
}

#[test]
fn a_field_with_a_menu_is_answered_in_the_menu() {
    let mut g = Graph::new();
    let mut sources = files(vec![]);
    let root = survey().into_state(&mut g, None, &mut sources, 4).unwrap().unwrap();
    assert_eq!(g.len(), 3);
    let menu = 1;
    let free = 2;

    let shown = g.output(root, &mut sources).unwrap();
    assert_eq!(
        shown.output,
        Some(Output::new(s("survey"), s("about you"), vec![s("name")], String::new()))
    );
    g.input(root, s("bob"), &mut sources).unwrap();

    let shown = g.output(root, &mut sources).unwrap();
    assert!(shown.state_changed);
    assert_eq!(shown.state, Some(menu));
    assert_eq!(shown.output, None);
    assert_eq!(g.get(root).get_index(), 2);

    let shown = g.output(menu, &mut sources).unwrap();
    assert_eq!(
        shown.output,
        Some(Output::new(
            s("OPTIONS"),
            s("colour"),
            vec![s("red"), s("green"), s("other")],
            String::new()
        ))
    );
    let status = g.input(menu, s("green"), &mut sources).unwrap();
    assert_eq!(
        status,
        InputStatus { state_changed: true, state: Some(root), submit: false, input_recognized: true }
    );

    let shown = g.output(root, &mut sources).unwrap();
    assert_eq!(
        shown.output,
        Some(Output::new(s("survey"), s("about you"), vec![s("age")], String::new()))
    );
    let status = g.input(root, s("30"), &mut sources).unwrap();
    assert!(status.submit);
    assert_eq!(
        g.collect(root),
        Ok(vec![Collection::new(
            s("survey"),
            vec![
                ContextLikeCollection::new(s("name"), s("bob")),
                ContextLikeCollection::new(s("colour"), s("green")),
                ContextLikeCollection::new(s("age"), s("30")),
            ]
        )])
    );
    assert_eq!(name_of(&g, free), "survey");
}

#[test]
fn something_else_is_asked_for_in_free_text() {
    let mut g = Graph::new();
    let mut sources = files(vec![]);
    let root = survey().into_state(&mut g, None, &mut sources, 4).unwrap().unwrap();
    g.input(root, s("bob"), &mut sources).unwrap();
    let menu = g.output(root, &mut sources).unwrap().state.unwrap();
    let status = g.input(menu, s("3"), &mut sources).unwrap();
    let free = status.state.unwrap();
    assert_eq!(free, 2);
    assert!(!status.submit);
    assert_eq!(g.get(free).get_parent(), Some(menu));

    let shown = g.output(free, &mut sources).unwrap();
    assert_eq!(
        shown.output,
        Some(Output::new(s("survey"), s("colour"), vec![s("which colour?")], String::new()))
    );
    let status = g.input(free, s("teal"), &mut sources).unwrap();
    assert_eq!(
        status,
        InputStatus { state_changed: true, state: Some(root), submit: false, input_recognized: true }
    );
    let collected = g.collect(root).unwrap();
    assert_eq!(
        collected[0].context_collections,
        vec![
            ContextLikeCollection::new(s("name"), s("bob")),
            ContextLikeCollection::new(s("colour"), s("teal")),
            ContextLikeCollection::new(s("age"), s("unknown")),
        ]
    );
    let from_free = g.collect(free).unwrap();
    assert_eq!(from_free.len(), 3);
    assert_eq!(from_free[0].state_name, "survey");
    assert_eq!(
        from_free[0].context_collections,
        vec![ContextLikeCollection::new(s("which colour?"), s("teal"))]
    );
    assert_eq!(
        from_free[1],
        Collection::new(s("survey"), vec![ContextLikeCollection::new(s("OPTIONS"), s("other"))])
    );
}

#[test]
fn going_back_from_the_menu_of_a_field_skips_the_field() {
    let mut g = Graph::new();
    let mut sources = files(vec![]);
    let root = survey().into_state(&mut g, None, &mut sources, 4).unwrap().unwrap();
    g.input(root, s("bob"), &mut sources).unwrap();
    let menu = g.output(root, &mut sources).unwrap().state.unwrap();
    assert_eq!(g.get(root).get_index(), 2);
    let status = g.back(menu);
    assert_eq!(status.state, Some(root));
    assert_eq!(g.get(root).get_index(), 0);
    let shown = g.output(root, &mut sources).unwrap();
    assert_eq!(shown.output.unwrap().options, vec![s("name")]);
}

#[test]
fn a_description_without_paths_asks_no_source() {
    let mut g = Graph::new();
    let mut sources = files(vec![("address.yaml", address)]);
    let root = root_with(SerDeIntoState::Inline(address()), lazy("address.yaml"))
        .into_state(&mut g, None, &mut sources, 0)
        .unwrap()
        .unwrap();
    assert_eq!(sources.get(0).loads.get(), 0);
    g.input(root, s("home"), &mut sources).unwrap();
    g.input(root, s("nothing"), &mut sources).unwrap();
    g.output(root, &mut sources).unwrap();
    g.back(root);
    assert_eq!(sources.get(0).loads.get(), 0);
    g.input(root, s("work"), &mut sources).unwrap();
    assert_eq!(sources.get(0).loads.get(), 1);
}

#[test]
fn a_step_that_follows_may_be_loaded() {
    let mut g = Graph::new();
    let mut sources = files(vec![("address.yaml", address)]);
    let first = SerDeState {
        name: s("first"),
        description: s("start"),
        kind: StateType::Context(vec![field("x")], false, Some(Box::new(lazy("address.yaml")))),
    }
    .into_state(&mut g, None, &mut sources, 4)
    .unwrap()
    .unwrap();
    assert_eq!(g.len(), 2);
    let status = g.input(first, s("1"), &mut sources).unwrap();
    assert_eq!(
        status,
        InputStatus { state_changed: true, state: Some(2), submit: false, input_recognized: true }
    );
    assert_eq!(g.get(2).get_parent(), Some(first));
    let shown = g.output(first, &mut sources).unwrap();
    assert!(shown.state_changed);
    assert_eq!(shown.state, Some(2));
    assert_eq!(sources.get(0).loads.get(), 1);
}

struct Changing {
    asked: usize,
}

impl ConfigSource for Changing {
    fn load(&mut self, path: &String) -> Result<SerDeState, LoadError> {
        self.asked += 1;
        if self.asked == 1 {
            Ok(SerDeState {
                name: s("outer"),
                description: s("loads its own path again"),
                kind: StateType::Context(vec![field("x")], false, Some(Box::new(eager(path)))),
            })
        } else {
            Ok(address())
        }
    }
}

#[test]
fn a_path_that_is_noted_while_it_is_built_is_refused() {
    let mut g = Graph::new();
    let mut sources = Sources::new(vec![Changing { asked: 0 }]);
    let root = root_with(lazy("a.yaml"), lazy("a.yaml"))
        .into_state(&mut g, None, &mut sources, 4)
        .unwrap()
        .unwrap();
    assert_eq!(g.input(root, s("home"), &mut sources), Err(LoadError::Invalid(Error::BadConstruction)));
    assert_eq!(sources.get(0).asked, 2);
    let inner = g.lookup(&s("a.yaml")).unwrap();
    assert_eq!(name_of(&g, inner), "address");
    let status = g.input(root, s("work"), &mut sources).unwrap();
    assert_eq!(status.state, Some(inner));
    assert_eq!(sources.get(0).asked, 2);
}

#[test]
fn a_step_stands_for_itself() {
    let mut g = Graph::new();
    let mut sources = files(vec![("address.yaml", address)]);
    let root = root_with(lazy("address.yaml"), SerDeIntoState::Inline(address()))
        .into_state(&mut g, None, &mut sources, 4)
        .unwrap()
        .unwrap();
    assert_eq!(g.into_state_sandwich(root, &mut sources, 4), Ok(None));
    assert_eq!(g.resolve(root, &mut sources), Ok(root));
    assert_eq!(g.resolve(2, &mut sources), Ok(2));
    assert_eq!(sources.get(0).loads.get(), 0);
    assert_eq!(g.into_state_sandwich(1, &mut sources, 0), Err(LoadError::TooDeep));
    assert_eq!(g.into_state_sandwich(1, &mut sources, 1), Ok(Some(3)));
    assert_eq!(g.into_state_sandwich(1, &mut sources, 0), Ok(Some(3)));
    assert_eq!(g.get_state(root, 0, &mut sources), Ok(Some(3)));
    assert_eq!(g.get_state(root, 1, &mut sources), Ok(Some(2)));
    assert_eq!(sources.get(0).loads.get(), 1);
}

#[test]
fn errors_have_words_for_the_user() {
    assert_eq!(LoadError::FunctionNotFound.description(), "Function not found");
    assert_eq!(LoadError::TooDeep.description(), "Descriptions nested too deep");
    assert_eq!(LoadError::Failed(s("disk on fire")).description(), "disk on fire");
    assert_eq!(LoadError::Invalid(Error::BadConstruction).description(), "BadConstruction");
}

#[test]
fn what_a_source_gave_replaces_the_placeholder() {
    let mut g = Graph::new();
    let mut sources = files(vec![]);
    let root = root_with(lazy("a.yaml"), lazy("b.yaml"))
        .into_state(&mut g, None, &mut sources, 4)
        .unwrap()
        .unwrap();
    assert_eq!(
        g.install(1, Err(LoadError::Failed(s("no such file"))), &mut sources, 4),
        Err(LoadError::Failed(s("no such file")))
    );
    assert_eq!(g.len(), 3);
    assert_eq!(g.lookup(&s("a.yaml")), None);
    assert_eq!(g.install(1, Ok(broken()), &mut sources, 4), Err(LoadError::Invalid(Error::BadConstruction)));
    assert_eq!(g.lookup(&s("a.yaml")), None);
    match g.get(1) {
        State::StateHolder(h) => assert_eq!(h.state, None),
        _ => panic!("not a placeholder"),
    }
    let before = g.len();
    assert_eq!(g.install(1, Ok(address()), &mut sources, 4), Ok(Some(before)));
    assert_eq!(g.lookup(&s("a.yaml")), Some(before));
    assert_eq!(name_of(&g, before), "address");
    assert_eq!(g.get(before).get_parent(), Some(root));
    match g.get(1) {
        State::StateHolder(h) => assert_eq!(h.state, Some(before)),
        _ => panic!("not a placeholder"),
    }
    assert_eq!(g.lookup(&s("b.yaml")), None);
    assert_eq!(sources.get(0).loads.get(), 0);
}

struct Noting {
    paths: Vec<String>,
}

impl ConfigSource for Noting {
    fn load(&mut self, path: &String) -> Result<SerDeState, LoadError> {
        self.paths.push(path.clone());
        Ok(address())
    }
}

#[test]
fn the_source_that_a_placeholder_names_is_asked_for_its_path() {
    let mut g = Graph::new();
    let mut sources =
        Sources::new(vec![Noting { paths: Vec::new() }, Noting { paths: Vec::new() }]);
    assert_eq!(sources.len(), 2);
    let root = root_with(
        SerDeIntoState::Path(s("home.yaml"), Some(true), 1),
        SerDeIntoState::Path(s("work.yaml"), Some(true), 0),
    )
    .into_state(&mut g, None, &mut sources, 4)
    .unwrap()
    .unwrap();
    assert!(sources.get(0).paths.is_empty());
    assert!(sources.get(1).paths.is_empty());
    g.input(root, s("home"), &mut sources).unwrap();
    assert!(sources.get(0).paths.is_empty());
    assert_eq!(sources.get(1).paths, vec![s("home.yaml")]);
    g.input(root, s("work"), &mut sources).unwrap();
    g.input(root, s("home"), &mut sources).unwrap();
    g.input(root, s("work"), &mut sources).unwrap();
    assert_eq!(sources.get(0).paths, vec![s("work.yaml")]);
    assert_eq!(sources.get(1).paths, vec![s("home.yaml")]);
    assert_eq!(g.lookup(&s("home.yaml")), Some(3));
    assert_eq!(g.lookup(&s("work.yaml")), Some(4));

    let mut other = Graph::new();
    SerDeState::create_from_yaml_str(&mut other, &mut sources, s("root.yaml"), 1, 4)
        .unwrap()
        .unwrap();
    assert_eq!(sources.get(1).paths, vec![s("home.yaml"), s("root.yaml")]);
    assert_eq!(sources.get(0).paths, vec![s("work.yaml")]);
}

#[test]
fn a_source_that_is_not_there_changes_nothing() {
    let mut g = Graph::new();
    let mut sources = files(vec![("address.yaml", address)]);
    let root = root_with(
        SerDeIntoState::Path(s("address.yaml"), Some(true), 7),
        SerDeIntoState::Inline(address()),
    )
    .into_state(&mut g, None, &mut sources, 4)
    .unwrap()
    .unwrap();
    let nodes = g.len();
    assert_eq!(g.into_state_sandwich(1, &mut sources, 4), Err(LoadError::FunctionNotFound));
    assert_eq!(g.resolve(1, &mut sources), Err(LoadError::FunctionNotFound));
    assert_eq!(g.get_state(root, 0, &mut sources), Err(LoadError::FunctionNotFound));
    assert_eq!(g.len(), nodes);
    assert_eq!(g.lookup(&s("address.yaml")), None);
    assert_eq!(sources.get(0).loads.get(), 0);
    match g.get(1) {
        State::StateHolder(h) => assert_eq!(h.state, None),
        _ => panic!("not a placeholder"),
    }
}

#[test]
fn the_step_for_something_else_goes_by_the_name_of_the_owner() {
    let mut g = Graph::new();
    let mut sources = files(vec![]);
    let root = survey().into_state(&mut g, None, &mut sources, 4).unwrap().unwrap();
    assert_eq!(g.get(root + 2).get_name(), "survey");
    assert_eq!(g.get(root + 2).get_description(), "colour");
    assert_eq!(g.get(root + 1).get_name(), "OPTIONS");
    assert_eq!(g.get(root + 1).get_description(), "colour");
}
