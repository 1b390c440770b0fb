use vstd::prelude::*;
use crate::error::LoadError;
use crate::collect::path_to_root;
use crate::graph::{node_ok, nodes_ok, way_back, Graph};
use crate::state::{ContextState, State};

verus! {

/// A step with N fields is filled by N inputs and no fewer, and the K-th
/// input is the value of the K-th field.
///
/// `steps` holds the step before the first input and after each input. After
/// all of `inputs`, which are no more than there are fields, the index equals
/// their number, each of the first fields holds its input, and the others are
/// as they were. All fields are filled exactly when there were N inputs, and
/// never before the last one.
pub proof fn inputs_fill_fields_in_order(steps: Seq<ContextState>, inputs: Seq<String>)
    requires
        steps.len() == inputs.len() + 1,
        steps[0].index == 0,
        inputs.len() <= steps[0].contexts@.len(),
        forall|i: int| 0 <= i < inputs.len() ==> (#[trigger] steps[i]).entered(inputs[i], steps[i + 1]),
    ensures
        steps.last().index == inputs.len(),
        steps.last().contexts@.len() == steps[0].contexts@.len(),
        forall|j: int|
            0 <= j < inputs.len() ==> #[trigger] steps.last().contexts@[j]
                == steps[0].contexts@[j].with_value(inputs[j]),
        forall|j: int|
            inputs.len() <= j < steps[0].contexts@.len() ==> #[trigger] steps.last().contexts@[j]
                == steps[0].contexts@[j],
        steps.last().exhausted() <==> inputs.len() == steps[0].contexts@.len(),
        forall|i: int| 0 <= i < inputs.len() ==> !(#[trigger] steps[i]).exhausted(),
    decreases inputs.len(),
{
    if inputs.len() > 0 {
        let n = inputs.len() as int;
        let earlier = steps.drop_last();
        let fewer = inputs.drop_last();
        assert forall|i: int| 0 <= i < fewer.len() implies (#[trigger] earlier[i]).entered(
            fewer[i],
            earlier[i + 1],
        ) by {
            assert(steps[i].entered(inputs[i], steps[i + 1]));
        }
        inputs_fill_fields_in_order(earlier, fewer);
        let before = steps[n - 1];
        assert(before == earlier.last());
        assert(before.entered(inputs[n - 1], steps[n]));
        assert forall|j: int| 0 <= j < inputs.len() implies #[trigger] steps.last().contexts@[j]
            == steps[0].contexts@[j].with_value(inputs[j]) by {
            if j < n - 1 {
                assert(before.contexts@[j] == steps[0].contexts@[j].with_value(fewer[j]));
            }
        }
        assert forall|i: int| 0 <= i < inputs.len() implies !(#[trigger] steps[i]).exhausted() by {
            if i < n - 1 {
                assert(!earlier[i].exhausted());
            }
        }
    }
}

/// Two placeholders for one path stand for one step: once the first has been
/// replaced by a step, the graph knows that step as what the second stands
/// for, so replacing the second asks no source and gives the same step.
pub proof fn same_path_same_step(
    before: &Graph,
    after: &Graph,
    first: int,
    second: int,
    step: usize,
    n: nat,
)
    requires
        before.wf(),
        after.wf(),
        0 <= first < before.states().len(),
        0 <= second < before.states().len(),
        before.states()[first] matches State::StateHolder(a) && before.states()[second] matches State::StateHolder(
            b,
        ) && a.path@ == b.path@,
        after.resolved_from(before, first, Ok::<usize, LoadError>(step), n),
    ensures
        after.known(second) == Some(step),
        after.asks_nothing(second, n),
{
    let a = before.states()[first]->StateHolder_0;
    let b = before.states()[second]->StateHolder_0;
    if first != second {
        assert(after.states()[second] == before.states()[second]);
    }
}

/// A step that nothing follows completes the flow once its fields are
/// filled, whether or not it is marked to do so, and names no next step.
pub proof fn last_step_completes(
    before: &Graph,
    after: &Graph,
    id: int,
    step: ContextState,
    r: Result<(Option<usize>, bool), LoadError>,
    n: nat,
)
    requires
        after.handed_over(before, id, step, r, n),
        step.next is None,
    ensures
        r == Ok::<(Option<usize>, bool), LoadError>((None, true)),
        after.entries() == before.entries(),
{
}

/// The way from a step to the root goes from each step to its parent, which
/// stands before it, and ends at the step without a parent: it visits no
/// step twice, and as many steps as the step has ancestors, and itself.
pub proof fn path_to_root_follows_parents(nodes: Seq<State>, id: int)
    requires
        nodes_ok(nodes),
        0 <= id < nodes.len(),
    ensures
        path_to_root(nodes, id).len() >= 1,
        path_to_root(nodes, id)[0] == id,
        forall|k: int|
            0 <= k < path_to_root(nodes, id).len() ==> 0 <= #[trigger] path_to_root(nodes, id)[k]
                <= id,
        forall|k: int|
            0 <= k < path_to_root(nodes, id).len() - 1 ==> nodes[#[trigger] path_to_root(
                nodes,
                id,
            )[k]].spec_parent() == Some(path_to_root(nodes, id)[k + 1] as usize)
                && path_to_root(nodes, id)[k + 1] < path_to_root(nodes, id)[k],
        nodes[path_to_root(nodes, id).last()].spec_parent() is None,
    decreases id,
{
    assert(node_ok(nodes, id));
    match nodes[id].spec_parent() {
        Some(p) => {
            path_to_root_follows_parents(nodes, p as int);
            let rest = path_to_root(nodes, p as int);
            let path = path_to_root(nodes, id);
            assert(path =~= seq![id] + rest);
            assert forall|k: int| 0 <= k < path.len() - 1 implies nodes[#[trigger] path[k]].spec_parent()
                == Some(path[k + 1] as usize) && path[k + 1] < path[k] by {
                if k > 0 {
                    assert(path[k] == rest[k - 1]);
                    assert(path[k + 1] == rest[k]);
                }
            }
            assert forall|k: int| 0 <= k < path.len() implies 0 <= #[trigger] path[k] <= id by {
                if k > 0 {
                    assert(path[k] == rest[k - 1]);
                }
            }
            assert(path.last() == rest.last());
        },
        None => {},
    }
}

/// Leaving a step for a parent that is a menu takes 2 from the menu's index,
/// whatever the step is, and the index stops at 0. Only a step that asks for
/// fields and is left for another such step takes 1.
pub proof fn way_back_to_menu(child: State, parent: State)
    requires
        parent is OptionsState,
    ensures
        way_back(child, parent) == 2,
        parent.decreased(way_back(child, parent)) is OptionsState,
        parent.decreased(way_back(child, parent)).spec_index() == if parent.spec_index() >= 2 {
            parent.spec_index() - 2
        } else {
            0
        },
{
}

} // verus!
