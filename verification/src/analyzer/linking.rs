use crate::analyzer::graph::VarGraph;
use crate::analyzer::linker::{
    answered, cyclic, lemma_step_goes_down, lemma_stops_once, outcome, step, steps, stops_after,
    unanalysed, FrameView, LinkCache, LinkStep, Linker, Machine, PhaseView,
};
use crate::analyzer::table::Key;
use crate::analyzer::{JsValue, JsValueView};
use vstd::prelude::*;

verus! {

/// One move and then `n` more are `n` moves and then one more.
pub proof fn lemma_steps_from_the_next(graph: Map<Key, JsValueView>, m: Machine, n: nat)
    ensures
        steps(graph, step(graph, m), n) == steps(graph, m, n + 1),
    decreases n,
{
    if n > 0 {
        lemma_steps_from_the_next(graph, m, (n - 1) as nat);
    } else {
        assert(steps(graph, m, 1) == step(graph, steps(graph, m, 0)));
    }
}

/// The linker stops: going on by itself, it comes to ask for the visitor or to be done
/// after finitely many moves, whatever the graph, and so too where bindings refer to
/// each other.
pub proof fn lemma_linker_stops(graph: Map<Key, JsValueView>, m: Machine)
    requires
        graph.dom().finite(),
    ensures
        exists|n: nat| stops_after(graph, m, n),
    decreases m.unmet(graph).len(), m.weight(),
{
    if m.phase.is_inner() {
        let next = step(graph, m);
        lemma_step_goes_down(graph, m);
        lemma_linker_stops(graph, next);
        let n = choose|n: nat| stops_after(graph, next, n);
        lemma_steps_from_the_next(graph, m, n);
        assert forall|k: nat| k < n + 1 implies (#[trigger] steps(
            graph,
            m,
            k,
        )).phase.is_inner() by {
            if k > 0 {
                lemma_steps_from_the_next(graph, m, (k - 1) as nat);
            }
        }
        assert(stops_after(graph, m, n + 1));
    } else {
        assert(stops_after(graph, m, 0));
    }
}

/// A binding that is met while it is being linked is cut: the linker does not follow it
/// again, and delivers the cyclic reference in its place.
pub proof fn lemma_cycle_is_cut(graph: Map<Key, JsValueView>, m: Machine, key: Key)
    requires
        m.phase == PhaseView::Begin(JsValueView::Variable(key.0, key.1)),
        m.cache.dom().contains(key),
        m.cache[key] is None,
    ensures
        step(graph, m).phase == PhaseView::Deliver(cyclic(key)),
        step(graph, m).stack == m.stack,
        step(graph, m).cache == m.cache,
{
}

/// A whole run of the linker with a visitor that answers as `visitor` says: the linker
/// goes on by itself, the visitor sees what the linker asks it to see, and so on, until
/// the linker is done or the visitor has been asked `rounds` times.
pub open spec fn linked(
    graph: Map<Key, JsValueView>,
    visitor: spec_fn(JsValueView) -> (JsValueView, bool),
    m: Machine,
    rounds: nat,
) -> Machine
    decreases rounds,
{
    let stopped = outcome(graph, m);
    if rounds > 0 && stopped.phase is Visit {
        let answer = visitor(stopped.phase->Visit_0);
        linked(
            graph,
            visitor,
            Machine { phase: answered(answer.0, answer.1), ..stopped },
            (rounds - 1) as nat,
        )
    } else {
        stopped
    }
}

/// Whether `value` needs no more linking in the eyes of `visitor`: the visitor has left
/// it unmodified, or it stands for a binding that could not be linked.
pub open spec fn settled(
    visitor: spec_fn(JsValueView) -> (JsValueView, bool),
    value: JsValueView,
) -> bool {
    ||| exists|node: JsValueView| #[trigger] visitor(node) == (value, false)
    ||| exists|key: Key| value == #[trigger] cyclic(key)
    ||| value == unanalysed()
}

/// Whether all that the linker holds as linked is settled: the linked values in the
/// cache, and the value that it is about to deliver.
pub open spec fn holds_settled(
    visitor: spec_fn(JsValueView) -> (JsValueView, bool),
    m: Machine,
) -> bool {
    &&& forall|key: Key|
        m.cache.dom().contains(key) && (#[trigger] m.cache[key]) is Some ==> settled(
            visitor,
            m.cache[key]->0,
        )
    &&& m.phase matches PhaseView::Deliver(value) ==> settled(visitor, value)
    &&& m.phase matches PhaseView::Done(value) ==> settled(visitor, value)
}

/// Moves keep settled what the linker holds as linked.
proof fn lemma_steps_hold_settled(
    graph: Map<Key, JsValueView>,
    visitor: spec_fn(JsValueView) -> (JsValueView, bool),
    m: Machine,
    n: nat,
)
    requires
        holds_settled(visitor, m),
    ensures
        holds_settled(visitor, steps(graph, m, n)),
    decreases n,
{
    if n > 0 {
        lemma_steps_hold_settled(graph, visitor, m, (n - 1) as nat);
    }
}

/// What a run of the linker gives is settled: the visitor has left it unmodified, or it
/// stands for a binding that could not be linked. This holds of every graph, of every
/// visitor that answers the same to the same node, and of every state in which all that
/// the linker holds as linked is settled, as in the state in which nothing is linked.
pub proof fn lemma_linked_value_is_settled(
    graph: Map<Key, JsValueView>,
    visitor: spec_fn(JsValueView) -> (JsValueView, bool),
    m: Machine,
    rounds: nat,
)
    requires
        graph.dom().finite(),
        holds_settled(visitor, m),
    ensures
        holds_settled(visitor, linked(graph, visitor, m, rounds)),
        linked(graph, visitor, m, rounds).phase matches PhaseView::Done(value) ==> settled(
            visitor,
            value,
        ),
    decreases rounds,
{
    let n = choose|n: nat| stops_after(graph, m, n);
    lemma_steps_hold_settled(graph, visitor, m, n);
    let stopped = outcome(graph, m);
    if rounds > 0 && stopped.phase is Visit {
        let answer = visitor(stopped.phase->Visit_0);
        let resumed = Machine { phase: answered(answer.0, answer.1), ..stopped };
        lemma_linked_value_is_settled(graph, visitor, resumed, (rounds - 1) as nat);
    }
}

/// With a visitor that leaves alone what it has once left unmodified, a second look at
/// the linked value changes nothing: the visitor answers the value itself, unmodified,
/// unless the value stands for a binding that could not be linked.
pub proof fn lemma_linking_reaches_a_fixpoint(
    graph: Map<Key, JsValueView>,
    visitor: spec_fn(JsValueView) -> (JsValueView, bool),
    m: Machine,
    rounds: nat,
    value: JsValueView,
)
    requires
        graph.dom().finite(),
        holds_settled(visitor, m),
        forall|node: JsValueView|
            !(#[trigger] visitor(node)).1 ==> visitor(visitor(node).0) == (visitor(node).0, false),
        linked(graph, visitor, m, rounds).phase == PhaseView::Done(value),
    ensures
        visitor(value) == (value, false) || value == unanalysed() || exists|key: Key|
            value == #[trigger] cyclic(key),
{
    lemma_linked_value_is_settled(graph, visitor, m, rounds);
}

/// Whether `value` is at rest under `visitor`: it is no reference to a binding, the
/// visitor answers the value itself, unmodified, and every child is at rest. What stands
/// for a binding that could not be linked is at rest as it is.
pub open spec fn at_rest(
    visitor: spec_fn(JsValueView) -> (JsValueView, bool),
    value: JsValueView,
) -> bool
    decreases value,
{
    ||| exists|key: Key| value == #[trigger] cyclic(key)
    ||| value == unanalysed()
    ||| {
        &&& !(value is Variable)
        &&& visitor(value) == (value, false)
        &&& match value {
            JsValueView::Alternatives(list) => forall|i: int|
                0 <= i < list.len() ==> at_rest(visitor, #[trigger] list[i]),
            JsValueView::Concat(list) => forall|i: int|
                0 <= i < list.len() ==> at_rest(visitor, #[trigger] list[i]),
            JsValueView::Add(list) => forall|i: int|
                0 <= i < list.len() ==> at_rest(visitor, #[trigger] list[i]),
            JsValueView::Array(list) => forall|i: int|
                0 <= i < list.len() ==> at_rest(visitor, #[trigger] list[i]),
            JsValueView::Call(callee, args) => {
                &&& at_rest(visitor, *callee)
                &&& forall|i: int| 0 <= i < args.len() ==> at_rest(visitor, #[trigger] args[i])
            },
            JsValueView::Function(return_value) => at_rest(visitor, *return_value),
            JsValueView::Member(obj, prop) => at_rest(visitor, *obj) && at_rest(visitor, *prop),
            _ => true,
        }
    }
}

/// Whether every item of `list` is at rest.
pub open spec fn all_at_rest(
    visitor: spec_fn(JsValueView) -> (JsValueView, bool),
    list: Seq<JsValueView>,
) -> bool {
    forall|i: int| 0 <= i < list.len() ==> at_rest(visitor, #[trigger] list[i])
}

/// Whether a node of the kind of `shell` can have `n` children, and at least one.
pub open spec fn holds_children(shell: JsValueView, n: nat) -> bool {
    match shell {
        JsValueView::Alternatives(_) => n >= 1,
        JsValueView::Concat(_) => n >= 1,
        JsValueView::Add(_) => n >= 1,
        JsValueView::Array(_) => n >= 1,
        JsValueView::Call(_, _) => n >= 1,
        JsValueView::Function(_) => n == 1,
        JsValueView::Member(_, _) => n == 2,
        _ => false,
    }
}

/// Whether a frame holds only what is at rest, and as many children as its node can
/// have.
pub open spec fn frame_at_rest(
    visitor: spec_fn(JsValueView) -> (JsValueView, bool),
    frame: FrameView,
) -> bool {
    match frame {
        FrameView::Node { shell, done, pending } => {
            &&& all_at_rest(visitor, done)
            &&& holds_children(shell, done.len() + 1 + pending.len())
        },
        FrameView::Variable { key } => true,
    }
}

/// Whether all that the linker holds as linked is at rest: the linked values in the
/// cache, the linked children in the frames, the children of the node that the visitor
/// is to see, and the value that the linker delivers.
pub open spec fn holds_at_rest(
    visitor: spec_fn(JsValueView) -> (JsValueView, bool),
    m: Machine,
) -> bool {
    &&& forall|key: Key|
        m.cache.dom().contains(key) && (#[trigger] m.cache[key]) is Some ==> at_rest(
            visitor,
            m.cache[key]->0,
        )
    &&& forall|i: int| 0 <= i < m.stack.len() ==> frame_at_rest(visitor, #[trigger] m.stack[i])
    &&& m.phase matches PhaseView::Deliver(value) ==> at_rest(visitor, value)
    &&& m.phase matches PhaseView::Done(value) ==> at_rest(visitor, value)
    &&& m.phase matches PhaseView::Visit(node) ==> !(node is Variable) && all_at_rest(
        visitor,
        node.children(),
    )
}

/// A node that the visitor leaves as it is, with children at rest, is at rest.
proof fn lemma_at_rest_by_children(
    visitor: spec_fn(JsValueView) -> (JsValueView, bool),
    node: JsValueView,
)
    requires
        !(node is Variable),
        visitor(node) == (node, false),
        all_at_rest(visitor, node.children()),
    ensures
        at_rest(visitor, node),
{
    let children = node.children();
    match node {
        JsValueView::Call(callee, args) => {
            assert(children[0] == *callee);
            assert forall|i: int| 0 <= i < args.len() implies at_rest(
                visitor,
                #[trigger] args[i],
            ) by {
                assert(children[i + 1] == args[i]);
            }
        },
        JsValueView::Function(return_value) => {},
        JsValueView::Member(obj, prop) => {},
        _ => {},
    }
}

/// Moves keep at rest what the linker holds as linked.
proof fn lemma_steps_hold_at_rest(
    graph: Map<Key, JsValueView>,
    visitor: spec_fn(JsValueView) -> (JsValueView, bool),
    m: Machine,
    n: nat,
)
    requires
        holds_at_rest(visitor, m),
    ensures
        holds_at_rest(visitor, steps(graph, m, n)),
    decreases n,
{
    if n > 0 {
        lemma_steps_hold_at_rest(graph, visitor, m, (n - 1) as nat);
    }
}

/// What a run of the linker gives is at rest: no reference to a binding is left in it to
/// substitute, and the visitor answers every node of it, the value itself and all below
/// it through the children, as it is and unmodified; only what stands for a binding that
/// could not be linked is left as it is without the visitor. This holds of every graph, of every visitor that answers the
/// same to the same node and leaves as it is what it calls unmodified, and of every state
/// in which all that the linker holds as linked is at rest, as in the state in which
/// nothing is linked.
pub proof fn lemma_linked_value_is_at_rest(
    graph: Map<Key, JsValueView>,
    visitor: spec_fn(JsValueView) -> (JsValueView, bool),
    m: Machine,
    rounds: nat,
)
    requires
        holds_at_rest(visitor, m),
        forall|node: JsValueView| !(#[trigger] visitor(node)).1 ==> visitor(node).0 == node,
    ensures
        holds_at_rest(visitor, linked(graph, visitor, m, rounds)),
        linked(graph, visitor, m, rounds).phase matches PhaseView::Done(value) ==> at_rest(
            visitor,
            value,
        ),
    decreases rounds,
{
    let n = choose|n: nat| stops_after(graph, m, n);
    lemma_steps_hold_at_rest(graph, visitor, m, n);
    let stopped = outcome(graph, m);
    if rounds > 0 && stopped.phase is Visit {
        let node = stopped.phase->Visit_0;
        let answer = visitor(node);
        let resumed = Machine { phase: answered(answer.0, answer.1), ..stopped };
        if !answer.1 {
            lemma_at_rest_by_children(visitor, node);
        }
        lemma_linked_value_is_at_rest(graph, visitor, resumed, (rounds - 1) as nat);
    }
}

/// To visit a value at rest once more changes nothing, unless the value stands for a
/// binding that could not be linked: it is no reference to a binding, the visitor
/// answers it as it is and unmodified, and all its children are at rest.
pub proof fn lemma_second_visit_changes_nothing(
    visitor: spec_fn(JsValueView) -> (JsValueView, bool),
    value: JsValueView,
)
    requires
        at_rest(visitor, value),
        value != unanalysed(),
        forall|key: Key| value != #[trigger] cyclic(key),
    ensures
        !(value is Variable),
        visitor(value) == (value, false),
        all_at_rest(visitor, value.children()),
{
}

/// A linker that has stopped does not go on by itself.
pub proof fn lemma_stopped_stays(graph: Map<Key, JsValueView>, m: Machine)
    requires
        !m.phase.is_inner(),
    ensures
        outcome(graph, m) == m,
{
    let chosen = choose|n: nat| stops_after(graph, m, n);
    lemma_stops_once(graph, m, 0, chosen);
}

/// Whether `visitor` answers as `answers` says: whatever it is given, it leaves the value
/// and gives the flag that `answers` has for the value of what it was given.
pub open spec fn answers_as<F: FnMut(JsValue) -> (JsValue, bool)>(
    visitor: F,
    answers: spec_fn(JsValueView) -> (JsValueView, bool),
) -> bool {
    forall|node: JsValue, answer: (JsValue, bool)| #[trigger]
        call_ensures(visitor, (node,), answer) ==> (answer.0@, answer.1) == answers(node@)
}

/// The state in which the linker begins to link `value` with `cache`.
pub open spec fn beginning(cache: Map<Key, Option<JsValueView>>, value: JsValueView) -> Machine {
    Machine { stack: Seq::empty(), cache, phase: PhaseView::Begin(value) }
}

/// Links `value` against `graph`: every binding that it refers to is replaced by the
/// linked value of the binding, and `visitor` sees every node when its children are
/// linked, as often as it says that it modified the node. The visitor is asked at most
/// `rounds` times; `None` says that this was not enough.
///
/// Of a visitor that answers the same to the same node, the result is that of the run
/// [`linked`] with these answers.
pub fn link<F: FnMut(JsValue) -> (JsValue, bool)>(
    graph: &VarGraph,
    value: JsValue,
    visitor: &mut F,
    cache: &mut LinkCache,
    rounds: usize,
) -> (r: Option<JsValue>)
    requires
        forall|node: JsValue| #[trigger] call_requires(*old(visitor), (node,)),
    ensures
        *final(visitor) == *old(visitor),
        forall|answers: spec_fn(JsValueView) -> (JsValueView, bool)|
            #![trigger answers_as(*old(visitor), answers)]
            answers_as(*old(visitor), answers) ==> {
                let end = linked(
                    graph@,
                    answers,
                    beginning(old(cache)@, value@),
                    rounds as nat,
                );
                &&& final(cache)@ == end.cache
                &&& match r {
                    Some(linked) => end.phase == PhaseView::Done(linked@),
                    None => end.phase is Visit,
                }
            },
{
    broadcast use vstd::function::group_function_axioms;

    let ghost start = beginning(cache@, value@);
    let mut linker = Linker::new();
    let mut step = linker.start(graph, cache, value);
    let mut left = rounds;
    proof {
        lemma_stopped_stays(graph@, linker.at(*cache, step@));
    }
    loop
        invariant
            *visitor == *old(visitor),
            forall|node: JsValue| #[trigger] call_requires(*visitor, (node,)),
            start == beginning(old(cache)@, value@),
            !step@.is_inner(),
            forall|answers: spec_fn(JsValueView) -> (JsValueView, bool)|
                #![trigger answers_as(*old(visitor), answers)]
                answers_as(*old(visitor), answers) ==> linked(
                    graph@,
                    answers,
                    start,
                    rounds as nat,
                ) == linked(graph@, answers, linker.at(*cache, step@), left as nat),
        decreases left,
    {
        match step {
            LinkStep::Done(linked) => {
                proof {
                    lemma_stopped_stays(graph@, linker.at(*cache, LinkStep::Done(linked)@));
                }
                return Some(linked);
            },
            LinkStep::Visit(node) => {
                let ghost stopped = linker.at(*cache, LinkStep::Visit(node)@);
                proof {
                    lemma_stopped_stays(graph@, stopped);
                }
                if left == 0 {
                    return None;
                }
                let (left_of_it, modified) = visitor(node);
                let ghost resumed = linker.at(*cache, answered(left_of_it@, modified));
                step = linker.resume(graph, cache, left_of_it, modified);
                left = left - 1;
                proof {
                    assert forall|answers: spec_fn(JsValueView) -> (JsValueView, bool)|
                        #![trigger answers_as(*old(visitor), answers)]
                        answers_as(*old(visitor), answers) implies linked(
                        graph@,
                        answers,
                        start,
                        rounds as nat,
                    ) == linked(graph@, answers, linker.at(*cache, step@), left as nat) by {
                        lemma_linked_after_outcome(graph@, answers, resumed, left as nat);
                    }
                }
            },
        }
    }
}

/// A run from where the linker stands when it has gone on by itself is the run from
/// where it stood before.
pub proof fn lemma_linked_after_outcome(
    graph: Map<Key, JsValueView>,
    visitor: spec_fn(JsValueView) -> (JsValueView, bool),
    m: Machine,
    rounds: nat,
)
    requires
        exists|n: nat| stops_after(graph, m, n),
    ensures
        linked(graph, visitor, outcome(graph, m), rounds) == linked(graph, visitor, m, rounds),
{
    lemma_stopped_stays(graph, outcome(graph, m));
}

} // verus!
