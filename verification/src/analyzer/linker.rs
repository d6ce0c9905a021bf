use crate::analyzer::children::{
    lemma_childless_is_emptied, lemma_children_of_value, lemma_value_with_children, take_value,
};
use crate::analyzer::graph::{lemma_graph_is_finite, VarGraph};
use crate::analyzer::table::{key_of, lemma_entry_is_known, lemma_known_key_has_entry, Key, Table};
use crate::analyzer::{lemma_views, views, Id, JsValue, JsValueView};
use vstd::prelude::*;

verus! {

broadcast use lemma_views;

/// What a run of the linker knows of the bindings that it has met: a binding that is
/// being linked, and the linked value of one that is done.
pub struct LinkCache {
    pub entries: Table<Option<JsValue>>,
}

/// What the cache says of a binding, as a mathematical value.
pub open spec fn entry_view(entry: Option<JsValue>) -> Option<JsValueView> {
    match entry {
        Some(value) => Some(value@),
        None => None,
    }
}

impl View for LinkCache {
    type V = Map<Key, Option<JsValueView>>;

    open spec fn view(&self) -> Map<Key, Option<JsValueView>> {
        self.entries.map().map_values(|entry: Option<JsValue>| entry_view(entry))
    }
}

impl LinkCache {
    /// The cache that has met no binding.
    pub fn new() -> (r: LinkCache)
        ensures
            r@ == Map::<Key, Option<JsValueView>>::empty(),
    {
        let r = LinkCache { entries: Table::new() };
        r
    }

    /// Forgets the bindings that are being linked, as after a run that was given up: the
    /// linked values stay.
    pub fn forget_unfinished(&mut self)
        ensures
            final(self)@ == finished(old(self)@),
    {
        let ghost known = self.entries.map();
        let ghost before = self@;
        let mut kept: Table<Option<JsValue>> = Table::new();
        let mut i: usize = 0;
        while i < self.entries.entries.len()
            invariant
                i <= self.entries.entries.len(),
                known == self.entries.map(),
                before == self@,
                forall|key: Key|
                    #[trigger] kept.map().dom().contains(key) ==> known.dom().contains(key)
                        && known[key] is Some && entry_view(kept.map()[key]) == entry_view(
                        known[key],
                    ),
                forall|j: int|
                    0 <= j < i && known[key_of(self.entries.entries@[j].0)] is Some
                        ==> kept.map().dom().contains(
                        key_of(#[trigger] self.entries.entries@[j].0),
                    ),
            decreases self.entries.entries.len() - i,
        {
            let key = (self.entries.entries[i].0.0.clone(), self.entries.entries[i].0.1);
            let linked = match self.entries.get(&key) {
                Some(Some(value)) => Some(value.clone()),
                _ => None,
            };
            proof {
                lemma_entry_is_known(self.entries.entries@, i as int);
            }
            match linked {
                Some(value) => {
                    kept.set(key, Some(value));
                },
                None => {},
            }
            i += 1;
        }
        proof {
            let after = kept.map().map_values(|entry: Option<JsValue>| entry_view(entry));
            assert forall|key: Key| finished(before).dom().contains(key) implies after.dom()
                .contains(key) by {
                lemma_known_key_has_entry(self.entries.entries@, key);
            }
        }
        self.entries = kept;
    }
}

/// What a cache knows when it has forgotten the bindings that were being linked.
pub open spec fn finished(cache: Map<Key, Option<JsValueView>>) -> Map<Key, Option<JsValueView>> {
    cache.restrict(Set::new(|key: Key| cache.dom().contains(key) && cache[key] is Some))
}

/// What the linker has begun and not finished.
pub ghost enum FrameView {
    /// The children of a node are being linked: `done` are linked, one is being linked,
    /// `pending` are still to be linked.
    Node { shell: JsValueView, done: Seq<JsValueView>, pending: Seq<JsValueView> },
    /// The value of the binding `key` is being linked.
    Variable { key: Key },
}

/// What the linker does next.
pub ghost enum PhaseView {
    /// It begins to link a value.
    Begin(JsValueView),
    /// It has linked a value, and hands it to what waits for it.
    Deliver(JsValueView),
    /// It waits for the visitor's answer on a node whose children are linked.
    Visit(JsValueView),
    /// It has linked the value that it was given.
    Done(JsValueView),
}

/// The linker at one moment.
pub ghost struct Machine {
    pub stack: Seq<FrameView>,
    pub cache: Map<Key, Option<JsValueView>>,
    pub phase: PhaseView,
}

/// What stands for a binding that is met while it is being linked.
pub open spec fn cyclic(key: Key) -> JsValueView {
    JsValueView::Unknown(
        Some(Box::new(JsValueView::Variable(key.0, key.1))),
        "cyclic variable reference"@,
    )
}

/// What stands for a binding that the graph does not know.
pub open spec fn unanalysed() -> JsValueView {
    JsValueView::Unknown(None, "no value of this variable analysed"@)
}

impl PhaseView {
    /// Whether the linker goes on by itself.
    pub open spec fn is_inner(self) -> bool {
        self is Begin || self is Deliver
    }
}

/// One move of the linker.
/// - Beginning a variable: the linked value where the cache has one; the cyclic
///   reference where the binding is being linked; else the binding is marked as being
///   linked and its value in the graph is begun, or, where the graph does not know it,
///   the unanalysed value is delivered.
/// - Beginning another value: a value without children goes to the visitor; else the
///   first child is begun, and the node waits with the others.
/// - Delivering a value: to nothing, and the linker is done; to a node, which begins its
///   next child or, with all of them linked, goes to the visitor; to a binding, which is
///   marked as linked with this value, and the value is delivered further.
pub open spec fn step(graph: Map<Key, JsValueView>, m: Machine) -> Machine {
    match m.phase {
        PhaseView::Begin(JsValueView::Variable(name, scope)) => {
            let key = (name, scope);
            if m.cache.dom().contains(key) {
                match m.cache[key] {
                    Some(linked) => Machine { phase: PhaseView::Deliver(linked), ..m },
                    None => Machine { phase: PhaseView::Deliver(cyclic(key)), ..m },
                }
            } else if graph.dom().contains(key) {
                Machine {
                    stack: m.stack.push(FrameView::Variable { key }),
                    cache: m.cache.insert(key, None),
                    phase: PhaseView::Begin(graph[key]),
                }
            } else {
                Machine { phase: PhaseView::Deliver(unanalysed()), ..m }
            }
        },
        PhaseView::Begin(value) => {
            let children = value.children();
            if children.len() == 0 {
                Machine { phase: PhaseView::Visit(value), ..m }
            } else {
                Machine {
                    stack: m.stack.push(
                        FrameView::Node {
                            shell: value.emptied(),
                            done: Seq::empty(),
                            pending: children.skip(1),
                        },
                    ),
                    phase: PhaseView::Begin(children[0]),
                    ..m
                }
            }
        },
        PhaseView::Deliver(value) => {
            if m.stack.len() == 0 {
                Machine { phase: PhaseView::Done(value), ..m }
            } else {
                match m.stack.last() {
                    FrameView::Node { shell, done, pending } => {
                        if pending.len() == 0 {
                            Machine {
                                stack: m.stack.drop_last(),
                                phase: PhaseView::Visit(shell.with_children(done.push(value))),
                                ..m
                            }
                        } else {
                            Machine {
                                stack: m.stack.drop_last().push(
                                    FrameView::Node {
                                        shell,
                                        done: done.push(value),
                                        pending: pending.skip(1),
                                    },
                                ),
                                phase: PhaseView::Begin(pending[0]),
                                ..m
                            }
                        }
                    },
                    FrameView::Variable { key } => Machine {
                        stack: m.stack.drop_last(),
                        cache: m.cache.insert(key, Some(value)),
                        phase: PhaseView::Deliver(value),
                    },
                }
            }
        },
        _ => m,
    }
}

/// `n` moves of the linker.
pub open spec fn steps(graph: Map<Key, JsValueView>, m: Machine, n: nat) -> Machine
    decreases n,
{
    if n == 0 {
        m
    } else {
        step(graph, steps(graph, m, (n - 1) as nat))
    }
}

/// Whether the linker, going on by itself from `m`, stops after `n` moves and no sooner.
pub open spec fn stops_after(graph: Map<Key, JsValueView>, m: Machine, n: nat) -> bool {
    &&& !steps(graph, m, n).phase.is_inner()
    &&& forall|k: nat| k < n ==> (#[trigger] steps(graph, m, k)).phase.is_inner()
}

/// What the linker has begun and not finished.
pub enum Frame {
    /// The children of a node are being linked: those before `next` are linked, the one
    /// at `next` is being linked.
    Node { shell: JsValue, children: Vec<JsValue>, next: usize },
    /// The value of the binding `key` is being linked.
    Variable { key: Id },
}

impl Frame {
    /// Whether the frame is in order: a node has room for its children, and the child
    /// that is being linked is one of them.
    pub open spec fn wf(self) -> bool {
        match self {
            Frame::Node { shell, children, next } => {
                &&& next < children@.len()
                &&& shell.has_room_for(children@.len() as nat)
            },
            Frame::Variable { key } => true,
        }
    }
}

impl View for Frame {
    type V = FrameView;

    open spec fn view(&self) -> FrameView {
        match self {
            Frame::Node { shell, children, next } => FrameView::Node {
                shell: shell@,
                done: views(children@.take(*next as int)),
                pending: views(children@.skip(*next + 1)),
            },
            Frame::Variable { key } => FrameView::Variable { key: key_of(*key) },
        }
    }
}

/// What the linker does next.
pub enum Phase {
    Begin(JsValue),
    Deliver(JsValue),
    Visit(JsValue),
    Done(JsValue),
}

impl View for Phase {
    type V = PhaseView;

    open spec fn view(&self) -> PhaseView {
        match self {
            Phase::Begin(value) => PhaseView::Begin(value@),
            Phase::Deliver(value) => PhaseView::Deliver(value@),
            Phase::Visit(value) => PhaseView::Visit(value@),
            Phase::Done(value) => PhaseView::Done(value@),
        }
    }
}

/// The frames of a stack as mathematical values.
pub open spec fn frame_views(stack: Seq<Frame>) -> Seq<FrameView> {
    Seq::new(stack.len(), |i: int| stack[i]@)
}

/// Links symbolic values against a graph, one move at a time. Between two moves it
/// holds what it has begun and not finished.
pub struct Linker {
    stack: Vec<Frame>,
}

impl Linker {
    /// Every frame is in order.
    #[verifier::type_invariant]
    spec fn wf(self) -> bool {
        forall|i: int| 0 <= i < self.stack@.len() ==> (#[trigger] self.stack@[i]).wf()
    }

    /// What the linker has begun and not finished, the latest last.
    pub closed spec fn frames(self) -> Seq<FrameView> {
        frame_views(self.stack@)
    }

    /// The linker with `cache`, about to do `phase`.
    pub open spec fn machine(self, cache: LinkCache, phase: Phase) -> Machine {
        self.at(cache, phase@)
    }

    /// The linker with `cache`, about to do `phase`.
    pub open spec fn at(self, cache: LinkCache, phase: PhaseView) -> Machine {
        Machine { stack: self.frames(), cache: cache@, phase }
    }

    /// The linker that has begun nothing.
    pub fn new() -> (r: Linker)
        ensures
            r.frames() == Seq::<FrameView>::empty(),
    {
        let r = Linker { stack: Vec::new() };
        r
    }
}

impl Linker {
    /// Makes one move.
    fn advance(self, graph: &VarGraph, cache: &mut LinkCache, phase: Phase) -> (r: (Linker, Phase))
        requires
            phase@.is_inner(),
        ensures
            r.0.machine(*final(cache), r.1) == step(graph@, self.machine(*old(cache), phase)),
    {
        proof {
            use_type_invariant(&self);
        }
        let ghost before = frame_views(self.stack@);
        let ghost known = cache@;
        let mut stack = self.stack;
        let next =
        match phase {
            Phase::Begin(JsValue::Variable(id)) => {
                let key = (id.0.clone(), id.1);
                let linked: Option<Option<JsValue>> = match cache.entries.get(&id) {
                    Some(Some(value)) => Some(Some(value.clone())),
                    Some(None) => Some(None),
                    None => None,
                };
                match linked {
                    Some(Some(value)) => Phase::Deliver(value),
                    Some(None) => Phase::Deliver(
                        JsValue::Unknown(
                            Some(Box::new(JsValue::Variable(id))),
                            "cyclic variable reference",
                        ),
                    ),
                    None => {
                        let bound = match graph.get(&id) {
                            Some(bound) => Some(bound.clone()),
                            None => None,
                        };
                        match bound {
                            Some(bound) => {
                                cache.entries.set(key, None);
                                assert(cache@ =~= known.insert(key_of(id), None));
                                stack.push(Frame::Variable { key: id });
                                assert(frame_views(stack@) =~= before.push(
                                    FrameView::Variable { key: key_of(id) },
                                ));
                                Phase::Begin(bound)
                            },
                            None => Phase::Deliver(
                                JsValue::Unknown(None, "no value of this variable analysed"),
                            ),
                        }
                    },
                }
            },
            Phase::Begin(value) => {
                let ghost whole = value@;
                proof {
                    lemma_children_of_value(value);
                }
                let mut shell = value;
                let mut children = shell.take_children();
                if children.len() == 0 {
                    proof {
                        lemma_childless_is_emptied(whole);
                    }
                    Phase::Visit(shell)
                } else {
                    let ghost all = children@;
                    let first = take_value(&mut children[0]);
                    assert(views(children@.take(0)) =~= Seq::<JsValueView>::empty());
                    assert(views(children@.skip(1)) =~= views(all).skip(1));
                    let frame = Frame::Node { shell, children, next: 0 };
                    stack.push(frame);
                    assert(frame_views(stack@) =~= before.push(frame@));
                    Phase::Begin(first)
                }
            },
            Phase::Deliver(value) => {
                match stack.pop() {
                    None => Phase::Done(value),
                    Some(Frame::Variable { key }) => {
                        assert(frame_views(stack@) =~= before.drop_last());
                        cache.entries.set(key, Some(value.clone()));
                        assert(cache@ =~= known.insert(key_of(key), Some(value@)));
                        Phase::Deliver(value)
                    },
                    Some(Frame::Node { shell, children, next }) => {
                        assert(frame_views(stack@) =~= before.drop_last());
                        let ghost done = views(children@.take(next as int));
                        let ghost pending = views(children@.skip(next + 1));
                        let mut shell = shell;
                        let mut children = children;
                        children[next] = value;
                        assert(next < children.len());
                        assert(views(children@.take(next + 1)) =~= done.push(value@));
                        if next + 1 == children.len() {
                            let ghost hollow = shell;
                            assert(children@.take(next + 1) =~= children@);
                            shell.put_children(children);
                            proof {
                                lemma_value_with_children(hollow, shell);
                            }
                            Phase::Visit(shell)
                        } else {
                            let ghost filled = children@;
                            let child = take_value(&mut children[next + 1]);
                            assert(children@.take(next + 1) =~= filled.take(next + 1));
                            assert(views(children@.skip(next + 2)) =~= pending.skip(1));
                            let frame = Frame::Node { shell, children, next: next + 1 };
                            stack.push(frame);
                            assert(frame_views(stack@) =~= before.drop_last().push(frame@));
                            Phase::Begin(child)
                        }
                    },
                }
            },
            other => other,
        };
        (Linker { stack }, next)
    }
}

/// The number of nodes of the items of `list`.
pub open spec fn sizes(list: Seq<JsValueView>) -> nat
    decreases list, 1int,
{
    if list.len() == 0 {
        0
    } else {
        list[0].size() + sizes(list.skip(1))
    }
}

impl JsValueView {
    /// The number of nodes of the value, through all its children.
    pub open spec fn size(self) -> nat
        decreases self, 0int,
    {
        match self {
            JsValueView::Alternatives(list) => 1 + sizes(list),
            JsValueView::Concat(list) => 1 + sizes(list),
            JsValueView::Add(list) => 1 + sizes(list),
            JsValueView::Array(list) => 1 + sizes(list),
            JsValueView::Call(callee, args) => 1 + callee.size() + sizes(args),
            JsValueView::Function(return_value) => 1 + return_value.size(),
            JsValueView::Member(obj, prop) => 1 + obj.size() + prop.size(),
            _ => 1,
        }
    }
}

/// A value has one node more than its children.
proof fn lemma_size_of_children(value: JsValueView)
    ensures
        value.size() == 1 + sizes(value.children()),
{
    match value {
        JsValueView::Call(callee, args) => {
            let all = seq![*callee] + args;
            assert(all.skip(1) =~= args);
        },
        JsValueView::Function(return_value) => {
            let all = seq![*return_value];
            assert(sizes(all.skip(1)) == 0);
        },
        JsValueView::Member(obj, prop) => {
            let all = seq![*obj, *prop];
            assert(sizes(all.skip(1).skip(1)) == 0);
            assert(sizes(all.skip(1)) == prop.size());
        },
        _ => {},
    }
}

/// What a frame still asks for: itself, and twice the nodes that it has to link.
pub open spec fn frame_weight(frame: FrameView) -> nat {
    match frame {
        FrameView::Node { shell, done, pending } => 1 + 2 * sizes(pending),
        FrameView::Variable { key } => 1,
    }
}

/// What the frames of a stack still ask for.
pub open spec fn stack_weight(stack: Seq<FrameView>) -> nat
    decreases stack.len(),
{
    if stack.len() == 0 {
        0
    } else {
        stack_weight(stack.drop_last()) + frame_weight(stack.last())
    }
}

impl Machine {
    /// The bindings of the graph that the linker has not met.
    pub open spec fn unmet(self, graph: Map<Key, JsValueView>) -> Set<Key> {
        graph.dom().difference(self.cache.dom())
    }

    /// What the linker still has to do before it stops, as far as it goes on by itself
    /// without meeting a binding for the first time.
    pub open spec fn weight(self) -> nat {
        stack_weight(self.stack) + match self.phase {
            PhaseView::Begin(value) => 2 * value.size(),
            PhaseView::Deliver(_) => 1,
            _ => 0,
        }
    }
}

/// The weight of a stack with one more frame.
proof fn lemma_weight_of_push(stack: Seq<FrameView>, frame: FrameView)
    ensures
        stack_weight(stack.push(frame)) == stack_weight(stack) + frame_weight(frame),
{
    assert(stack.push(frame).drop_last() =~= stack);
}

/// Every move meets a binding for the first time, or leaves less to do.
pub proof fn lemma_step_goes_down(graph: Map<Key, JsValueView>, m: Machine)
    requires
        graph.dom().finite(),
        m.phase.is_inner(),
    ensures
        step(graph, m).unmet(graph).len() <= m.unmet(graph).len(),
        step(graph, m).unmet(graph).len() < m.unmet(graph).len() || step(graph, m).weight()
            < m.weight(),
{
    let next = step(graph, m);
    match m.phase {
        PhaseView::Begin(JsValueView::Variable(name, scope)) => {
            let key = (name, scope);
            if !m.cache.dom().contains(key) && graph.dom().contains(key) {
                assert(next.unmet(graph) =~= m.unmet(graph).remove(key));
            }
        },
        PhaseView::Begin(value) => {
            lemma_size_of_children(value);
            let children = value.children();
            if children.len() > 0 {
                lemma_weight_of_push(
                    m.stack,
                    FrameView::Node {
                        shell: value.emptied(),
                        done: Seq::empty(),
                        pending: children.skip(1),
                    },
                );
            }
        },
        PhaseView::Deliver(value) => {
            if m.stack.len() > 0 {
                match m.stack.last() {
                    FrameView::Node { shell, done, pending } => {
                        if pending.len() > 0 {
                            lemma_weight_of_push(
                                m.stack.drop_last(),
                                FrameView::Node {
                                    shell,
                                    done: done.push(value),
                                    pending: pending.skip(1),
                                },
                            );
                        }
                    },
                    FrameView::Variable { key } => {
                        if m.cache.dom().contains(key) || !graph.dom().contains(key) {
                            assert(next.unmet(graph) =~= m.unmet(graph));
                        } else {
                            assert(next.unmet(graph) =~= m.unmet(graph).remove(key));
                        }
                    },
                }
            }
        },
        _ => {},
    }
}

/// The linker stops after one number of moves only.
pub proof fn lemma_stops_once(graph: Map<Key, JsValueView>, m: Machine, a: nat, b: nat)
    requires
        stops_after(graph, m, a),
        stops_after(graph, m, b),
    ensures
        a == b,
{
}

/// Where the linker stands when it has gone on by itself from `m` until it stopped.
pub open spec fn outcome(graph: Map<Key, JsValueView>, m: Machine) -> Machine {
    steps(graph, m, choose|n: nat| stops_after(graph, m, n))
}

/// What the linker asks of its caller when it stops.
pub enum LinkStep {
    /// The children of this node are linked: the visitor is to see the node, and the
    /// linker is to be resumed with the visitor's answer.
    Visit(JsValue),
    /// This is the linked value.
    Done(JsValue),
}

impl View for LinkStep {
    type V = PhaseView;

    open spec fn view(&self) -> PhaseView {
        match self {
            LinkStep::Visit(value) => PhaseView::Visit(value@),
            LinkStep::Done(value) => PhaseView::Done(value@),
        }
    }
}

/// What the linker does with the visitor's answer: a changed node is linked anew, an
/// unchanged one is linked.
pub open spec fn answered(value: JsValueView, modified: bool) -> PhaseView {
    if modified {
        PhaseView::Begin(value)
    } else {
        PhaseView::Deliver(value)
    }
}

impl Linker {
    /// Goes on from `phase` until the linker stops.
    fn run(self, graph: &VarGraph, cache: &mut LinkCache, phase: Phase) -> (r: (Linker, LinkStep))
        ensures
            exists|n: nat| stops_after(graph@, self.machine(*old(cache), phase), n),
            r.0.at(*final(cache), r.1@) == outcome(graph@, self.machine(*old(cache), phase)),
    {
        let ghost start = self.machine(*cache, phase);
        let ghost n: nat = 0;
        let mut linker = self;
        let mut current = phase;
        proof {
            lemma_graph_is_finite(*graph);
        }
        loop
            invariant
                graph@.dom().finite(),
                start == self.machine(*old(cache), phase),
                linker.machine(*cache, current) == steps(graph@, start, n),
                forall|k: nat| k < n ==> (#[trigger] steps(graph@, start, k)).phase.is_inner(),
            decreases
                linker.machine(*cache, current).unmet(graph@).len(),
                linker.machine(*cache, current).weight(),
        {
            match current {
                Phase::Visit(value) => {
                    return (linker, LinkStep::Visit(value));
                },
                Phase::Done(value) => {
                    proof {
                        let chosen = choose|k: nat| stops_after(graph@, start, k);
                        lemma_stops_once(graph@, start, n, chosen);
                    }
                    return (linker, LinkStep::Done(value));
                },
                inner => {
                    proof {
                        lemma_step_goes_down(graph@, linker.machine(*cache, inner));
                    }
                    let moved = linker.advance(graph, cache, inner);
                    linker = moved.0;
                    current = moved.1;
                    proof {
                        n = n + 1;
                    }
                },
            }
        }
    }

    /// Takes the linker out of its place, where a linker that has begun nothing is left.
    fn take(&mut self) -> (r: Linker)
        ensures
            r == *old(self),
    {
        let mut taken = Linker::new();
        core::mem::swap(self, &mut taken);
        taken
    }

    /// Begins to link `value`, and goes on until the visitor is needed or the value is
    /// linked.
    pub fn start(&mut self, graph: &VarGraph, cache: &mut LinkCache, value: JsValue) -> (r:
        LinkStep)
        ensures
            exists|n: nat|
                stops_after(graph@, old(self).at(*old(cache), PhaseView::Begin(value@)), n),
            final(self).at(*final(cache), r@) == outcome(
                graph@,
                old(self).at(*old(cache), PhaseView::Begin(value@)),
            ),
    {
        let (linker, step) = self.take().run(graph, cache, Phase::Begin(value));
        *self = linker;
        step
    }

    /// Goes on after the visitor has seen a node: with `value`, what the visitor left of
    /// the node, and with `modified`, whether the visitor says that it changed the node.
    pub fn resume(
        &mut self,
        graph: &VarGraph,
        cache: &mut LinkCache,
        value: JsValue,
        modified: bool,
    ) -> (r: LinkStep)
        ensures
            exists|n: nat|
                stops_after(graph@, old(self).at(*old(cache), answered(value@, modified)), n),
            final(self).at(*final(cache), r@) == outcome(
                graph@,
                old(self).at(*old(cache), answered(value@, modified)),
            ),
    {
        let phase = if modified {
            Phase::Begin(value)
        } else {
            Phase::Deliver(value)
        };
        let (linker, step) = self.take().run(graph, cache, phase);
        *self = linker;
        step
    }
}

} // verus!
