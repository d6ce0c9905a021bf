use crate::analyzer::table::{
    key_of, lemma_entry_is_known, lemma_finitely_many_keys, lemma_known_key_has_entry, Key, Table,
};
use crate::analyzer::eval::{EvalContext, EvalContextView, Expr, ExprView};
use crate::analyzer::{Id, JsValue, JsValueView};
use crate::text::{decimal, decimal_string, same_text};
use vstd::prelude::*;
use vstd::string::*;

verus! {

/// For every top-level binding of a program, the values that may flow into it.
pub struct VarGraph {
    pub values: Table<JsValue>,
}

impl View for VarGraph {
    type V = Map<Key, JsValueView>;

    open spec fn view(&self) -> Map<Key, JsValueView> {
        self.values.map().map_values(|value: JsValue| value@)
    }
}

/// A graph knows finitely many bindings.
pub proof fn lemma_graph_is_finite(graph: VarGraph)
    ensures
        graph@.dom().finite(),
{
    lemma_finitely_many_keys(graph.values.entries@);
    assert(graph@.dom() =~= graph.values.map().dom());
}

impl VarGraph {
    /// The graph without a binding.
    pub fn new() -> (r: VarGraph)
        ensures
            r@ == Map::<Key, JsValueView>::empty(),
    {
        let r = VarGraph { values: Table::new() };
        r
    }

    /// The values that may flow into the binding `key`, if the graph knows the binding.
    pub fn get(&self, key: &Id) -> (r: Option<&JsValue>)
        ensures
            r is Some <==> self@.dom().contains(key_of(*key)),
            r is Some ==> r->0@ == self@[key_of(*key)],
    {
        self.values.get(key)
    }

    /// Records that `value` may flow into the binding `key`: as its value where the graph
    /// did not know the binding, else as one more alternative.
    pub fn add(&mut self, key: Id, value: JsValue)
        ensures
            final(self)@ == old(self)@.insert(
                key_of(key),
                if old(self)@.dom().contains(key_of(key)) {
                    old(self)@[key_of(key)].with_alt(value@)
                } else {
                    value@
                },
            ),
    {
        let merged = match self.values.get(&key) {
            Some(known) => {
                let mut merged = known.clone();
                merged.add_alt(value);
                merged
            },
            None => value,
        };
        self.values.set(key, merged);
    }
}

/// Whether no other binding of `graph` has the symbol of `key`.
pub open spec fn symbol_is_unique(graph: Map<Key, JsValueView>, key: Key) -> bool {
    forall|other: Key| #[trigger] graph.dom().contains(other) && other.0 == key.0 ==> other == key
}

/// How a binding is called among the bindings of `graph`: by its symbol where no other
/// binding has it, else by its symbol, `#` and the tag of its scope.
pub open spec fn key_name(graph: Map<Key, JsValueView>, key: Key) -> Seq<char> {
    if symbol_is_unique(graph, key) {
        key.0
    } else {
        key.0 + "#"@ + decimal(key.1 as nat)
    }
}

impl VarGraph {
    /// How the binding `key` is called among the bindings of the graph.
    pub fn key_name(&self, key: &Id) -> (r: String)
        ensures
            r@ == key_name(self@, key_of(*key)),
    {
        let ghost entries = self.values.entries@;
        let mut i: usize = 0;
        while i < self.values.entries.len()
            invariant
                i <= self.values.entries.len(),
                entries == self.values.entries@,
                forall|j: int|
                    0 <= j < i && (#[trigger] entries[j]).0.0@ == key.0@ ==> key_of(entries[j].0)
                        == key_of(*key),
            decreases self.values.entries.len() - i,
        {
            let entry = &self.values.entries[i].0;
            if same_text(entry.0.as_str(), key.0.as_str()) && entry.1 != key.1 {
                proof {
                    lemma_entry_is_known(entries, i as int);
                    assert(self@.dom().contains(key_of(entries[i as int].0)));
                }
                let mut name = key.0.clone();
                name.append("#");
                name.append(decimal_string(key.1 as usize).as_str());
                return name;
            }
            i += 1;
        }
        proof {
            assert forall|other: Key| #[trigger]
                self@.dom().contains(other) && other.0 == key.0@ implies other == key_of(*key) by {
                lemma_known_key_has_entry(entries, other);
            }
        }
        key.0.clone()
    }
}

/// The values of a list of assignments: for each, the key of its target and the value
/// of its right-hand side.
pub open spec fn assignments_of(list: Seq<(Id, Expr)>) -> Seq<(Key, ExprView)> {
    Seq::new(list.len(), |i: int| (key_of(list[i].0), list[i].1@))
}

/// The graph of a program with the assignments `list`: each right-hand side stands for a
/// value, which is recorded for the target, as its value where it is the first and as
/// one more alternative where it is not.
pub open spec fn graph_of(list: Seq<(Key, ExprView)>, context: EvalContextView) -> Map<
    Key,
    JsValueView,
>
    decreases list.len(),
{
    if list.len() == 0 {
        Map::empty()
    } else {
        let graph = graph_of(list.drop_last(), context);
        let key = list.last().0;
        let value = list.last().1.evaluated(context, Seq::empty());
        graph.insert(
            key,
            if graph.dom().contains(key) {
                graph[key].with_alt(value)
            } else {
                value
            },
        )
    }
}

/// Builds the graph of a program from its declarations with an initialiser and its
/// assignments, in the order of the program.
pub fn create_graph(assignments: &Vec<(Id, Expr)>, context: &EvalContext) -> (r: VarGraph)
    ensures
        r@ == graph_of(assignments_of(assignments@), context@),
{
    let ghost all = assignments_of(assignments@);
    let mut graph = VarGraph::new();
    let mut i: usize = 0;
    while i < assignments.len()
        invariant
            i <= assignments.len(),
            all == assignments_of(assignments@),
            graph@ == graph_of(all.take(i as int), context@),
        decreases assignments.len() - i,
    {
        proof {
            assert(all.take(i + 1).drop_last() =~= all.take(i as int));
        }
        let target = &assignments[i].0;
        let value = context.eval(&assignments[i].1);
        graph.add((target.0.clone(), target.1), value);
        i += 1;
    }
    proof {
        assert(all.take(all.len() as int) =~= all);
    }
    graph
}

} // verus!
