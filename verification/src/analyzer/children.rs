use crate::analyzer::{lemma_views, views, JsValue, JsValueView};
use vstd::prelude::*;

verus! {

broadcast use lemma_views;

impl JsValueView {
    /// The children of the value, in the order in which they are visited.
    pub open spec fn children(self) -> Seq<JsValueView> {
        match self {
            JsValueView::Alternatives(list) => list,
            JsValueView::Concat(list) => list,
            JsValueView::Add(list) => list,
            JsValueView::Array(list) => list,
            JsValueView::Call(callee, args) => seq![*callee] + args,
            JsValueView::Function(return_value) => seq![*return_value],
            JsValueView::Member(obj, prop) => seq![*obj, *prop],
            _ => Seq::empty(),
        }
    }

    /// The same kind of node with `children` for its children.
    pub open spec fn with_children(self, children: Seq<JsValueView>) -> JsValueView {
        match self {
            JsValueView::Alternatives(_) => JsValueView::Alternatives(children),
            JsValueView::Concat(_) => JsValueView::Concat(children),
            JsValueView::Add(_) => JsValueView::Add(children),
            JsValueView::Array(_) => JsValueView::Array(children),
            JsValueView::Call(_, _) => JsValueView::Call(Box::new(children[0]), children.skip(1)),
            JsValueView::Function(_) => JsValueView::Function(Box::new(children[0])),
            JsValueView::Member(_, _) => JsValueView::Member(
                Box::new(children[0]),
                Box::new(children[1]),
            ),
            _ => self,
        }
    }
}

/// The children of the value of a node are the values of its children.
pub proof fn lemma_children_of_value(value: JsValue)
    ensures
        value@.children() == views(value.children()),
{
    match value {
        JsValue::Call(callee, args) => {
            assert(*value@->Call_0 == callee@ && value@->Call_1 == views(args@));
        },
        _ => {},
    }
}

/// A node of the kind of `shell` is the value of `shell` with the node's children.
pub proof fn lemma_value_with_children(shell: JsValue, node: JsValue)
    requires
        shell.same_kind(node),
    ensures
        node@ == shell@.with_children(views(node.children())),
{
    match node {
        JsValue::Call(callee, args) => {
            assert(views(node.children()).skip(1) =~= views(args@));
        },
        _ => {},
    }
}

impl JsValueView {
    /// The node without its children: a list is empty, and where a single child stood
    /// the default value stands.
    pub open spec fn emptied(self) -> JsValueView {
        let nothing = JsValueView::Unknown(None, Seq::<char>::empty());
        match self {
            JsValueView::Alternatives(_) => JsValueView::Alternatives(Seq::empty()),
            JsValueView::Concat(_) => JsValueView::Concat(Seq::empty()),
            JsValueView::Add(_) => JsValueView::Add(Seq::empty()),
            JsValueView::Array(_) => JsValueView::Array(Seq::empty()),
            JsValueView::Call(_, _) => JsValueView::Call(Box::new(nothing), Seq::empty()),
            JsValueView::Function(_) => JsValueView::Function(Box::new(nothing)),
            JsValueView::Member(_, _) => JsValueView::Member(
                Box::new(nothing),
                Box::new(nothing),
            ),
            _ => self,
        }
    }
}

impl JsValue {
    /// The children of the value, in the order in which they are visited: the items of a
    /// list, the callee and then the arguments of a call, the return value of a function,
    /// the object and then the property of a member. Every other value has none.
    pub open spec fn children(self) -> Seq<JsValue> {
        match self {
            JsValue::Alternatives(list) => list@,
            JsValue::Concat(list) => list@,
            JsValue::Add(list) => list@,
            JsValue::Array(list) => list@,
            JsValue::Call(callee, args) => seq![*callee] + args@,
            JsValue::Function(return_value) => seq![*return_value],
            JsValue::Member(obj, prop) => seq![*obj, *prop],
            _ => Seq::empty(),
        }
    }

    /// Whether `other` is the same kind of node: a value that cannot have children is of
    /// a kind with itself alone.
    pub open spec fn same_kind(self, other: JsValue) -> bool {
        match self {
            JsValue::Alternatives(_) => other is Alternatives,
            JsValue::Concat(_) => other is Concat,
            JsValue::Add(_) => other is Add,
            JsValue::Array(_) => other is Array,
            JsValue::Call(_, _) => other is Call,
            JsValue::Function(_) => other is Function,
            JsValue::Member(_, _) => other is Member,
            _ => other == self,
        }
    }

    /// Whether `other` is the same kind of node with as many children.
    pub open spec fn is_like(self, other: JsValue) -> bool {
        self.same_kind(other) && self.children().len() == other.children().len()
    }

    /// Whether a node of this kind can have `n` children: a list any number, a call one
    /// or more, a function one, a member two, every other value none.
    pub open spec fn has_room_for(self, n: nat) -> bool {
        match self {
            JsValue::Alternatives(_) => true,
            JsValue::Concat(_) => true,
            JsValue::Add(_) => true,
            JsValue::Array(_) => true,
            JsValue::Call(_, _) => n >= 1,
            JsValue::Function(_) => n == 1,
            JsValue::Member(_, _) => n == 2,
            _ => n == 0,
        }
    }
}

/// Moves `value` out of its place, where the default value is left.
pub fn take_value(value: &mut JsValue) -> (r: JsValue)
    ensures
        r == *old(value),
        final(value)@ == JsValueView::Unknown(None, Seq::<char>::empty()),
{
    let mut taken = JsValue::default();
    core::mem::swap(value, &mut taken);
    taken
}

impl JsValue {
    /// Moves the children out of the node, in the order of [`JsValue::children`]. The node
    /// keeps its kind; a list is left empty, and where a single child stood the default
    /// value stands.
    pub fn take_children(&mut self) -> (r: Vec<JsValue>)
        ensures
            r@ == old(self).children(),
            old(self).same_kind(*final(self)),
            final(self).has_room_for(r@.len() as nat),
            final(self)@ == old(self)@.emptied(),
    {
        let mut children: Vec<JsValue> = Vec::new();
        match self {
            JsValue::Alternatives(list) => {
                core::mem::swap(list, &mut children);
                assert(views(list@) =~= Seq::<JsValueView>::empty());
            },
            JsValue::Concat(list) => {
                core::mem::swap(list, &mut children);
                assert(views(list@) =~= Seq::<JsValueView>::empty());
            },
            JsValue::Add(list) => {
                core::mem::swap(list, &mut children);
                assert(views(list@) =~= Seq::<JsValueView>::empty());
            },
            JsValue::Array(list) => {
                core::mem::swap(list, &mut children);
                assert(views(list@) =~= Seq::<JsValueView>::empty());
            },
            JsValue::Call(callee, args) => {
                let inner: &mut JsValue = callee;
                children.push(take_value(inner));
                children.append(args);
                assert(views(args@) =~= Seq::<JsValueView>::empty());
            },
            JsValue::Function(return_value) => {
                let inner: &mut JsValue = return_value;
                children.push(take_value(inner));
            },
            JsValue::Member(obj, prop) => {
                let inner: &mut JsValue = obj;
                children.push(take_value(inner));
                let inner: &mut JsValue = prop;
                children.push(take_value(inner));
            },
            _ => {},
        }
        children
    }

    /// Whether a node of this kind can have `n` children.
    pub fn has_room(&self, n: usize) -> (r: bool)
        ensures
            r == self.has_room_for(n as nat),
    {
        match self {
            JsValue::Alternatives(_) => true,
            JsValue::Concat(_) => true,
            JsValue::Add(_) => true,
            JsValue::Array(_) => true,
            JsValue::Call(_, _) => n >= 1,
            JsValue::Function(_) => n == 1,
            JsValue::Member(_, _) => n == 2,
            _ => n == 0,
        }
    }

    /// Gives the node `children` for the ones it has, in the order of
    /// [`JsValue::children`]. The node keeps its kind.
    pub fn put_children(&mut self, children: Vec<JsValue>)
        requires
            old(self).has_room_for(children@.len() as nat),
        ensures
            final(self).children() == children@,
            old(self).same_kind(*final(self)),
    {
        let mut children = children;
        match self {
            JsValue::Alternatives(list) => {
                *list = children;
            },
            JsValue::Concat(list) => {
                *list = children;
            },
            JsValue::Add(list) => {
                *list = children;
            },
            JsValue::Array(list) => {
                *list = children;
            },
            JsValue::Call(callee, args) => {
                let first = children.remove(0);
                *callee = Box::new(first);
                *args = children;
            },
            JsValue::Function(return_value) => {
                let first = children.remove(0);
                *return_value = Box::new(first);
            },
            JsValue::Member(obj, prop) => {
                let first = children.remove(0);
                let second = children.remove(0);
                *obj = Box::new(first);
                *prop = Box::new(second);
            },
            _ => {},
        }
    }
}

/// A value without children is its own shell.
pub proof fn lemma_childless_is_emptied(value: JsValueView)
    requires
        value.children().len() == 0,
        !(value is Call),
        !(value is Function),
        !(value is Member),
    ensures
        value.emptied() == value,
{
    match value {
        JsValueView::Alternatives(list) => {
            assert(list =~= Seq::empty());
        },
        JsValueView::Concat(list) => {
            assert(list =~= Seq::empty());
        },
        JsValueView::Add(list) => {
            assert(list =~= Seq::empty());
        },
        JsValueView::Array(list) => {
            assert(list =~= Seq::empty());
        },
        _ => {},
    }
}

} // verus!
