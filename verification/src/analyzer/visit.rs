use crate::analyzer::JsValue;
use vstd::prelude::*;

verus! {

broadcast use vstd::function::group_function_axioms;

/// Whether one of the answers of a visitor says that it modified what it was given: the
/// answer for a node whose children, and which itself, got these answers.
pub fn some_modified(answers: &Vec<bool>) -> (r: bool)
    ensures
        r == answers@.contains(true),
{
    let mut i: usize = 0;
    while i < answers.len()
        invariant
            i <= answers.len(),
            forall|j: int| 0 <= j < i ==> !answers@[j],
        decreases answers.len() - i,
    {
        if answers[i] {
            return true;
        }
        i += 1;
    }
    false
}

/// Whether `visitor` accepts every value.
pub open spec fn total<F: FnMut(&mut JsValue) -> bool>(visitor: F) -> bool {
    forall|slot: &mut JsValue| #[trigger] call_requires(visitor, (slot,))
}

/// Calls `visitor` on `value`.
fn visit_one<F: FnMut(&mut JsValue) -> bool>(value: &mut JsValue, visitor: &mut F) -> (r: bool)
    requires
        total(*old(visitor)),
    ensures
        *final(visitor) == *old(visitor),
        exists|slot: &mut JsValue|
            {
                &&& *slot == *old(value)
                &&& *final(slot) == *final(value)
                &&& #[trigger] call_ensures(*old(visitor), (slot,), r)
            },
{
    visitor(value)
}

/// With one more answer, some answer is yes where one was before or the new one is.
proof fn lemma_one_more_answer(flags: Seq<bool>, answer: bool)
    ensures
        flags.push(answer).contains(true) == (flags.contains(true) || answer),
{
    let grown = flags.push(answer);
    if answer {
        assert(grown[flags.len() as int] == true);
    }
    if flags.contains(true) {
        let k = choose|k: int| 0 <= k < flags.len() && flags[k] == true;
        assert(grown[k] == true);
    }
}

/// The place `i` of a list of children: the statements about every child speak of the
/// children by their places.
pub open spec fn child(i: int) -> int {
    i
}

/// Calls `visitor` on every item of `list`, in order.
fn visit_list<F: FnMut(&mut JsValue) -> bool>(list: &mut Vec<JsValue>, visitor: &mut F) -> (r:
    bool)
    requires
        total(*old(visitor)),
    ensures
        *final(visitor) == *old(visitor),
        final(list)@.len() == old(list)@.len(),
        exists|flags: Seq<bool>|
            {
                &&& flags.len() == old(list)@.len()
                &&& r == flags.contains(true)
                &&& forall|i: int|
                    0 <= #[trigger] child(i) < flags.len() ==> exists|slot: &mut JsValue|
                        {
                            &&& *slot == old(list)@[i]
                            &&& *final(slot) == final(list)@[i]
                            &&& #[trigger] call_ensures(*old(visitor), (slot,), flags[i])
                        }
            },
{
    let ghost flags: Seq<bool> = Seq::empty();
    let mut modified = false;
    let mut i: usize = 0;
    while i < list.len()
        invariant
            i <= list.len(),
            list.len() == old(list).len(),
            *visitor == *old(visitor),
            total(*visitor),
            flags.len() == i,
            forall|j: int|
                0 <= #[trigger] child(j) < i ==> exists|slot: &mut JsValue|
                    {
                        &&& *slot == old(list)@[j]
                        &&& *final(slot) == list@[j]
                        &&& #[trigger] call_ensures(*visitor, (slot,), flags[j])
                    },
            forall|j: int| i <= j < list.len() ==> list@[j] == old(list)@[j],
            modified == flags.contains(true),
        decreases list.len() - i,
    {
        let ghost before = list@;
        let m = visit_one(&mut list[i], visitor);
        proof {
            let grown = flags.push(m);
            lemma_one_more_answer(flags, m);
            assert forall|j: int| 0 <= #[trigger] child(j) < i + 1 implies exists|
                slot: &mut JsValue,
            |
                {
                    &&& *slot == old(list)@[j]
                    &&& *final(slot) == list@[j]
                    &&& #[trigger] call_ensures(*visitor, (slot,), grown[j])
                } by {
                if j < i {
                    assert(grown[j] == flags[j]);
                } else {
                    let slot = choose|slot: &mut JsValue|
                        {
                            &&& *slot == before[i as int]
                            &&& *final(slot) == list@[i as int]
                            &&& #[trigger] call_ensures(*visitor, (slot,), m)
                        };
                    assert(call_ensures(*visitor, (slot,), grown[j]));
                }
            }
            flags = grown;
        }
        if m {
            modified = true
        }
        i += 1;
    }
    modified
}

impl JsValue {
    /// Calls `visitor` on every child, in order, and says whether one of the calls
    /// answered that it modified the child. The node stays the kind of node it was; each
    /// child becomes what one call of `visitor` on it left.
    pub fn for_each_children_mut<F: FnMut(&mut JsValue) -> bool>(
        &mut self,
        visitor: &mut F,
    ) -> (r: bool)
        requires
            total(*old(visitor)),
        ensures
            *final(visitor) == *old(visitor),
            old(self).is_like(*final(self)),
            exists|flags: Seq<bool>|
                {
                    &&& flags.len() == old(self).children().len()
                    &&& r == flags.contains(true)
                    &&& forall|i: int|
                        0 <= #[trigger] child(i) < flags.len() ==> exists|slot: &mut JsValue|
                            {
                                &&& *slot == old(self).children()[i]
                                &&& *final(slot) == final(self).children()[i]
                                &&& #[trigger] call_ensures(*old(visitor), (slot,), flags[i])
                            }
                },
    {
        match self {
            JsValue::Alternatives(list) => visit_list(list, visitor),
            JsValue::Concat(list) => visit_list(list, visitor),
            JsValue::Add(list) => visit_list(list, visitor),
            JsValue::Array(list) => visit_list(list, visitor),
            JsValue::Call(callee, args) => {
                let ghost before = seq![**callee] + args@;
                let inner: &mut JsValue = callee;
                let first = visit_one(inner, visitor);
                let rest = visit_list(args, visitor);
                proof {
                    let after = seq![**callee] + args@;
                    let tail = choose|flags: Seq<bool>|
                        {
                            &&& flags.len() == before.len() - 1
                            &&& rest == flags.contains(true)
                            &&& forall|i: int|
                                0 <= #[trigger] child(i) < flags.len() ==> exists|
                                    slot: &mut JsValue,
                                |
                                    {
                                        &&& *slot == before[i + 1]
                                        &&& *final(slot) == after[i + 1]
                                        &&& #[trigger] call_ensures(
                                            *old(visitor),
                                            (slot,),
                                            flags[i],
                                        )
                                    }
                        };
                    let flags = seq![first] + tail;
                    assert(flags.contains(true) == (first || rest)) by {
                        if first {
                            assert(flags[0] == true);
                        }
                        if tail.contains(true) {
                            let k = choose|k: int| 0 <= k < tail.len() && tail[k] == true;
                            assert(flags[k + 1] == true);
                        }
                    }
                    assert forall|i: int| 0 <= #[trigger] child(i) < flags.len() implies exists|
                        slot: &mut JsValue,
                    |
                        {
                            &&& *slot == before[i]
                            &&& *final(slot) == after[i]
                            &&& #[trigger] call_ensures(*old(visitor), (slot,), flags[i])
                        } by {
                        if i > 0 {
                            assert(0 <= child(i - 1) < tail.len());
                            assert(flags[i] == tail[i - 1]);
                        } else {
                            assert(flags[0] == first);
                        }
                    }
                }
                first || rest
            },
            JsValue::Function(return_value) => {
                let ghost before = **return_value;
                let inner: &mut JsValue = return_value;
                let m = visit_one(inner, visitor);
                proof {
                    let after = **return_value;
                    let flags = seq![m];
                    assert(flags.contains(true) == m) by {
                        assert(flags[0] == m);
                    }
                    assert forall|i: int| 0 <= #[trigger] child(i) < flags.len() implies exists|
                        slot: &mut JsValue,
                    |
                        {
                            &&& *slot == before
                            &&& *final(slot) == after
                            &&& #[trigger] call_ensures(*old(visitor), (slot,), flags[i])
                        } by {
                        assert(flags[0] == m);
                    }
                }
                m
            },
            JsValue::Member(obj, prop) => {
                let inner: &mut JsValue = obj;
                let first = visit_one(inner, visitor);
                let inner: &mut JsValue = prop;
                let second = visit_one(inner, visitor);
                proof {
                    let flags = seq![first, second];
                    assert(flags.contains(true) == (first || second));
                }
                second || first
            },
            _ => {
                proof {
                    let flags = Seq::<bool>::empty();
                    assert(!flags.contains(true));
                }
                false
            },
        }
    }

    /// Calls `visitor` on every child and then on the node itself, and says whether one
    /// of the calls answered that it modified what it was given. In the statement, `mid`
    /// is the node when its children have been visited, and `flags` holds the answers:
    /// one for each child, and last the one for the node.
    pub fn visit_mut<F: FnMut(&mut JsValue) -> bool>(&mut self, visitor: &mut F) -> (r: bool)
        requires
            total(*old(visitor)),
        ensures
            *final(visitor) == *old(visitor),
            exists|mid: JsValue, flags: Seq<bool>|
                {
                    &&& #[trigger] old(self).is_like(mid)
                    &&& #[trigger] flags.len() == mid.children().len() + 1
                    &&& r == flags.contains(true)
                    &&& forall|i: int|
                        0 <= #[trigger] child(i) < flags.len() - 1 ==> exists|
                            slot: &mut JsValue,
                        |
                            {
                                &&& *slot == old(self).children()[i]
                                &&& *final(slot) == mid.children()[i]
                                &&& #[trigger] call_ensures(*old(visitor), (slot,), flags[i])
                            }
                    &&& exists|slot: &mut JsValue|
                        {
                            &&& *slot == mid
                            &&& *final(slot) == *final(self)
                            &&& #[trigger] call_ensures(
                                *old(visitor),
                                (slot,),
                                flags[flags.len() - 1],
                            )
                        }
                },
    {
        let modified = self.for_each_children_mut(visitor);
        let ghost mid = *self;
        let own = visit_one(self, visitor);
        proof {
            let first = choose|flags: Seq<bool>|
                {
                    &&& flags.len() == old(self).children().len()
                    &&& modified == flags.contains(true)
                    &&& forall|i: int|
                        0 <= #[trigger] child(i) < flags.len() ==> exists|slot: &mut JsValue|
                            {
                                &&& *slot == old(self).children()[i]
                                &&& *final(slot) == mid.children()[i]
                                &&& #[trigger] call_ensures(*old(visitor), (slot,), flags[i])
                            }
                };
            let flags = first.push(own);
            lemma_one_more_answer(first, own);
            assert(flags[flags.len() - 1] == own);
            assert forall|i: int| 0 <= #[trigger] child(i) < flags.len() - 1 implies exists|
                slot: &mut JsValue,
            |
                {
                    &&& *slot == old(self).children()[i]
                    &&& *final(slot) == mid.children()[i]
                    &&& #[trigger] call_ensures(*old(visitor), (slot,), flags[i])
                } by {
                assert(flags[i] == first[i]);
            }
        }
        if own {
            true
        } else {
            modified
        }
    }
}

/// Calls `visitor` on the children of `value` and on `value`, as [`JsValue::visit_mut`]
/// does, and then on `value` once more. In the statement, `stages` holds the node when its
/// children have been visited and when it has been visited once, and `answers` holds the
/// answers: one for each child, then the two for the node.
fn visit_twice<F: FnMut(&mut JsValue) -> bool>(value: &mut JsValue, visitor: &mut F) -> (r: bool)
    requires
        total(*old(visitor)),
    ensures
        *final(visitor) == *old(visitor),
        exists|stages: Seq<JsValue>, answers: Seq<bool>|
            {
                &&& #[trigger] stages.len() == 2
                &&& old(value).is_like(stages[0])
                &&& #[trigger] answers.len() == stages[0].children().len() + 2
                &&& r == answers.contains(true)
                &&& forall|j: int|
                    0 <= #[trigger] child(j) < answers.len() - 2 ==> exists|slot: &mut JsValue|
                        {
                            &&& *slot == old(value).children()[j]
                            &&& *final(slot) == stages[0].children()[j]
                            &&& #[trigger] call_ensures(*old(visitor), (slot,), answers[j])
                        }
                &&& exists|slot: &mut JsValue|
                    {
                        &&& *slot == stages[0]
                        &&& *final(slot) == stages[1]
                        &&& #[trigger] call_ensures(
                            *old(visitor),
                            (slot,),
                            answers[answers.len() - 2],
                        )
                    }
                &&& exists|slot: &mut JsValue|
                    {
                        &&& *slot == stages[1]
                        &&& *final(slot) == *final(value)
                        &&& #[trigger] call_ensures(
                            *old(visitor),
                            (slot,),
                            answers[answers.len() - 1],
                        )
                    }
            },
{
    let first = value.visit_mut(visitor);
    let ghost once = *value;
    let second = visit_one(value, visitor);
    proof {
        let (mid, flags) = choose|mid: JsValue, flags: Seq<bool>|
            {
                &&& #[trigger] old(value).is_like(mid)
                &&& #[trigger] flags.len() == mid.children().len() + 1
                &&& first == flags.contains(true)
                &&& forall|i: int|
                    0 <= #[trigger] child(i) < flags.len() - 1 ==> exists|slot: &mut JsValue|
                        {
                            &&& *slot == old(value).children()[i]
                            &&& *final(slot) == mid.children()[i]
                            &&& #[trigger] call_ensures(*old(visitor), (slot,), flags[i])
                        }
                &&& exists|slot: &mut JsValue|
                    {
                        &&& *slot == mid
                        &&& *final(slot) == once
                        &&& #[trigger] call_ensures(
                            *old(visitor),
                            (slot,),
                            flags[flags.len() - 1],
                        )
                    }
            };
        let stages = seq![mid, once];
        let answers = flags.push(second);
        lemma_one_more_answer(flags, second);
        assert(stages.len() == 2 && stages[0] == mid && stages[1] == once);
        assert(answers[answers.len() - 1] == second);
        assert(answers[answers.len() - 2] == flags[flags.len() - 1]);
        assert forall|j: int| 0 <= #[trigger] child(j) < answers.len() - 2 implies exists|
            slot: &mut JsValue,
        |
            {
                &&& *slot == old(value).children()[j]
                &&& *final(slot) == stages[0].children()[j]
                &&& #[trigger] call_ensures(*old(visitor), (slot,), answers[j])
            } by {
            assert(answers[j] == flags[j]);
        }
    }
    first || second
}

/// Calls `visitor` on every item of `list`, in order, as [`visit_twice`] does.
fn visit_list_twice<F: FnMut(&mut JsValue) -> bool>(
    list: &mut Vec<JsValue>,
    visitor: &mut F,
) -> (r: bool)
    requires
        total(*old(visitor)),
    ensures
        *final(visitor) == *old(visitor),
        final(list)@.len() == old(list)@.len(),
        exists|flags: Seq<bool>|
            {
                &&& flags.len() == old(list)@.len()
                &&& r == flags.contains(true)
                &&& forall|i: int|
                    0 <= #[trigger] child(i) < flags.len() ==> exists|
                        stages: Seq<JsValue>,
                        answers: Seq<bool>,
                    |
                        {
                            &&& #[trigger] stages.len() == 2
                            &&& old(list)@[i].is_like(stages[0])
                            &&& #[trigger] answers.len() == stages[0].children().len() + 2
                            &&& flags[i] == answers.contains(true)
                            &&& forall|j: int|
                                0 <= #[trigger] child(j) < answers.len() - 2 ==> exists|
                                    slot: &mut JsValue,
                                |
                                    {
                                        &&& *slot == old(list)@[i].children()[j]
                                        &&& *final(slot) == stages[0].children()[j]
                                        &&& #[trigger] call_ensures(
                                            *old(visitor),
                                            (slot,),
                                            answers[j],
                                        )
                                    }
                            &&& exists|slot: &mut JsValue|
                                {
                                    &&& *slot == stages[0]
                                    &&& *final(slot) == stages[1]
                                    &&& #[trigger] call_ensures(
                                        *old(visitor),
                                        (slot,),
                                        answers[answers.len() - 2],
                                    )
                                }
                            &&& exists|slot: &mut JsValue|
                                {
                                    &&& *slot == stages[1]
                                    &&& *final(slot) == final(list)@[i]
                                    &&& #[trigger] call_ensures(
                                        *old(visitor),
                                        (slot,),
                                        answers[answers.len() - 1],
                                    )
                                }
                        }
            },
{
    let ghost flags: Seq<bool> = Seq::empty();
    let mut modified = false;
    let mut i: usize = 0;
    while i < list.len()
        invariant
            i <= list.len(),
            list.len() == old(list).len(),
            *visitor == *old(visitor),
            total(*visitor),
            flags.len() == i,
            forall|k: int|
                0 <= #[trigger] child(k) < i ==> exists|stages: Seq<JsValue>, answers: Seq<bool>|
                    {
                        &&& #[trigger] stages.len() == 2
                        &&& old(list)@[k].is_like(stages[0])
                        &&& #[trigger] answers.len() == stages[0].children().len() + 2
                        &&& flags[k] == answers.contains(true)
                        &&& forall|j: int|
                            0 <= #[trigger] child(j) < answers.len() - 2 ==> exists|
                                slot: &mut JsValue,
                            |
                                {
                                    &&& *slot == old(list)@[k].children()[j]
                                    &&& *final(slot) == stages[0].children()[j]
                                    &&& #[trigger] call_ensures(*old(visitor), (slot,), answers[j])
                                }
                        &&& exists|slot: &mut JsValue|
                            {
                                &&& *slot == stages[0]
                                &&& *final(slot) == stages[1]
                                &&& #[trigger] call_ensures(
                                    *old(visitor),
                                    (slot,),
                                    answers[answers.len() - 2],
                                )
                            }
                        &&& exists|slot: &mut JsValue|
                            {
                                &&& *slot == stages[1]
                                &&& *final(slot) == list@[k]
                                &&& #[trigger] call_ensures(
                                    *old(visitor),
                                    (slot,),
                                    answers[answers.len() - 1],
                                )
                            }
                    },
            forall|k: int| i <= k < list.len() ==> list@[k] == old(list)@[k],
            modified == flags.contains(true),
        decreases list.len() - i,
    {
        let m = visit_twice(&mut list[i], visitor);
        proof {
            let grown = flags.push(m);
            lemma_one_more_answer(flags, m);
            flags = grown;
        }
        if m {
            modified = true
        }
        i += 1;
    }
    modified
}

impl JsValue {
    /// Visits every child as [`JsValue::visit_mut`] does and then once more, then visits
    /// the node itself, and says whether one of the calls answered that it modified what
    /// it was given. In the statement, `mid` is the node when its children have been
    /// visited, and `flags` holds, for each child, whether a call on it or below it gave
    /// that answer, and last the answer for the node. For each child, `stages` holds the
    /// child when its own children have been visited and when it has been visited once,
    /// and `answers` the answers: one for each of its children, then the two for the child.
    pub fn visit_mut_recursive<F: FnMut(&mut JsValue) -> bool>(
        &mut self,
        visitor: &mut F,
    ) -> (r: bool)
        requires
            total(*old(visitor)),
        ensures
            *final(visitor) == *old(visitor),
            exists|mid: JsValue, flags: Seq<bool>|
                {
                    &&& #[trigger] old(self).is_like(mid)
                    &&& #[trigger] flags.len() == mid.children().len() + 1
                    &&& r == flags.contains(true)
                    &&& forall|i: int|
                        0 <= #[trigger] child(i) < flags.len() - 1 ==> exists|
                            stages: Seq<JsValue>,
                            answers: Seq<bool>,
                        |
                            {
                                &&& #[trigger] stages.len() == 2
                                &&& old(self).children()[i].is_like(stages[0])
                                &&& #[trigger] answers.len() == stages[0].children().len() + 2
                                &&& flags[i] == answers.contains(true)
                                &&& forall|j: int|
                                    0 <= #[trigger] child(j) < answers.len() - 2 ==> exists|
                                        slot: &mut JsValue,
                                    |
                                        {
                                            &&& *slot == old(self).children()[i].children()[j]
                                            &&& *final(slot) == stages[0].children()[j]
                                            &&& #[trigger] call_ensures(
                                                *old(visitor),
                                                (slot,),
                                                answers[j],
                                            )
                                        }
                                &&& exists|slot: &mut JsValue|
                                    {
                                        &&& *slot == stages[0]
                                        &&& *final(slot) == stages[1]
                                        &&& #[trigger] call_ensures(
                                            *old(visitor),
                                            (slot,),
                                            answers[answers.len() - 2],
                                        )
                                    }
                                &&& exists|slot: &mut JsValue|
                                    {
                                        &&& *slot == stages[1]
                                        &&& *final(slot) == mid.children()[i]
                                        &&& #[trigger] call_ensures(
                                            *old(visitor),
                                            (slot,),
                                            answers[answers.len() - 1],
                                        )
                                    }
                            }
                    &&& exists|slot: &mut JsValue|
                        {
                            &&& *slot == mid
                            &&& *final(slot) == *final(self)
                            &&& #[trigger] call_ensures(
                                *old(visitor),
                                (slot,),
                                flags[flags.len() - 1],
                            )
                        }
                },
    {
        let mut children = self.take_children();
        let ghost before = children@;
        let modified = visit_list_twice(&mut children, visitor);
        let ghost after = children@;
        self.put_children(children);
        let ghost mid = *self;
        let own = visit_one(self, visitor);
        proof {
            let first = choose|flags: Seq<bool>|
                {
                    &&& flags.len() == before.len()
                    &&& modified == flags.contains(true)
                    &&& forall|i: int|
                        0 <= #[trigger] child(i) < flags.len() ==> exists|
                            stages: Seq<JsValue>,
                            answers: Seq<bool>,
                        |
                            {
                                &&& #[trigger] stages.len() == 2
                                &&& before[i].is_like(stages[0])
                                &&& #[trigger] answers.len() == stages[0].children().len() + 2
                                &&& flags[i] == answers.contains(true)
                                &&& forall|j: int|
                                    0 <= #[trigger] child(j) < answers.len() - 2 ==> exists|
                                        slot: &mut JsValue,
                                    |
                                        {
                                            &&& *slot == before[i].children()[j]
                                            &&& *final(slot) == stages[0].children()[j]
                                            &&& #[trigger] call_ensures(
                                                *old(visitor),
                                                (slot,),
                                                answers[j],
                                            )
                                        }
                                &&& exists|slot: &mut JsValue|
                                    {
                                        &&& *slot == stages[0]
                                        &&& *final(slot) == stages[1]
                                        &&& #[trigger] call_ensures(
                                            *old(visitor),
                                            (slot,),
                                            answers[answers.len() - 2],
                                        )
                                    }
                                &&& exists|slot: &mut JsValue|
                                    {
                                        &&& *slot == stages[1]
                                        &&& *final(slot) == after[i]
                                        &&& #[trigger] call_ensures(
                                            *old(visitor),
                                            (slot,),
                                            answers[answers.len() - 1],
                                        )
                                    }
                            }
                };
            let flags = first.push(own);
            lemma_one_more_answer(first, own);
            assert(flags[flags.len() - 1] == own);
            assert(old(self).is_like(mid));
        }
        if own {
            true
        } else {
            modified
        }
    }

    /// Calls `visitor` on every child, in order. Nothing changes.
    pub fn for_each_children<F: FnMut(&JsValue)>(&self, visitor: &mut F)
        requires
            forall|value: &JsValue| #[trigger] call_requires(*old(visitor), (value,)),
        ensures
            *final(visitor) == *old(visitor),
            forall|i: int|
                0 <= i < self.children().len() ==> call_ensures(
                    *old(visitor),
                    (&#[trigger] self.children()[i],),
                    (),
                ),
    {
        match self {
            JsValue::Alternatives(list) => show_list(list, visitor),
            JsValue::Concat(list) => show_list(list, visitor),
            JsValue::Add(list) => show_list(list, visitor),
            JsValue::Array(list) => show_list(list, visitor),
            JsValue::Call(callee, args) => {
                let inner: &JsValue = callee;
                visitor(inner);
                show_list(args, visitor);
            },
            JsValue::Function(return_value) => {
                let inner: &JsValue = return_value;
                visitor(inner);
            },
            JsValue::Member(obj, prop) => {
                let inner: &JsValue = obj;
                visitor(inner);
                let inner: &JsValue = prop;
                visitor(inner);
            },
            _ => {},
        }
    }

    /// Calls `visitor` on every child and then on the node itself. Nothing changes.
    pub fn visit<F: FnMut(&JsValue)>(&mut self, visitor: &mut F)
        requires
            forall|value: &JsValue| #[trigger] call_requires(*old(visitor), (value,)),
        ensures
            *final(self) == *old(self),
            *final(visitor) == *old(visitor),
            forall|i: int|
                0 <= i < old(self).children().len() ==> call_ensures(
                    *old(visitor),
                    (&#[trigger] old(self).children()[i],),
                    (),
                ),
            call_ensures(*old(visitor), (&*old(self),), ()),
    {
        self.for_each_children(visitor);
        let this: &JsValue = self;
        visitor(this);
    }
}

/// Calls `visitor` on every item of `list`, in order.
fn show_list<F: FnMut(&JsValue)>(list: &Vec<JsValue>, visitor: &mut F)
    requires
        forall|value: &JsValue| #[trigger] call_requires(*old(visitor), (value,)),
    ensures
        *final(visitor) == *old(visitor),
        forall|i: int|
            0 <= i < list@.len() ==> call_ensures(*old(visitor), (&#[trigger] list@[i],), ()),
{
    let mut i: usize = 0;
    while i < list.len()
        invariant
            i <= list.len(),
            *visitor == *old(visitor),
            forall|value: &JsValue| #[trigger] call_requires(*visitor, (value,)),
            forall|j: int| 0 <= j < i ==> call_ensures(*visitor, (&#[trigger] list@[j],), ()),
        decreases list.len() - i,
    {
        visitor(&list[i]);
        i += 1;
    }
}

} // verus!
