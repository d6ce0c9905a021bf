use crate::analyzer::{lemma_views, views, JsValue, JsValueView};
use vstd::prelude::*;

verus! {

broadcast use lemma_views;

impl JsValueView {
    /// The value that may also be `other`: the value itself where it is `other` or
    /// already offers it, its alternatives and `other` where it is a list of
    /// alternatives, else the two as alternatives.
    pub open spec fn with_alt(self, other: JsValueView) -> JsValueView {
        if self == other {
            self
        } else {
            match self {
                JsValueView::Alternatives(list) => if list.contains(other) {
                    self
                } else {
                    JsValueView::Alternatives(list.push(other))
                },
                _ => JsValueView::Alternatives(seq![self, other]),
            }
        }
    }

    /// Whether no value occurs twice among the alternatives, if the value is a list of
    /// alternatives.
    pub open spec fn offers_each_once(self) -> bool {
        self matches JsValueView::Alternatives(list) ==> list.no_duplicates()
    }
}

/// Whether `value` is among `list`.
fn contains(list: &Vec<JsValue>, value: &JsValue) -> (r: bool)
    ensures
        r == views(list@).contains(value@),
{
    let mut i: usize = 0;
    while i < list.len()
        invariant
            i <= list.len(),
            forall|j: int| 0 <= j < i ==> (#[trigger] views(list@)[j]) != value@,
        decreases list.len() - i,
    {
        if list[i] == *value {
            assert(views(list@)[i as int] == value@);
            return true;
        }
        i += 1;
    }
    false
}

impl JsValue {
    /// Merges `v` into the value: afterwards the value may also be `v`. A list of
    /// alternatives in which no value occurred twice stays one.
    pub fn add_alt(&mut self, v: JsValue)
        ensures
            final(self)@ == old(self)@.with_alt(v@),
            old(self)@.offers_each_once() ==> final(self)@.offers_each_once(),
    {
        if *self == v {
            return ;
        }
        if let JsValue::Alternatives(list) = self {
            if !contains(list, &v) {
                proof {
                    assert(views(list@.push(v)) =~= views(list@).push(v@));
                }
                list.push(v);
            }
        } else {
            let mut this = JsValue::default();
            core::mem::swap(self, &mut this);
            let mut both: Vec<JsValue> = Vec::new();
            both.push(this);
            both.push(v);
            proof {
                assert(views(both@) =~= seq![this@, v@]);
            }
            *self = JsValue::Alternatives(both);
        }
    }
}

} // verus!
