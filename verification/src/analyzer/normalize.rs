use crate::analyzer::normal_form::lemma_normalized_is_normal;
use crate::analyzer::{lemma_views, views, JsValue, JsValueView, Literal};
use vstd::prelude::*;

verus! {

broadcast use lemma_views;

/// The list with the items of every nested `Alternatives` in the place of that item.
pub open spec fn flattened(list: Seq<JsValueView>) -> Seq<JsValueView>
    decreases list.len(),
{
    if list.len() == 0 {
        Seq::empty()
    } else {
        let front = flattened(list.drop_last());
        match list.last() {
            JsValueView::Alternatives(inner) => front + inner,
            item => front.push(item),
        }
    }
}

/// The list with the parts of every nested `Concat` in the place of that item.
pub open spec fn spliced(list: Seq<JsValueView>) -> Seq<JsValueView>
    decreases list.len(),
{
    if list.len() == 0 {
        Seq::empty()
    } else {
        let front = spliced(list.drop_last());
        match list.last() {
            JsValueView::Concat(inner) => front + inner,
            item => front.push(item),
        }
    }
}

/// `front` with one more part behind it: a string that follows a string makes one string
/// with it, anything else is appended.
pub open spec fn fused_with(front: Seq<JsValueView>, item: JsValueView) -> Seq<JsValueView> {
    if front.len() > 0 && front.last().as_str() is Some && item.as_str() is Some {
        front.drop_last().push(JsValueView::string(front.last().as_str()->0 + item.as_str()->0))
    } else {
        front.push(item)
    }
}

/// The list with every run of strings side by side made into one string.
pub open spec fn fused(list: Seq<JsValueView>) -> Seq<JsValueView>
    decreases list.len(),
{
    if list.len() == 0 {
        Seq::empty()
    } else {
        fused_with(fused(list.drop_last()), list.last())
    }
}

/// The list without the literals of the empty string.
pub open spec fn without_empty_strings(list: Seq<JsValueView>) -> Seq<JsValueView>
    decreases list.len(),
{
    if list.len() == 0 {
        Seq::empty()
    } else if list.last().is_empty_string() {
        without_empty_strings(list.drop_last())
    } else {
        without_empty_strings(list.drop_last()).push(list.last())
    }
}

/// What a concatenation of `list` settles to: empty strings are dropped, nested
/// concatenations are spliced in, strings side by side are made one, and a single part
/// that is left stands for the whole.
pub open spec fn settled_concat(list: Seq<JsValueView>) -> JsValueView {
    let parts = fused(spliced(without_empty_strings(list)));
    if parts.len() == 1 {
        parts[0]
    } else {
        JsValueView::Concat(parts)
    }
}

/// The number of operands before the first one that is a string.
pub open spec fn leading_non_strings(list: Seq<JsValueView>) -> nat
    decreases list.len(),
{
    if list.len() == 0 || list[0].is_string() {
        0
    } else {
        1 + leading_non_strings(list.drop_first())
    }
}

/// The operands of a sum as the head of a concatenation: nothing for none, the operand
/// itself for one, and one sum of them for more.
pub open spec fn as_one_operand(list: Seq<JsValueView>) -> Seq<JsValueView> {
    if list.len() == 0 {
        Seq::empty()
    } else if list.len() == 1 {
        seq![list[0]]
    } else {
        seq![JsValueView::Add(list)]
    }
}

/// What a sum of `list` settles to. With a string among the operands it is what the
/// concatenation of these settles to: the operands before the first string as one
/// operand, then that string and all that follow. Without one it stays a sum.
pub open spec fn settled_add(list: Seq<JsValueView>) -> JsValueView {
    let k = leading_non_strings(list) as int;
    if k == list.len() {
        JsValueView::Add(list)
    } else {
        settled_concat(as_one_operand(list.take(k)) + list.skip(k))
    }
}

/// Each item of `list` in normal form.
pub open spec fn normalized_all(list: Seq<JsValueView>) -> Seq<JsValueView>
    decreases list, 1int,
{
    Seq::new(
        list.len(),
        |i: int|
            if 0 <= i < list.len() {
                list[i].normalized()
            } else {
                arbitrary()
            },
    )
}

impl JsValueView {
    /// The normal form: every child in normal form, and then nested alternatives spliced
    /// in, a concatenation settled, and a sum with a string operand settled as a
    /// concatenation.
    pub open spec fn normalized(self) -> JsValueView
        decreases self, 0int,
    {
        match self {
            JsValueView::Array(list) => JsValueView::Array(normalized_all(list)),
            JsValueView::Alternatives(list) => JsValueView::Alternatives(
                flattened(normalized_all(list)),
            ),
            JsValueView::Concat(list) => settled_concat(normalized_all(list)),
            JsValueView::Add(list) => settled_add(normalized_all(list)),
            JsValueView::Call(callee, args) => JsValueView::Call(
                Box::new(callee.normalized()),
                normalized_all(args),
            ),
            JsValueView::Member(obj, prop) => JsValueView::Member(
                Box::new(obj.normalized()),
                Box::new(prop.normalized()),
            ),
            JsValueView::Function(return_value) => JsValueView::Function(
                Box::new(return_value.normalized()),
            ),
            _ => self,
        }
    }
}

/// The normal form of a list has the normal form of each item at the item's place.
pub broadcast proof fn lemma_normalized_all(list: Seq<JsValueView>)
    ensures
        #![trigger normalized_all(list)]
        normalized_all(list).len() == list.len(),
        forall|i: int|
            0 <= i < list.len() ==> (#[trigger] normalized_all(list)[i]) == list[i].normalized(),
{
}

/// Brings every item of `list` into normal form.
fn normalize_all(list: &mut Vec<JsValue>)
    ensures
        views(final(list)@) == normalized_all(views(old(list)@)),
    decreases *old(list),
{
    broadcast use lemma_normalized_all;

    let mut i: usize = 0;
    while i < list.len()
        invariant
            i <= list.len(),
            list.len() == old(list).len(),
            forall|j: int| 0 <= j < i ==> (#[trigger] list@[j])@ == old(list)@[j]@.normalized(),
            forall|j: int| i <= j < list.len() ==> (#[trigger] list@[j]) == old(list)@[j],
        decreases list.len() - i,
    {
        list[i].normalize();
        i += 1;
    }
}

/// Moves the items out of `list`, which is left empty.
fn take_items(list: &mut Vec<JsValue>) -> (r: Vec<JsValue>)
    ensures
        r == *old(list),
        final(list)@.len() == 0,
{
    let mut items: Vec<JsValue> = Vec::new();
    core::mem::swap(list, &mut items);
    items
}

/// Splices the items of every nested `Alternatives` into the list.
fn flatten_alternatives(list: Vec<JsValue>) -> (r: Vec<JsValue>)
    ensures
        views(r@) == flattened(views(list@)),
{
    let ghost all = views(list@);
    let mut out: Vec<JsValue> = Vec::new();
    for item in it: list
        invariant
            it.seq() == list@,
            all == views(list@),
            views(out@) == flattened(all.take(it.index() as int)),
    {
        let ghost i = it.index() as int;
        proof {
            assert(all.take(i + 1).drop_last() =~= all.take(i));
        }
        match item {
            JsValue::Alternatives(mut inner) => {
                proof {
                    assert(views(out@ + inner@) =~= views(out@) + views(inner@));
                }
                out.append(&mut inner);
            },
            item => {
                out.push(item);
            },
        }
    }
    proof {
        assert(all.take(all.len() as int) =~= all);
    }
    out
}

/// Drops the literals of the empty string.
fn drop_empty_strings(list: Vec<JsValue>) -> (r: Vec<JsValue>)
    ensures
        views(r@) == without_empty_strings(views(list@)),
{
    let ghost all = views(list@);
    let mut out: Vec<JsValue> = Vec::new();
    for item in it: list
        invariant
            it.seq() == list@,
            all == views(list@),
            views(out@) == without_empty_strings(all.take(it.index() as int)),
    {
        let ghost i = it.index() as int;
        proof {
            assert(all.take(i + 1).drop_last() =~= all.take(i));
        }
        let empty = match &item {
            JsValue::Constant(Literal::Str(text)) => text.as_str().is_empty(),
            _ => false,
        };
        assert(empty == item@.is_empty_string()) by {
            if item@.as_str() is Some {
                let text = item@.as_str()->0;
                assert(text.len() == 0 <==> text =~= Seq::<char>::empty());
            }
        }
        if !empty {
            out.push(item);
        }
    }
    proof {
        assert(all.take(all.len() as int) =~= all);
    }
    out
}

/// Splices the parts of every nested `Concat` into the list.
fn splice_concats(list: Vec<JsValue>) -> (r: Vec<JsValue>)
    ensures
        views(r@) == spliced(views(list@)),
{
    let ghost all = views(list@);
    let mut out: Vec<JsValue> = Vec::new();
    for item in it: list
        invariant
            it.seq() == list@,
            all == views(list@),
            views(out@) == spliced(all.take(it.index() as int)),
    {
        let ghost i = it.index() as int;
        proof {
            assert(all.take(i + 1).drop_last() =~= all.take(i));
        }
        match item {
            JsValue::Concat(mut inner) => {
                proof {
                    assert(views(out@ + inner@) =~= views(out@) + views(inner@));
                }
                out.append(&mut inner);
            },
            item => {
                out.push(item);
            },
        }
    }
    proof {
        assert(all.take(all.len() as int) =~= all);
    }
    out
}

/// Makes every run of strings side by side into one string.
fn fuse_strings(list: Vec<JsValue>) -> (r: Vec<JsValue>)
    ensures
        views(r@) == fused(views(list@)),
{
    let ghost all = views(list@);
    let mut out: Vec<JsValue> = Vec::new();
    for item in it: list
        invariant
            it.seq() == list@,
            all == views(list@),
            views(out@) == fused(all.take(it.index() as int)),
    {
        let ghost i = it.index() as int;
        proof {
            assert(all.take(i + 1).drop_last() =~= all.take(i));
        }
        match item {
            JsValue::Constant(Literal::Str(text)) => {
                match out.pop() {
                    Some(JsValue::Constant(Literal::Str(last))) => {
                        let grown = JsValue::Constant(Literal::Str(last.concat(text.as_str())));
                        out.push(grown);
                    },
                    Some(other) => {
                        let item = JsValue::Constant(Literal::Str(text));
                        out.push(other);
                        out.push(item);
                    },
                    None => {
                        let item = JsValue::Constant(Literal::Str(text));
                        out.push(item);
                    },
                }
            },
            item => {
                out.push(item);
            },
        }
    }
    proof {
        assert(all.take(all.len() as int) =~= all);
    }
    out
}

/// Settles a concatenation of `list`.
fn settle_concat(list: Vec<JsValue>) -> (r: JsValue)
    ensures
        r@ == settled_concat(views(list@)),
{
    let mut parts = fuse_strings(splice_concats(drop_empty_strings(list)));
    if parts.len() == 1 {
        match parts.pop() {
            Some(only) => only,
            None => JsValue::Concat(parts),
        }
    } else {
        JsValue::Concat(parts)
    }
}

/// The operands before the first string are `k` in number.
proof fn lemma_leading_non_strings(list: Seq<JsValueView>, k: int)
    requires
        0 <= k <= list.len(),
        forall|j: int| 0 <= j < k ==> !(#[trigger] list[j]).is_string(),
        k < list.len() ==> list[k].is_string(),
    ensures
        leading_non_strings(list) == k,
    decreases list.len(),
{
    if k > 0 {
        let rest = list.drop_first();
        lemma_leading_non_strings(rest, k - 1);
    }
}

/// Settles a sum of `list`.
fn settle_add(list: Vec<JsValue>) -> (r: JsValue)
    ensures
        r@ == settled_add(views(list@)),
{
    let ghost all = views(list@);
    let mut added: Vec<JsValue> = Vec::new();
    let mut concat: Vec<JsValue> = Vec::new();
    let mut found = false;
    let ghost k: int = 0;
    for item in it: list
        invariant
            it.seq() == list@,
            all == views(list@),
            !found ==> views(added@) == all.take(it.index() as int),
            !found ==> forall|j: int| 0 <= j < it.index() ==> !(#[trigger] all[j]).is_string(),
            found ==> 0 <= k < it.index() && all[k].is_string(),
            found ==> forall|j: int| 0 <= j < k ==> !(#[trigger] all[j]).is_string(),
            found ==> views(concat@) == as_one_operand(all.take(k)) + all.subrange(
                k,
                it.index() as int,
            ),
    {
        let ghost i = it.index() as int;
        if found {
            proof {
                assert(views(concat@.push(item)) =~= views(concat@).push(item@));
            }
            concat.push(item);
        } else if item.is_string() {
            proof {
                k = i;
            }
            let n = added.len();
            let mut head: Vec<JsValue> = Vec::new();
            if n == 1 {
                core::mem::swap(&mut added, &mut head);
            } else if n > 1 {
                let mut prefix: Vec<JsValue> = Vec::new();
                core::mem::swap(&mut added, &mut prefix);
                let sum = JsValue::Add(prefix);
                head.push(sum);
            }
            head.push(item);
            concat = head;
            found = true;
        } else {
            added.push(item);
        }
    }
    proof {
        assert(all.take(all.len() as int) =~= all);
        if found {
            lemma_leading_non_strings(all, k);
        } else {
            lemma_leading_non_strings(all, all.len() as int);
        }
    }
    if found {
        settle_concat(concat)
    } else {
        JsValue::Add(added)
    }
}

impl JsValue {
    /// Brings the value into normal form, as [`JsValue::normalize`] does.
    pub fn normalize_shallow(&mut self)
        ensures
            final(self)@ == old(self)@.normalized(),
            final(self)@.is_normal(),
    {
        self.normalize();
    }

    /// Brings the value into normal form, children first: nested alternatives are
    /// spliced in; a concatenation loses its empty strings, takes in the parts of nested
    /// concatenations, has strings side by side made one, and is its only part where one
    /// is left; a sum with a string operand becomes such a concatenation.
    pub fn normalize(&mut self)
        ensures
            final(self)@ == old(self)@.normalized(),
            final(self)@.is_normal(),
        decreases *old(self),
    {
        proof {
            lemma_normalized_is_normal(old(self)@);
        }
        match self {
            JsValue::Array(list) => {
                normalize_all(list);
            },
            JsValue::Alternatives(list) => {
                normalize_all(list);
                let items = take_items(list);
                *list = flatten_alternatives(items);
            },
            JsValue::Concat(list) => {
                normalize_all(list);
                let items = take_items(list);
                *self = settle_concat(items);
            },
            JsValue::Add(list) => {
                normalize_all(list);
                let items = take_items(list);
                *self = settle_add(items);
            },
            JsValue::Call(callee, args) => {
                callee.normalize();
                normalize_all(args);
            },
            JsValue::Member(obj, prop) => {
                obj.normalize();
                prop.normalize();
            },
            JsValue::Function(return_value) => {
                return_value.normalize();
            },
            _ => {},
        }
    }
}

} // verus!
