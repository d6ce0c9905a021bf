use crate::analyzer::normalize::{
    as_one_operand, flattened, fused, leading_non_strings, lemma_normalized_all,
    normalized_all, settled_add, settled_concat, spliced, without_empty_strings,
};
use crate::analyzer::JsValueView;
use vstd::prelude::*;

verus! {

broadcast use lemma_normalized_all;

/// Whether every item of `list` is in normal form.
pub open spec fn all_normal(list: Seq<JsValueView>) -> bool {
    forall|i: int| 0 <= i < list.len() ==> (#[trigger] list[i]).is_normal()
}

impl JsValueView {
    /// Whether the value is in normal form: all its children are, and
    /// - among alternatives there is no list of alternatives;
    /// - a concatenation has no empty string and no concatenation among its parts, no
    ///   string next to a string, and not just one part;
    /// - a sum has no operand that is a string.
    pub open spec fn is_normal(self) -> bool
        decreases self,
    {
        match self {
            JsValueView::Array(list) => {
                forall|i: int| 0 <= i < list.len() ==> (#[trigger] list[i]).is_normal()
            },
            JsValueView::Alternatives(list) => {
                &&& forall|i: int| 0 <= i < list.len() ==> (#[trigger] list[i]).is_normal()
                &&& forall|i: int| 0 <= i < list.len() ==> !((#[trigger] list[i]) is Alternatives)
            },
            JsValueView::Concat(list) => {
                &&& forall|i: int| 0 <= i < list.len() ==> (#[trigger] list[i]).is_normal()
                &&& list.len() != 1
                &&& forall|i: int|
                    0 <= i < list.len() ==> !((#[trigger] list[i]) is Concat)
                        && !list[i].is_empty_string()
                &&& forall|i: int|
                    0 < i < list.len() ==> !((#[trigger] list[i]).as_str() is Some && list[i
                        - 1].as_str() is Some)
            },
            JsValueView::Add(list) => {
                &&& forall|i: int| 0 <= i < list.len() ==> (#[trigger] list[i]).is_normal()
                &&& forall|i: int| 0 <= i < list.len() ==> !(#[trigger] list[i]).is_string()
            },
            JsValueView::Call(callee, args) => {
                &&& callee.is_normal()
                &&& forall|i: int| 0 <= i < args.len() ==> (#[trigger] args[i]).is_normal()
            },
            JsValueView::Member(obj, prop) => obj.is_normal() && prop.is_normal(),
            JsValueView::Function(return_value) => return_value.is_normal(),
            _ => true,
        }
    }
}

/// A list without a list of alternatives in it is flat already.
proof fn lemma_flat(list: Seq<JsValueView>)
    requires
        forall|i: int| 0 <= i < list.len() ==> !((#[trigger] list[i]) is Alternatives),
    ensures
        flattened(list) == list,
    decreases list.len(),
{
    if list.len() > 0 {
        lemma_flat(list.drop_last());
    }
}

/// A list without an empty string in it loses nothing.
proof fn lemma_no_empty_strings(list: Seq<JsValueView>)
    requires
        forall|i: int| 0 <= i < list.len() ==> !(#[trigger] list[i]).is_empty_string(),
    ensures
        without_empty_strings(list) == list,
    decreases list.len(),
{
    if list.len() > 0 {
        lemma_no_empty_strings(list.drop_last());
    }
}

/// A list without a concatenation in it has nothing to splice in.
proof fn lemma_unspliced(list: Seq<JsValueView>)
    requires
        forall|i: int| 0 <= i < list.len() ==> !((#[trigger] list[i]) is Concat),
    ensures
        spliced(list) == list,
    decreases list.len(),
{
    if list.len() > 0 {
        lemma_unspliced(list.drop_last());
    }
}

/// A list without a string next to a string has no strings to make one.
proof fn lemma_unfused(list: Seq<JsValueView>)
    requires
        forall|i: int|
            0 < i < list.len() ==> !((#[trigger] list[i]).as_str() is Some && list[i
                - 1].as_str() is Some),
    ensures
        fused(list) == list,
    decreases list.len(),
{
    if list.len() > 0 {
        let front = list.drop_last();
        lemma_unfused(front);
    }
}

/// In a list without a string in it, no operand comes after the leading ones.
proof fn lemma_all_leading(list: Seq<JsValueView>)
    requires
        forall|i: int| 0 <= i < list.len() ==> !(#[trigger] list[i]).is_string(),
    ensures
        leading_non_strings(list) == list.len(),
    decreases list.len(),
{
    if list.len() > 0 {
        let rest = list.drop_first();
        lemma_all_leading(rest);
    }
}

/// A list of values in normal form is left as it is.
pub proof fn lemma_normal_forms_are_fixed(list: Seq<JsValueView>)
    requires
        all_normal(list),
    ensures
        normalized_all(list) == list,
    decreases list, 1int,
{
    assert forall|i: int| 0 <= i < list.len() implies #[trigger] normalized_all(list)[i]
        == list[i] by {
        lemma_normal_form_is_fixed(list[i]);
    }
}

/// A value in normal form is left as it is.
pub proof fn lemma_normal_form_is_fixed(value: JsValueView)
    requires
        value.is_normal(),
    ensures
        value.normalized() == value,
    decreases value, 0int,
{
    match value {
        JsValueView::Array(list) => {
            lemma_normal_forms_are_fixed(list);
        },
        JsValueView::Alternatives(list) => {
            lemma_normal_forms_are_fixed(list);
            lemma_flat(list);
        },
        JsValueView::Concat(list) => {
            lemma_normal_forms_are_fixed(list);
            lemma_no_empty_strings(list);
            lemma_unspliced(list);
            lemma_unfused(list);
        },
        JsValueView::Add(list) => {
            lemma_normal_forms_are_fixed(list);
            lemma_all_leading(list);
        },
        JsValueView::Call(callee, args) => {
            lemma_normal_form_is_fixed(*callee);
            lemma_normal_forms_are_fixed(args);
        },
        JsValueView::Member(obj, prop) => {
            lemma_normal_form_is_fixed(*obj);
            lemma_normal_form_is_fixed(*prop);
        },
        JsValueView::Function(return_value) => {
            lemma_normal_form_is_fixed(*return_value);
        },
        _ => {},
    }
}

/// Splicing the alternatives of a list of normal forms leaves normal forms, none of
/// them a list of alternatives.
proof fn lemma_flattened_is_normal(list: Seq<JsValueView>)
    requires
        all_normal(list),
    ensures
        all_normal(flattened(list)),
        forall|i: int|
            0 <= i < flattened(list).len() ==> !((#[trigger] flattened(list)[i]) is Alternatives),
    decreases list.len(),
{
    if list.len() > 0 {
        let front = list.drop_last();
        lemma_flattened_is_normal(front);
    }
}

/// Whether `list` holds normal forms, none of them a concatenation or an empty string.
spec fn plain_parts(list: Seq<JsValueView>) -> bool {
    &&& all_normal(list)
    &&& forall|i: int|
        0 <= i < list.len() ==> !((#[trigger] list[i]) is Concat) && !list[i].is_empty_string()
}

/// Dropping the empty strings from normal forms leaves normal forms, none of them an
/// empty string.
proof fn lemma_without_empty_strings(list: Seq<JsValueView>)
    requires
        all_normal(list),
    ensures
        all_normal(without_empty_strings(list)),
        forall|i: int|
            0 <= i < without_empty_strings(list).len() ==> !(#[trigger] without_empty_strings(
                list,
            )[i]).is_empty_string(),
    decreases list.len(),
{
    if list.len() > 0 {
        lemma_without_empty_strings(list.drop_last());
    }
}

/// Splicing the concatenations of a list of normal forms without an empty string leaves
/// normal forms, none of them a concatenation or an empty string.
proof fn lemma_spliced_is_plain(list: Seq<JsValueView>)
    requires
        all_normal(list),
        forall|i: int| 0 <= i < list.len() ==> !(#[trigger] list[i]).is_empty_string(),
    ensures
        plain_parts(spliced(list)),
    decreases list.len(),
{
    if list.len() > 0 {
        let front = list.drop_last();
        lemma_spliced_is_plain(front);
    }
}

/// Making one of the strings side by side in a list of such parts leaves such parts, and
/// no string next to a string.
proof fn lemma_fused_is_plain(list: Seq<JsValueView>)
    requires
        plain_parts(list),
    ensures
        plain_parts(fused(list)),
        forall|i: int|
            0 < i < fused(list).len() ==> !((#[trigger] fused(list)[i]).as_str() is Some && fused(
                list,
            )[i - 1].as_str() is Some),
    decreases list.len(),
{
    if list.len() > 0 {
        let front = list.drop_last();
        lemma_fused_is_plain(front);
        let acc = fused(front);
        let last = list.last();
        if acc.len() > 0 && acc.last().as_str() is Some && last.as_str() is Some {
            let text = last.as_str()->0;
            let grown = JsValueView::string(acc.last().as_str()->0 + text);
            assert(text.len() > 0) by {
                if text.len() == 0 {
                    assert(text =~= Seq::<char>::empty());
                }
            }
            assert(!grown.is_empty_string()) by {
                assert((acc.last().as_str()->0 + text).len() > 0);
            }
        }
    }
}

/// A concatenation of normal forms settles to a normal form.
pub proof fn lemma_settled_concat_is_normal(list: Seq<JsValueView>)
    requires
        all_normal(list),
    ensures
        settled_concat(list).is_normal(),
{
    lemma_without_empty_strings(list);
    lemma_spliced_is_plain(without_empty_strings(list));
    lemma_fused_is_plain(spliced(without_empty_strings(list)));
}

/// A sum of normal forms settles to a normal form.
pub proof fn lemma_settled_add_is_normal(list: Seq<JsValueView>)
    requires
        all_normal(list),
    ensures
        settled_add(list).is_normal(),
{
    let k = leading_non_strings(list) as int;
    lemma_leading_are_no_strings(list);
    if k < list.len() {
        let head = list.take(k);
        let parts = as_one_operand(head) + list.skip(k);
        lemma_settled_concat_is_normal(parts);
    }
}

/// The operands before the first string are no strings, and no more than there are
/// operands.
proof fn lemma_leading_are_no_strings(list: Seq<JsValueView>)
    ensures
        leading_non_strings(list) <= list.len(),
        forall|i: int| 0 <= i < leading_non_strings(list) ==> !(#[trigger] list[i]).is_string(),
    decreases list.len(),
{
    if list.len() > 0 && !list[0].is_string() {
        let rest = list.drop_first();
        lemma_leading_are_no_strings(rest);
        assert forall|i: int| 0 <= i < leading_non_strings(list) implies !(
        #[trigger] list[i]).is_string() by {
            if i > 0 {
                assert(list[i] == rest[i - 1]);
            }
        }
    }
}

/// Every item of a list is brought into normal form.
pub proof fn lemma_normalized_all_are_normal(list: Seq<JsValueView>)
    ensures
        all_normal(normalized_all(list)),
    decreases list, 1int,
{
    assert forall|i: int| 0 <= i < list.len() implies (#[trigger] normalized_all(
        list,
    )[i]).is_normal() by {
        lemma_normalized_is_normal(list[i]);
    }
}

/// What `normalized` gives is in normal form, whatever the value.
pub proof fn lemma_normalized_is_normal(value: JsValueView)
    ensures
        value.normalized().is_normal(),
    decreases value, 0int,
{
    match value {
        JsValueView::Array(list) => {
            lemma_normalized_all_are_normal(list);
        },
        JsValueView::Alternatives(list) => {
            lemma_normalized_all_are_normal(list);
            lemma_flattened_is_normal(normalized_all(list));
        },
        JsValueView::Concat(list) => {
            lemma_normalized_all_are_normal(list);
            lemma_settled_concat_is_normal(normalized_all(list));
        },
        JsValueView::Add(list) => {
            lemma_normalized_all_are_normal(list);
            lemma_settled_add_is_normal(normalized_all(list));
        },
        JsValueView::Call(callee, args) => {
            lemma_normalized_is_normal(*callee);
            lemma_normalized_all_are_normal(args);
        },
        JsValueView::Member(obj, prop) => {
            lemma_normalized_is_normal(*obj);
            lemma_normalized_is_normal(*prop);
        },
        JsValueView::Function(return_value) => {
            lemma_normalized_is_normal(*return_value);
        },
        _ => {},
    }
}

/// A second pass changes nothing: the normal form of a normal form is that normal form.
pub proof fn lemma_normalize_is_idempotent(value: JsValueView)
    ensures
        value.normalized().normalized() == value.normalized(),
{
    lemma_normalized_is_normal(value);
    lemma_normal_form_is_fixed(value.normalized());
}

} // verus!
