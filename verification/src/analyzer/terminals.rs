use crate::analyzer::normalize::{
    as_one_operand, flattened, fused, leading_non_strings, lemma_normalized_all,
    normalized_all, settled_add, settled_concat, spliced, without_empty_strings,
};
use crate::analyzer::{JsValueView, LiteralView};
use vstd::prelude::*;

verus! {

broadcast use lemma_normalized_all;

/// What a value ends in, read from left to right: a character of a string literal, or a
/// value without children that is no string literal.
pub ghost enum Terminal {
    Char(char),
    Leaf(JsValueView),
}

/// The characters of `text` as terminals.
pub open spec fn characters(text: Seq<char>) -> Seq<Terminal> {
    Seq::new(text.len(), |i: int| character(text[i]))
}

/// The character `c` as a terminal.
pub open spec fn character(c: char) -> Terminal {
    Terminal::Char(c)
}

/// The terminals of the items of `list`, in order.
pub open spec fn terminals_of_all(list: Seq<JsValueView>) -> Seq<Terminal>
    decreases list, 1int,
{
    if list.len() == 0 {
        Seq::empty()
    } else {
        terminals_of_all(list.drop_last()) + list.last().terminals()
    }
}

impl JsValueView {
    /// The terminals of the value, in the order in which its children stand. An empty
    /// string has none, and two strings side by side have those of the one string that
    /// they make.
    pub open spec fn terminals(self) -> Seq<Terminal>
        decreases self, 0int,
    {
        match self {
            JsValueView::Constant(LiteralView::Str(text)) => characters(text),
            JsValueView::Array(list) => terminals_of_all(list),
            JsValueView::Alternatives(list) => terminals_of_all(list),
            JsValueView::Concat(list) => terminals_of_all(list),
            JsValueView::Add(list) => terminals_of_all(list),
            JsValueView::Call(callee, args) => callee.terminals() + terminals_of_all(args),
            JsValueView::Member(obj, prop) => obj.terminals() + prop.terminals(),
            JsValueView::Function(return_value) => return_value.terminals(),
            _ => seq![Terminal::Leaf(self)],
        }
    }
}

/// The terminals of two lists, one behind the other, are those of the first and then
/// those of the second.
proof fn lemma_terminals_of_both(a: Seq<JsValueView>, b: Seq<JsValueView>)
    ensures
        terminals_of_all(a + b) == terminals_of_all(a) + terminals_of_all(b),
    decreases b.len(),
{
    if b.len() > 0 {
        lemma_terminals_of_both(a, b.drop_last());
        assert((a + b).drop_last() =~= a + b.drop_last());
    }
}

/// The terminals of a list with one more item.
proof fn lemma_terminals_of_push(a: Seq<JsValueView>, item: JsValueView)
    ensures
        terminals_of_all(a.push(item)) == terminals_of_all(a) + item.terminals(),
{
    assert(a.push(item).drop_last() =~= a);
}

/// Splicing nested alternatives keeps the terminals.
proof fn lemma_flattened_keeps_terminals(list: Seq<JsValueView>)
    ensures
        terminals_of_all(flattened(list)) == terminals_of_all(list),
    decreases list.len(),
{
    if list.len() > 0 {
        let front = list.drop_last();
        lemma_flattened_keeps_terminals(front);
        let last = list.last();
        assert(terminals_of_all(list) == terminals_of_all(front) + last.terminals());
        match last {
            JsValueView::Alternatives(inner) => {
                lemma_terminals_of_both(flattened(front), inner);
            },
            item => {
                lemma_terminals_of_push(flattened(front), item);
            },
        }
    }
}

/// Dropping the empty strings keeps the terminals.
proof fn lemma_without_empty_strings_keeps_terminals(list: Seq<JsValueView>)
    ensures
        terminals_of_all(without_empty_strings(list)) == terminals_of_all(list),
    decreases list.len(),
{
    if list.len() > 0 {
        let front = list.drop_last();
        lemma_without_empty_strings_keeps_terminals(front);
        if list.last().is_empty_string() {
            assert(list.last().terminals() == characters(list.last().as_str()->0));
        } else {
            lemma_terminals_of_push(without_empty_strings(front), list.last());
        }
    }
}

/// Splicing nested concatenations keeps the terminals.
proof fn lemma_spliced_keeps_terminals(list: Seq<JsValueView>)
    ensures
        terminals_of_all(spliced(list)) == terminals_of_all(list),
    decreases list.len(),
{
    if list.len() > 0 {
        let front = list.drop_last();
        lemma_spliced_keeps_terminals(front);
        let last = list.last();
        assert(terminals_of_all(list) == terminals_of_all(front) + last.terminals());
        match last {
            JsValueView::Concat(inner) => {
                lemma_terminals_of_both(spliced(front), inner);
            },
            item => {
                lemma_terminals_of_push(spliced(front), item);
            },
        }
    }
}

/// Making one of the strings side by side keeps the terminals.
proof fn lemma_fused_keeps_terminals(list: Seq<JsValueView>)
    ensures
        terminals_of_all(fused(list)) == terminals_of_all(list),
    decreases list.len(),
{
    if list.len() > 0 {
        let front = list.drop_last();
        lemma_fused_keeps_terminals(front);
        let acc = fused(front);
        let last = list.last();
        assert(terminals_of_all(list) == terminals_of_all(front) + last.terminals());
        if acc.len() > 0 && acc.last().as_str() is Some && last.as_str() is Some {
            let before = acc.last().as_str()->0;
            let text = last.as_str()->0;
            let grown = JsValueView::string(before + text);
            lemma_terminals_of_push(acc.drop_last(), grown);
            lemma_terminals_of_push(acc.drop_last(), acc.last());
        } else {
            lemma_terminals_of_push(acc, last);
        }
    }
}

/// Settling a concatenation keeps the terminals.
proof fn lemma_settled_concat_keeps_terminals(list: Seq<JsValueView>)
    ensures
        settled_concat(list).terminals() == terminals_of_all(list),
{
    lemma_without_empty_strings_keeps_terminals(list);
    lemma_spliced_keeps_terminals(without_empty_strings(list));
    lemma_fused_keeps_terminals(spliced(without_empty_strings(list)));
    let parts = fused(spliced(without_empty_strings(list)));
    if parts.len() == 1 {
        assert(terminals_of_all(parts.drop_last()) =~= Seq::<Terminal>::empty());
    }
}

/// Settling a sum keeps the terminals.
proof fn lemma_settled_add_keeps_terminals(list: Seq<JsValueView>)
    ensures
        settled_add(list).terminals() == terminals_of_all(list),
{
    let k = leading_non_strings(list) as int;
    lemma_leading_in_range(list);
    if k < list.len() {
        let head = list.take(k);
        lemma_settled_concat_keeps_terminals(as_one_operand(head) + list.skip(k));
        lemma_terminals_of_both(as_one_operand(head), list.skip(k));
        lemma_terminals_of_both(head, list.skip(k));
        assert(head + list.skip(k) =~= list);
        if head.len() == 1 {
            assert(as_one_operand(head) =~= head);
        } else if head.len() > 1 {
            let one = seq![JsValueView::Add(head)];
            assert(terminals_of_all(one.drop_last()) =~= Seq::<Terminal>::empty());
            assert(one.last().terminals() == terminals_of_all(head));
        }
    }
}

/// The operands before the first string are no more than there are operands.
proof fn lemma_leading_in_range(list: Seq<JsValueView>)
    ensures
        leading_non_strings(list) <= list.len(),
    decreases list.len(),
{
    if list.len() > 0 && !list[0].is_string() {
        lemma_leading_in_range(list.drop_first());
    }
}

/// Bringing every item of a list into normal form keeps the terminals of the list.
pub proof fn lemma_normalize_all_keeps_terminals(list: Seq<JsValueView>)
    ensures
        terminals_of_all(normalized_all(list)) == terminals_of_all(list),
    decreases list, 1int,
{
    if list.len() > 0 {
        let front = list.drop_last();
        lemma_normalize_all_keeps_terminals(front);
        lemma_normalize_keeps_terminals(list.last());
        assert(normalized_all(list).drop_last() =~= normalized_all(front));
    }
}

/// Normal form keeps what a value ends in: the same literals and other leaves, in the
/// same order, and the same characters in strings, whether an empty string was dropped
/// or strings side by side became one.
pub proof fn lemma_normalize_keeps_terminals(value: JsValueView)
    ensures
        value.normalized().terminals() == value.terminals(),
    decreases value, 0int,
{
    match value {
        JsValueView::Array(list) => {
            lemma_normalize_all_keeps_terminals(list);
        },
        JsValueView::Alternatives(list) => {
            lemma_normalize_all_keeps_terminals(list);
            lemma_flattened_keeps_terminals(normalized_all(list));
        },
        JsValueView::Concat(list) => {
            lemma_normalize_all_keeps_terminals(list);
            lemma_settled_concat_keeps_terminals(normalized_all(list));
        },
        JsValueView::Add(list) => {
            lemma_normalize_all_keeps_terminals(list);
            lemma_settled_add_keeps_terminals(normalized_all(list));
        },
        JsValueView::Call(callee, args) => {
            lemma_normalize_keeps_terminals(*callee);
            lemma_normalize_all_keeps_terminals(args);
        },
        JsValueView::Member(obj, prop) => {
            lemma_normalize_keeps_terminals(*obj);
            lemma_normalize_keeps_terminals(*prop);
        },
        JsValueView::Function(return_value) => {
            lemma_normalize_keeps_terminals(*return_value);
        },
        _ => {},
    }
}

} // verus!
