use crate::analyzer::{
    lemma_views, views, FreeVarKind, FreeVarKindView, JsValue, JsValueView, Literal, LiteralView,
};
use vstd::prelude::*;

verus! {

broadcast use lemma_views;

impl JsValueView {
    /// A string literal.
    pub open spec fn string(text: Seq<char>) -> JsValueView {
        JsValueView::Constant(LiteralView::Str(text))
    }

    /// The text of a string literal.
    pub open spec fn as_str(self) -> Option<Seq<char>> {
        match self {
            JsValueView::Constant(LiteralView::Str(text)) => Some(text),
            _ => None,
        }
    }

    /// Whether this is the literal of the empty string.
    pub open spec fn is_empty_string(self) -> bool {
        self.as_str() == Some(Seq::<char>::empty())
    }

    /// Whether the value is known to be a string: a string literal, a concatenation,
    /// `__dirname`, a call of `require.resolve`, a sum with an operand that is a string,
    /// or alternatives that all are strings.
    pub open spec fn is_string(self) -> bool
        decreases self,
    {
        match self {
            JsValueView::Constant(LiteralView::Str(_)) => true,
            JsValueView::Concat(_) => true,
            JsValueView::FreeVar(FreeVarKindView::Dirname) => true,
            JsValueView::Add(list) => exists|i: int|
                0 <= i < list.len() && (#[trigger] list[i]).is_string(),
            JsValueView::Alternatives(list) => forall|i: int|
                0 <= i < list.len() ==> (#[trigger] list[i]).is_string(),
            JsValueView::Call(callee, _) => *callee == JsValueView::FreeVar(
                FreeVarKindView::RequireResolve,
            ),
            _ => false,
        }
    }
}

impl JsValue {
    /// The text of the value, where the value is a string literal.
    pub fn as_str(&self) -> (r: Option<&str>)
        ensures
            r is Some <==> self@.as_str() is Some,
            r is Some ==> r->0@ == self@.as_str()->0,
    {
        if let JsValue::Constant(Literal::Str(text)) = self {
            Some(text.as_str())
        } else {
            None
        }
    }

    /// The word of the value, where the value is a string literal.
    pub fn as_word(&self) -> (r: Option<&String>)
        ensures
            r is Some <==> self@.as_str() is Some,
            r is Some ==> r->0@ == self@.as_str()->0,
    {
        if let JsValue::Constant(Literal::Str(text)) = self {
            Some(text)
        } else {
            None
        }
    }

    /// Whether the value is known to be a string. `false` promises nothing.
    pub fn is_string(&self) -> (r: bool)
        ensures
            r == self@.is_string(),
        decreases self,
    {
        match self {
            JsValue::Constant(Literal::Str(_)) => true,
            JsValue::Concat(_) => true,
            JsValue::FreeVar(FreeVarKind::Dirname) => true,
            JsValue::Add(list) => {
                let ghost items = views(list@);
                let mut i: usize = 0;
                while i < list.len()
                    invariant
                        i <= list.len(),
                        *self is Add && self->Add_0 == *list,
                        items == views(list@),
                        self@ == JsValueView::Add(items),
                        forall|j: int| 0 <= j < i ==> !(#[trigger] items[j]).is_string(),
                    decreases list.len() - i,
                {
                    if list[i].is_string() {
                        assert(views(list@)[i as int].is_string());
                        assert(self@->Add_0 == views(list@));
                        return true;
                    }
                    i += 1;
                }
                false
            },
            JsValue::Alternatives(list) => {
                let ghost items = views(list@);
                let mut i: usize = 0;
                while i < list.len()
                    invariant
                        i <= list.len(),
                        *self is Alternatives && self->Alternatives_0 == *list,
                        items == views(list@),
                        self@ == JsValueView::Alternatives(items),
                        forall|j: int| 0 <= j < i ==> (#[trigger] items[j]).is_string(),
                    decreases list.len() - i,
                {
                    if !list[i].is_string() {
                        assert(!views(list@)[i as int].is_string());
                        assert(self@->Alternatives_0 == views(list@));
                        return false;
                    }
                    i += 1;
                }
                true
            },
            JsValue::Call(callee, _) => {
                assert(*self@->Call_0 == callee@);
                match &**callee {
                    JsValue::FreeVar(FreeVarKind::RequireResolve) => true,
                    _ => false,
                }
            },
            _ => false,
        }
    }
}

/// Whether `is_text`, which says of every value whether it is a string in one run of the
/// program, agrees with what the language and the host promise:
/// - a literal is a string just when it is a string literal;
/// - a template literal gives a string;
/// - `+` gives a string where one of its operands is a string;
/// - what is one of several values is a string where each of them is;
/// - `__dirname` is a string, and `require.resolve` gives a string.
pub open spec fn follows_the_language(is_text: spec_fn(JsValueView) -> bool) -> bool {
    &&& forall|lit: LiteralView| #[trigger] is_text(JsValueView::Constant(lit)) == lit is Str
    &&& forall|parts: Seq<JsValueView>| #[trigger] is_text(JsValueView::Concat(parts))
    &&& forall|operands: Seq<JsValueView>, i: int|
        0 <= i < operands.len() && is_text(#[trigger] operands[i]) ==> #[trigger] is_text(
            JsValueView::Add(operands),
        )
    &&& forall|list: Seq<JsValueView>|
        (forall|i: int| 0 <= i < list.len() ==> is_text(#[trigger] list[i])) ==> #[trigger] is_text(
            JsValueView::Alternatives(list),
        )
    &&& is_text(JsValueView::FreeVar(FreeVarKindView::Dirname))
    &&& forall|args: Seq<JsValueView>| #[trigger]
        is_text(
            JsValueView::Call(
                Box::new(JsValueView::FreeVar(FreeVarKindView::RequireResolve)),
                args,
            ),
        )
}

/// What is known to be a string is a string in every run of the program: whatever
/// `is_text` says of the values in one run, as long as it agrees with what the language
/// and the host promise.
pub proof fn lemma_is_string_is_sound(is_text: spec_fn(JsValueView) -> bool, value: JsValueView)
    requires
        follows_the_language(is_text),
        value.is_string(),
    ensures
        is_text(value),
    decreases value,
{
    match value {
        JsValueView::Constant(lit) => {
            assert(is_text(JsValueView::Constant(lit)) == lit is Str);
        },
        JsValueView::Concat(parts) => {
            assert(is_text(JsValueView::Concat(parts)));
        },
        JsValueView::Add(list) => {
            let i = choose|i: int| 0 <= i < list.len() && (#[trigger] list[i]).is_string();
            lemma_is_string_is_sound(is_text, list[i]);
        },
        JsValueView::Alternatives(list) => {
            assert forall|i: int| 0 <= i < list.len() implies is_text(#[trigger] list[i]) by {
                lemma_is_string_is_sound(is_text, list[i]);
            }
        },
        JsValueView::Call(callee, args) => {
            let resolve = JsValueView::FreeVar(FreeVarKindView::RequireResolve);
            assert(is_text(JsValueView::Call(Box::new(resolve), args)));
        },
        _ => {},
    }
}

} // verus!
