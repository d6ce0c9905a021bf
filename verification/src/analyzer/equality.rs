use crate::analyzer::{views, FreeVarKind, JsValue, Literal, WellKnownFunctionKind};
use crate::text::same_text;
use vstd::prelude::*;
use vstd::std_specs::cmp::PartialEqSpecImpl;

verus! {

impl PartialEq for Literal {
    fn eq(&self, other: &Literal) -> (r: bool) {
        match (self, other) {
            (Literal::Str(a), Literal::Str(b)) => *a == *b,
            (Literal::Num(a), Literal::Num(b)) => *a == *b,
            (Literal::Bool(a), Literal::Bool(b)) => *a == *b,
            (Literal::Null, Literal::Null) => true,
            (Literal::Regex(a, f), Literal::Regex(b, g)) => *a == *b && *f == *g,
            (Literal::BigInt(a), Literal::BigInt(b)) => *a == *b,
            (Literal::JSXText(a), Literal::JSXText(b)) => *a == *b,
            _ => false,
        }
    }
}

impl PartialEqSpecImpl for Literal {
    open spec fn obeys_eq_spec() -> bool {
        true
    }

    open spec fn eq_spec(&self, other: &Literal) -> bool {
        self@ == other@
    }
}

impl Eq for Literal {

}

impl PartialEq for FreeVarKind {
    fn eq(&self, other: &FreeVarKind) -> (r: bool) {
        match (self, other) {
            (FreeVarKind::Dirname, FreeVarKind::Dirname) => true,
            (FreeVarKind::Require, FreeVarKind::Require) => true,
            (FreeVarKind::Import, FreeVarKind::Import) => true,
            (FreeVarKind::RequireResolve, FreeVarKind::RequireResolve) => true,
            (FreeVarKind::Other(a), FreeVarKind::Other(b)) => *a == *b,
            _ => false,
        }
    }
}

impl PartialEqSpecImpl for FreeVarKind {
    open spec fn obeys_eq_spec() -> bool {
        true
    }

    open spec fn eq_spec(&self, other: &FreeVarKind) -> bool {
        self@ == other@
    }
}

impl Eq for FreeVarKind {

}

impl PartialEq for WellKnownFunctionKind {
    fn eq(&self, other: &WellKnownFunctionKind) -> (r: bool) {
        match (self, other) {
            (WellKnownFunctionKind::PathJoin, WellKnownFunctionKind::PathJoin) => true,
            (WellKnownFunctionKind::Import, WellKnownFunctionKind::Import) => true,
            (WellKnownFunctionKind::Require, WellKnownFunctionKind::Require) => true,
            (WellKnownFunctionKind::RequireResolve, WellKnownFunctionKind::RequireResolve) => true,
            (WellKnownFunctionKind::FsReadMethod(a), WellKnownFunctionKind::FsReadMethod(b)) => *a
                == *b,
            (WellKnownFunctionKind::PathToFileUrl, WellKnownFunctionKind::PathToFileUrl) => true,
            (
                WellKnownFunctionKind::ChildProcessSpawn,
                WellKnownFunctionKind::ChildProcessSpawn,
            ) => true,
            _ => false,
        }
    }
}

impl PartialEqSpecImpl for WellKnownFunctionKind {
    open spec fn obeys_eq_spec() -> bool {
        true
    }

    open spec fn eq_spec(&self, other: &WellKnownFunctionKind) -> bool {
        self@ == other@
    }
}

impl Eq for WellKnownFunctionKind {

}

/// Whether two lists hold the same values in the same order.
fn same_list(a: &Vec<JsValue>, b: &Vec<JsValue>) -> (r: bool)
    ensures
        r == (views(a@) == views(b@)),
    decreases a,
{
    if a.len() != b.len() {
        return false;
    }
    let mut i: usize = 0;
    while i < a.len()
        invariant
            i <= a.len(),
            a.len() == b.len(),
            forall|j: int| 0 <= j < i ==> a@[j]@ == b@[j]@,
        decreases a.len() - i,
    {
        if !same(&a[i], &b[i]) {
            assert(views(a@)[i as int] != views(b@)[i as int]);
            return false;
        }
        i += 1;
    }
    assert(views(a@) =~= views(b@));
    true
}

/// Whether two symbolic values are the same tree.
fn same(a: &JsValue, b: &JsValue) -> (r: bool)
    ensures
        r == (a@ == b@),
    decreases a,
{
    match (a, b) {
        (JsValue::Constant(x), JsValue::Constant(y)) => *x == *y,
        (JsValue::Array(x), JsValue::Array(y)) => same_list(x, y),
        (JsValue::Url(x), JsValue::Url(y)) => *x == *y,
        (JsValue::Alternatives(x), JsValue::Alternatives(y)) => same_list(x, y),
        (JsValue::FreeVar(x), JsValue::FreeVar(y)) => *x == *y,
        (JsValue::Variable(x), JsValue::Variable(y)) => x.0 == y.0 && x.1 == y.1,
        (JsValue::Concat(x), JsValue::Concat(y)) => same_list(x, y),
        (JsValue::Add(x), JsValue::Add(y)) => same_list(x, y),
        (JsValue::Call(f, x), JsValue::Call(g, y)) => same(f, g) && same_list(x, y),
        (JsValue::Member(o, p), JsValue::Member(q, r)) => same(o, q) && same(p, r),
        (JsValue::Module(x), JsValue::Module(y)) => *x == *y,
        (JsValue::WellKnownObject(x), JsValue::WellKnownObject(y)) => *x == *y,
        (JsValue::WellKnownFunction(x), JsValue::WellKnownFunction(y)) => *x == *y,
        (JsValue::Unknown(x, s), JsValue::Unknown(y, t)) => {
            let inner = match (x, y) {
                (Some(p), Some(q)) => same(p, q),
                (None, None) => true,
                _ => false,
            };
            inner && same_text(s, t)
        },
        (JsValue::Function(x), JsValue::Function(y)) => same(x, y),
        (JsValue::Argument(x), JsValue::Argument(y)) => *x == *y,
        _ => false,
    }
}

impl PartialEq for JsValue {
    fn eq(&self, other: &JsValue) -> (r: bool) {
        same(self, other)
    }
}

impl PartialEqSpecImpl for JsValue {
    open spec fn obeys_eq_spec() -> bool {
        true
    }

    open spec fn eq_spec(&self, other: &JsValue) -> bool {
        self@ == other@
    }
}

impl Eq for JsValue {

}

} // verus!
