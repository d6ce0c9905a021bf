use crate::analyzer::{views, FreeVarKind, JsValue, Literal, WellKnownFunctionKind};
use vstd::prelude::*;

verus! {

impl Clone for Literal {
    fn clone(&self) -> (r: Literal)
        ensures
            r@ == self@,
    {
        match self {
            Literal::Str(s) => Literal::Str(s.clone()),
            Literal::Num(s) => Literal::Num(s.clone()),
            Literal::Bool(b) => Literal::Bool(*b),
            Literal::Null => Literal::Null,
            Literal::Regex(exp, flags) => Literal::Regex(exp.clone(), flags.clone()),
            Literal::BigInt(s) => Literal::BigInt(s.clone()),
            Literal::JSXText(s) => Literal::JSXText(s.clone()),
        }
    }
}

impl Clone for FreeVarKind {
    fn clone(&self) -> (r: FreeVarKind)
        ensures
            r@ == self@,
    {
        match self {
            FreeVarKind::Dirname => FreeVarKind::Dirname,
            FreeVarKind::Require => FreeVarKind::Require,
            FreeVarKind::Import => FreeVarKind::Import,
            FreeVarKind::RequireResolve => FreeVarKind::RequireResolve,
            FreeVarKind::Other(name) => FreeVarKind::Other(name.clone()),
        }
    }
}

impl Clone for WellKnownFunctionKind {
    fn clone(&self) -> (r: WellKnownFunctionKind)
        ensures
            r@ == self@,
    {
        match self {
            WellKnownFunctionKind::PathJoin => WellKnownFunctionKind::PathJoin,
            WellKnownFunctionKind::Import => WellKnownFunctionKind::Import,
            WellKnownFunctionKind::Require => WellKnownFunctionKind::Require,
            WellKnownFunctionKind::RequireResolve => WellKnownFunctionKind::RequireResolve,
            WellKnownFunctionKind::FsReadMethod(name) => WellKnownFunctionKind::FsReadMethod(
                name.clone(),
            ),
            WellKnownFunctionKind::PathToFileUrl => WellKnownFunctionKind::PathToFileUrl,
            WellKnownFunctionKind::ChildProcessSpawn => WellKnownFunctionKind::ChildProcessSpawn,
        }
    }
}

/// A copy of a list, value by value.
fn copy_list(list: &Vec<JsValue>) -> (r: Vec<JsValue>)
    ensures
        views(r@) == views(list@),
    decreases list,
{
    let mut out: Vec<JsValue> = Vec::new();
    let mut i: usize = 0;
    while i < list.len()
        invariant
            i <= list.len(),
            out.len() == i,
            forall|j: int| 0 <= j < i ==> out@[j]@ == list@[j]@,
        decreases list.len() - i,
    {
        out.push(copy(&list[i]));
        i += 1;
    }
    out
}

/// A copy of a symbolic value.
fn copy(value: &JsValue) -> (r: JsValue)
    ensures
        r@ == value@,
    decreases value,
{
    match value {
        JsValue::Constant(lit) => JsValue::Constant(lit.clone()),
        JsValue::Array(list) => JsValue::Array(copy_list(list)),
        JsValue::Url(url) => JsValue::Url(url.clone()),
        JsValue::Alternatives(list) => JsValue::Alternatives(copy_list(list)),
        JsValue::FreeVar(kind) => JsValue::FreeVar(kind.clone()),
        JsValue::Variable(id) => JsValue::Variable((id.0.clone(), id.1)),
        JsValue::Concat(list) => JsValue::Concat(copy_list(list)),
        JsValue::Add(list) => JsValue::Add(copy_list(list)),
        JsValue::Call(callee, args) => JsValue::Call(Box::new(copy(callee)), copy_list(args)),
        JsValue::Member(obj, prop) => JsValue::Member(Box::new(copy(obj)), Box::new(copy(prop))),
        JsValue::Module(name) => JsValue::Module(name.clone()),
        JsValue::WellKnownObject(kind) => JsValue::WellKnownObject(*kind),
        JsValue::WellKnownFunction(kind) => JsValue::WellKnownFunction(kind.clone()),
        JsValue::Unknown(inner, reason) => JsValue::Unknown(
            match inner {
                Some(value) => Some(Box::new(copy(value))),
                None => None,
            },
            *reason,
        ),
        JsValue::Function(return_value) => JsValue::Function(Box::new(copy(return_value))),
        JsValue::Argument(index) => JsValue::Argument(*index),
    }
}

impl Clone for JsValue {
    fn clone(&self) -> (r: JsValue)
        ensures
            r@ == self@,
    {
        copy(self)
    }
}

} // verus!
