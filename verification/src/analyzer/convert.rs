use crate::analyzer::{JsValue, JsValueView, Literal};
use vstd::prelude::*;
use vstd::std_specs::convert::FromSpecImpl;
use vstd::string::*;

verus! {

impl From<Literal> for JsValue {
    /// The literal as a constant.
    fn from(v: Literal) -> (r: JsValue) {
        JsValue::Constant(v)
    }
}

impl FromSpecImpl<Literal> for JsValue {
    open spec fn obeys_from_spec() -> bool {
        true
    }

    open spec fn from_spec(v: Literal) -> JsValue {
        JsValue::Constant(v)
    }
}

impl From<String> for JsValue {
    /// The text as a string constant.
    fn from(v: String) -> (r: JsValue) {
        JsValue::Constant(Literal::Str(v))
    }
}

impl FromSpecImpl<String> for JsValue {
    open spec fn obeys_from_spec() -> bool {
        true
    }

    open spec fn from_spec(v: String) -> JsValue {
        JsValue::Constant(Literal::Str(v))
    }
}

impl<'a> From<&'a str> for JsValue {
    /// The text as a string constant.
    fn from(v: &'a str) -> (r: JsValue)
        ensures
            r@ == JsValueView::string(v@),
    {
        JsValue::Constant(Literal::Str(String::from_str(v)))
    }
}

impl<'a> FromSpecImpl<&'a str> for JsValue {
    open spec fn obeys_from_spec() -> bool {
        false
    }

    open spec fn from_spec(v: &'a str) -> JsValue {
        arbitrary()
    }
}

} // verus!
