use crate::analyzer::{
    lemma_views, FreeVarKind, FreeVarKindView, JsValue, JsValueView, WellKnownFunctionKind,
    WellKnownFunctionKindView, WellKnownObjectKind,
};
use crate::text::same_text;
use vstd::prelude::*;
use vstd::string::*;

verus! {

broadcast use lemma_views;

/// The well-known object that a module of the name `name` is, if it is one.
pub open spec fn well_known_module(name: Seq<char>) -> Option<WellKnownObjectKind> {
    if name == "path"@ {
        Some(WellKnownObjectKind::PathModule)
    } else if name == "fs"@ {
        Some(WellKnownObjectKind::FsModule)
    } else if name == "url"@ {
        Some(WellKnownObjectKind::UrlModule)
    } else if name == "child_process"@ {
        Some(WellKnownObjectKind::ChildProcess)
    } else {
        None
    }
}

/// The well-known function that the property `name` of a well-known object is, if it is
/// one: `join` of the path module, `pathToFileURL` of the url module, `spawn` of the
/// child process module, and every property of the fs module.
pub open spec fn well_known_member(
    object: WellKnownObjectKind,
    name: Seq<char>,
) -> Option<WellKnownFunctionKindView> {
    match object {
        WellKnownObjectKind::PathModule => if name == "join"@ {
            Some(WellKnownFunctionKindView::PathJoin)
        } else {
            None
        },
        WellKnownObjectKind::FsModule => Some(WellKnownFunctionKindView::FsReadMethod(name)),
        WellKnownObjectKind::UrlModule => if name == "pathToFileURL"@ {
            Some(WellKnownFunctionKindView::PathToFileUrl)
        } else {
            None
        },
        WellKnownObjectKind::ChildProcess => if name == "spawn"@ {
            Some(WellKnownFunctionKindView::ChildProcessSpawn)
        } else {
            None
        },
    }
}

impl JsValueView {
    /// The well-known value that this value stands for, if it stands for one: a module
    /// for a well-known object, a property of a well-known object for a well-known
    /// function, and `require`, `import` and `require.resolve` for themselves as
    /// well-known functions.
    pub open spec fn well_known(self) -> Option<JsValueView> {
        match self {
            JsValueView::Module(name) => match well_known_module(name) {
                Some(kind) => Some(JsValueView::WellKnownObject(kind)),
                None => None,
            },
            JsValueView::Member(obj, prop) => match (*obj, prop.as_str()) {
                (JsValueView::WellKnownObject(kind), Some(name)) => match well_known_member(
                    kind,
                    name,
                ) {
                    Some(function) => Some(JsValueView::WellKnownFunction(function)),
                    None => None,
                },
                _ => None,
            },
            JsValueView::FreeVar(FreeVarKindView::Require) => Some(
                JsValueView::WellKnownFunction(WellKnownFunctionKindView::Require),
            ),
            JsValueView::FreeVar(FreeVarKindView::Import) => Some(
                JsValueView::WellKnownFunction(WellKnownFunctionKindView::Import),
            ),
            JsValueView::FreeVar(FreeVarKindView::RequireResolve) => Some(
                JsValueView::WellKnownFunction(WellKnownFunctionKindView::RequireResolve),
            ),
            _ => None,
        }
    }
}

/// The well-known object that a module of the name `name` is, if it is one.
fn module_kind(name: &str) -> (r: Option<WellKnownObjectKind>)
    ensures
        r == well_known_module(name@),
{
    if same_text(name, "path") {
        Some(WellKnownObjectKind::PathModule)
    } else if same_text(name, "fs") {
        Some(WellKnownObjectKind::FsModule)
    } else if same_text(name, "url") {
        Some(WellKnownObjectKind::UrlModule)
    } else if same_text(name, "child_process") {
        Some(WellKnownObjectKind::ChildProcess)
    } else {
        None
    }
}

/// The well-known function that the property `name` of a well-known object is, if it is
/// one.
fn member_kind(object: WellKnownObjectKind, name: &str) -> (r: Option<WellKnownFunctionKind>)
    ensures
        r is Some <==> well_known_member(object, name@) is Some,
        r is Some ==> r->0@ == well_known_member(object, name@)->0,
{
    match object {
        WellKnownObjectKind::PathModule => if same_text(name, "join") {
            Some(WellKnownFunctionKind::PathJoin)
        } else {
            None
        },
        WellKnownObjectKind::FsModule => Some(
            WellKnownFunctionKind::FsReadMethod(String::from_str(name)),
        ),
        WellKnownObjectKind::UrlModule => if same_text(name, "pathToFileURL") {
            Some(WellKnownFunctionKind::PathToFileUrl)
        } else {
            None
        },
        WellKnownObjectKind::ChildProcess => if same_text(name, "spawn") {
            Some(WellKnownFunctionKind::ChildProcessSpawn)
        } else {
            None
        },
    }
}

/// Replaces a value that stands for a well-known object or function by that object or
/// function, and says whether it did. Every other value comes back as it is.
pub fn replace_well_known(value: JsValue) -> (r: (JsValue, bool))
    ensures
        r.1 == value@.well_known() is Some,
        r.0@ == (match value@.well_known() {
            Some(known) => known,
            None => value@,
        }),
{
    let known = match &value {
        JsValue::Module(name) => match module_kind(name.as_str()) {
            Some(kind) => Some(JsValue::WellKnownObject(kind)),
            None => None,
        },
        JsValue::Member(obj, prop) => {
            assert(*value@->Member_0 == obj@ && *value@->Member_1 == prop@);
            match (&**obj, prop.as_str()) {
                (JsValue::WellKnownObject(kind), Some(name)) => match member_kind(*kind, name) {
                    Some(function) => Some(JsValue::WellKnownFunction(function)),
                    None => None,
                },
                _ => None,
            }
        },
        JsValue::FreeVar(FreeVarKind::Require) => Some(
            JsValue::WellKnownFunction(WellKnownFunctionKind::Require),
        ),
        JsValue::FreeVar(FreeVarKind::Import) => Some(
            JsValue::WellKnownFunction(WellKnownFunctionKind::Import),
        ),
        JsValue::FreeVar(FreeVarKind::RequireResolve) => Some(
            JsValue::WellKnownFunction(WellKnownFunctionKind::RequireResolve),
        ),
        _ => None,
    };
    match known {
        Some(known) => (known, true),
        None => (value, false),
    }
}

} // verus!
