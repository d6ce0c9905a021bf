use crate::analyzer::{
    lemma_views, views, FreeVarKind, FreeVarKindView, JsValue, JsValueView, Literal, LiteralView,
    WellKnownFunctionKind, WellKnownFunctionKindView, WellKnownObjectKind,
};
use crate::text::{decimal, decimal_string, join, joined};
use vstd::prelude::*;
use vstd::string::*;

verus! {

broadcast use lemma_views;

impl LiteralView {
    /// The literal as the program would write it: a string in double quotes, a regular
    /// expression between slashes with its flags behind, a big integer with `n` behind,
    /// the text of a JSX element as it is.
    pub open spec fn text(self) -> Seq<char> {
        match self {
            LiteralView::Str(value) => "\""@ + value + "\""@,
            LiteralView::Num(value) => value,
            LiteralView::Bool(value) => if value {
                "true"@
            } else {
                "false"@
            },
            LiteralView::Null => "null"@,
            LiteralView::Regex(exp, flags) => "/"@ + exp + "/"@ + flags,
            LiteralView::BigInt(value) => value + "n"@,
            LiteralView::JSXText(value) => value,
        }
    }
}

impl FreeVarKindView {
    /// The name of the kind, with the name of the variable in brackets where it has one.
    pub open spec fn text(self) -> Seq<char> {
        match self {
            FreeVarKindView::Dirname => "Dirname"@,
            FreeVarKindView::Require => "Require"@,
            FreeVarKindView::Import => "Import"@,
            FreeVarKindView::RequireResolve => "RequireResolve"@,
            FreeVarKindView::Other(name) => "Other("@ + name + ")"@,
        }
    }
}

impl WellKnownObjectKind {
    /// The name of the kind.
    pub open spec fn text(self) -> Seq<char> {
        match self {
            WellKnownObjectKind::PathModule => "PathModule"@,
            WellKnownObjectKind::FsModule => "FsModule"@,
            WellKnownObjectKind::UrlModule => "UrlModule"@,
            WellKnownObjectKind::ChildProcess => "ChildProcess"@,
        }
    }
}

impl WellKnownFunctionKindView {
    /// The name of the kind, with the name of the method in brackets where it has one.
    pub open spec fn text(self) -> Seq<char> {
        match self {
            WellKnownFunctionKindView::PathJoin => "PathJoin"@,
            WellKnownFunctionKindView::Import => "Import"@,
            WellKnownFunctionKindView::Require => "Require"@,
            WellKnownFunctionKindView::RequireResolve => "RequireResolve"@,
            WellKnownFunctionKindView::FsReadMethod(name) => "FsReadMethod("@ + name + ")"@,
            WellKnownFunctionKindView::PathToFileUrl => "PathToFileUrl"@,
            WellKnownFunctionKindView::ChildProcessSpawn => "ChildProcessSpawn"@,
        }
    }
}

/// The compact text of each item of `list`.
pub open spec fn displays(list: Seq<JsValueView>) -> Seq<Seq<char>>
    decreases list, 1int,
{
    Seq::new(
        list.len(),
        |i: int|
            if 0 <= i < list.len() {
                list[i].display()
            } else {
                arbitrary()
            },
    )
}

/// The text of each part of a concatenation as a template holds it: a string as it is,
/// anything else between `${` and `}`.
pub open spec fn template_parts(list: Seq<JsValueView>) -> Seq<Seq<char>>
    decreases list, 1int,
{
    Seq::new(
        list.len(),
        |i: int|
            if 0 <= i < list.len() {
                match list[i] {
                    JsValueView::Constant(LiteralView::Str(value)) => value,
                    part => "${"@ + part.display() + "}"@,
                }
            } else {
                arbitrary()
            },
    )
}

impl JsValueView {
    /// The compact text of the value.
    pub open spec fn display(self) -> Seq<char>
        decreases self, 0int,
    {
        match self {
            JsValueView::Constant(lit) => lit.text(),
            JsValueView::Url(url) => url,
            JsValueView::Array(list) => "["@ + joined(displays(list), ". "@) + "]"@,
            JsValueView::Alternatives(list) => "("@ + joined(displays(list), " | "@) + ")"@,
            JsValueView::FreeVar(kind) => "FreeVar("@ + kind.text() + ")"@,
            JsValueView::Variable(name, scope) => "Variable("@ + name + "##"@ + decimal(
                scope as nat,
            ) + ")"@,
            JsValueView::Concat(list) => "`"@ + joined(template_parts(list), ""@) + "`"@,
            JsValueView::Add(list) => "("@ + joined(displays(list), " + "@) + ")"@,
            JsValueView::Call(callee, args) => callee.display() + "("@ + joined(
                displays(args),
                ", "@,
            ) + ")"@,
            JsValueView::Member(obj, prop) => obj.display() + "["@ + prop.display() + "]"@,
            JsValueView::Module(name) => "Module("@ + name + ")"@,
            JsValueView::Unknown(_, _) => "???"@,
            JsValueView::WellKnownObject(kind) => "WellKnownObject("@ + kind.text() + ")"@,
            JsValueView::WellKnownFunction(kind) => "WellKnownFunction("@ + kind.text() + ")"@,
            JsValueView::Function(return_value) => "Function(return = "@
                + return_value.display() + ")"@,
            JsValueView::Argument(index) => "Argument("@ + decimal(index as nat) + ")"@,
        }
    }
}

/// The texts of a list are the texts of its items, each at the item's place.
pub broadcast proof fn lemma_displays(list: Seq<JsValueView>)
    ensures
        #![trigger displays(list)]
        displays(list).len() == list.len(),
        forall|i: int| 0 <= i < list.len() ==> (#[trigger] displays(list)[i]) == list[i].display(),
{
}

/// The parts of a template are the texts of its items, each at the item's place.
pub broadcast proof fn lemma_template_parts(list: Seq<JsValueView>)
    ensures
        #![trigger template_parts(list)]
        template_parts(list).len() == list.len(),
        forall|i: int|
            0 <= i < list.len() ==> (#[trigger] template_parts(list)[i]) == (match list[i] {
                JsValueView::Constant(LiteralView::Str(value)) => value,
                part => "${"@ + part.display() + "}"@,
            }),
{
}

/// `head`, then `body`, then `tail`.
pub fn wrapped(head: &str, body: &str, tail: &str) -> (r: String)
    ensures
        r@ == head@ + body@ + tail@,
{
    let mut out = String::from_str(head);
    out.append(body);
    out.append(tail);
    out
}

impl Literal {
    /// The literal as the program would write it.
    pub fn text(&self) -> (r: String)
        ensures
            r@ == self@.text(),
    {
        match self {
            Literal::Str(value) => wrapped("\"", value.as_str(), "\""),
            Literal::Num(value) => value.clone(),
            Literal::Bool(value) => if *value {
                String::from_str("true")
            } else {
                String::from_str("false")
            },
            Literal::Null => String::from_str("null"),
            Literal::Regex(exp, flags) => {
                let mut out = wrapped("/", exp.as_str(), "/");
                out.append(flags.as_str());
                out
            },
            Literal::BigInt(value) => {
                let mut out = value.clone();
                out.append("n");
                out
            },
            Literal::JSXText(value) => value.clone(),
        }
    }
}

impl FreeVarKind {
    /// The name of the kind, with the name of the variable in brackets where it has one.
    pub fn text(&self) -> (r: String)
        ensures
            r@ == self@.text(),
    {
        match self {
            FreeVarKind::Dirname => String::from_str("Dirname"),
            FreeVarKind::Require => String::from_str("Require"),
            FreeVarKind::Import => String::from_str("Import"),
            FreeVarKind::RequireResolve => String::from_str("RequireResolve"),
            FreeVarKind::Other(name) => wrapped("Other(", name.as_str(), ")"),
        }
    }
}

impl WellKnownObjectKind {
    /// The name of the kind.
    pub fn name(&self) -> (r: &'static str)
        ensures
            r@ == self.text(),
    {
        match self {
            WellKnownObjectKind::PathModule => "PathModule",
            WellKnownObjectKind::FsModule => "FsModule",
            WellKnownObjectKind::UrlModule => "UrlModule",
            WellKnownObjectKind::ChildProcess => "ChildProcess",
        }
    }
}

impl WellKnownFunctionKind {
    /// The name of the kind, with the name of the method in brackets where it has one.
    pub fn text(&self) -> (r: String)
        ensures
            r@ == self@.text(),
    {
        match self {
            WellKnownFunctionKind::PathJoin => String::from_str("PathJoin"),
            WellKnownFunctionKind::Import => String::from_str("Import"),
            WellKnownFunctionKind::Require => String::from_str("Require"),
            WellKnownFunctionKind::RequireResolve => String::from_str("RequireResolve"),
            WellKnownFunctionKind::FsReadMethod(name) => wrapped(
                "FsReadMethod(",
                name.as_str(),
                ")",
            ),
            WellKnownFunctionKind::PathToFileUrl => String::from_str("PathToFileUrl"),
            WellKnownFunctionKind::ChildProcessSpawn => String::from_str("ChildProcessSpawn"),
        }
    }
}

/// The compact text of each item of `list`.
fn display_all(list: &Vec<JsValue>) -> (r: Vec<String>)
    ensures
        r.deep_view() == displays(views(list@)),
    decreases list,
{
    broadcast use lemma_displays;

    let mut out: Vec<String> = Vec::new();
    let mut i: usize = 0;
    while i < list.len()
        invariant
            i <= list.len(),
            out.len() == i,
            forall|j: int| 0 <= j < i ==> (#[trigger] out@[j])@ == list@[j]@.display(),
        decreases list.len() - i,
    {
        out.push(list[i].to_string());
        i += 1;
    }
    out
}

/// The text of each part of a concatenation as a template holds it.
fn template_all(list: &Vec<JsValue>) -> (r: Vec<String>)
    ensures
        r.deep_view() == template_parts(views(list@)),
    decreases list,
{
    broadcast use lemma_template_parts;

    let mut out: Vec<String> = Vec::new();
    let mut i: usize = 0;
    while i < list.len()
        invariant
            i <= list.len(),
            out.len() == i,
            forall|j: int|
                0 <= j < i ==> (#[trigger] out@[j])@ == template_parts(views(list@))[j],
        decreases list.len() - i,
    {
        let part = match &list[i] {
            JsValue::Constant(Literal::Str(value)) => value.clone(),
            part => wrapped("${", part.to_string().as_str(), "}"),
        };
        out.push(part);
        i += 1;
    }
    out
}

impl JsValue {
    /// The compact text of the value.
    pub fn to_string(&self) -> (r: String)
        ensures
            r@ == self@.display(),
        decreases self,
    {
        match self {
            JsValue::Constant(lit) => lit.text(),
            JsValue::Url(url) => url.clone(),
            JsValue::Array(list) => wrapped("[", join(&display_all(list), ". ").as_str(), "]"),
            JsValue::Alternatives(list) => wrapped(
                "(",
                join(&display_all(list), " | ").as_str(),
                ")",
            ),
            JsValue::FreeVar(kind) => wrapped("FreeVar(", kind.text().as_str(), ")"),
            JsValue::Variable(name) => {
                let mut out = wrapped("Variable(", name.0.as_str(), "##");
                out.append(decimal_string(name.1 as usize).as_str());
                out.append(")");
                out
            },
            JsValue::Concat(list) => wrapped("`", join(&template_all(list), "").as_str(), "`"),
            JsValue::Add(list) => wrapped("(", join(&display_all(list), " + ").as_str(), ")"),
            JsValue::Call(callee, args) => {
                let mut out = callee.to_string();
                out.append("(");
                out.append(join(&display_all(args), ", ").as_str());
                out.append(")");
                out
            },
            JsValue::Member(obj, prop) => {
                let mut out = obj.to_string();
                out.append("[");
                out.append(prop.to_string().as_str());
                out.append("]");
                out
            },
            JsValue::Module(name) => wrapped("Module(", name.as_str(), ")"),
            JsValue::Unknown(_, _) => String::from_str("???"),
            JsValue::WellKnownObject(kind) => wrapped("WellKnownObject(", kind.name(), ")"),
            JsValue::WellKnownFunction(kind) => wrapped(
                "WellKnownFunction(",
                kind.text().as_str(),
                ")",
            ),
            JsValue::Function(return_value) => wrapped(
                "Function(return = ",
                return_value.to_string().as_str(),
                ")",
            ),
            JsValue::Argument(index) => wrapped(
                "Argument(",
                decimal_string(*index).as_str(),
                ")",
            ),
        }
    }
}

} // verus!
