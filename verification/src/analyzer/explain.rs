use crate::analyzer::display::wrapped;
use crate::analyzer::{
    lemma_views, views, JsValue, JsValueView, Literal, LiteralView, WellKnownFunctionKind,
    WellKnownFunctionKindView, WellKnownObjectKind,
};
use crate::text::{decimal, decimal_string, join, joined};
use vstd::prelude::*;
use vstd::string::*;

verus! {

broadcast use lemma_views;

impl WellKnownObjectKind {
    /// The name by which programs import the object.
    pub open spec fn canonical_name(self) -> Seq<char> {
        match self {
            WellKnownObjectKind::PathModule => "path"@,
            WellKnownObjectKind::FsModule => "fs"@,
            WellKnownObjectKind::UrlModule => "url"@,
            WellKnownObjectKind::ChildProcess => "child_process"@,
        }
    }

    /// What the object is, for a reader.
    pub open spec fn explainer(self) -> Seq<char> {
        match self {
            WellKnownObjectKind::PathModule =>
                "The Node.js path module: https://nodejs.org/api/path.html"@,
            WellKnownObjectKind::FsModule =>
                "The Node.js fs module: https://nodejs.org/api/fs.html"@,
            WellKnownObjectKind::UrlModule =>
                "The Node.js url module: https://nodejs.org/api/url.html"@,
            WellKnownObjectKind::ChildProcess =>
                "The Node.js child_process module: https://nodejs.org/api/child_process.html"@,
        }
    }
}

impl WellKnownFunctionKindView {
    /// The name by which programs call the function.
    pub open spec fn canonical_name(self) -> Seq<char> {
        match self {
            WellKnownFunctionKindView::PathJoin => "path.join"@,
            WellKnownFunctionKindView::Import => "import"@,
            WellKnownFunctionKindView::Require => "require"@,
            WellKnownFunctionKindView::RequireResolve => "require.resolve"@,
            WellKnownFunctionKindView::FsReadMethod(name) => "fs."@ + name,
            WellKnownFunctionKindView::PathToFileUrl => "url.pathToFileURL"@,
            WellKnownFunctionKindView::ChildProcessSpawn => "child_process.spawn"@,
        }
    }

    /// What the function is, for a reader.
    pub open spec fn explainer(self) -> Seq<char> {
        match self {
            WellKnownFunctionKindView::PathJoin =>
                "The Node.js path.join method: https://nodejs.org/api/path.html#pathjoinpaths"@,
            WellKnownFunctionKindView::Import =>
                "The dynamic import() method from the ESM specification: https://developer.mozilla.org/en-US/docs/Web/JavaScript/Reference/Statements/import#dynamic_imports"@,
            WellKnownFunctionKindView::Require => "The require method from CommonJS"@,
            WellKnownFunctionKindView::RequireResolve =>
                "The require.resolve method from CommonJS"@,
            WellKnownFunctionKindView::FsReadMethod(_) =>
                "A file reading method from the Node.js fs module: https://nodejs.org/api/fs.html"@,
            WellKnownFunctionKindView::PathToFileUrl =>
                "The Node.js url.pathToFileURL method: https://nodejs.org/api/url.html#urlpathtofileurlpath"@,
            WellKnownFunctionKindView::ChildProcessSpawn =>
                "The Node.js child_process.spawn method: https://nodejs.org/api/child_process.html#child_processspawncommand-args-options"@,
        }
    }
}

/// The reference to the hint with the number `i`.
pub open spec fn marker(i: nat) -> Seq<char> {
    "*"@ + decimal(i) + "*"@
}

/// The hint with the number `i` that says `body`.
pub open spec fn hint(i: nat, body: Seq<char>) -> Seq<char> {
    "- "@ + marker(i) + " "@ + body
}

/// A text together with the hints that it refers to and those that were there before.
pub ghost struct Explained {
    pub text: Seq<char>,
    pub hints: Seq<Seq<char>>,
}

/// Texts together with the hints that they refer to and those that were there before.
pub ghost struct ExplainedAll {
    pub texts: Seq<Seq<char>>,
    pub hints: Seq<Seq<char>>,
}

/// Explains each item of `list` in turn, each adding its hints behind those of the items
/// before it.
pub open spec fn explained_all(
    list: Seq<JsValueView>,
    hints: Seq<Seq<char>>,
    depth: nat,
) -> ExplainedAll
    decreases list, 1int,
{
    if list.len() == 0 {
        ExplainedAll { texts: Seq::empty(), hints }
    } else {
        let front = explained_all(list.drop_last(), hints, depth);
        let last = list.last().explained(front.hints, depth);
        ExplainedAll { texts: front.texts.push(last.text), hints: last.hints }
    }
}

/// Explains each part of a concatenation as a template holds it: a string as it is,
/// anything else explained between `${` and `}`.
pub open spec fn explained_parts(
    list: Seq<JsValueView>,
    hints: Seq<Seq<char>>,
    depth: nat,
) -> ExplainedAll
    decreases list, 1int,
{
    if list.len() == 0 {
        ExplainedAll { texts: Seq::empty(), hints }
    } else {
        let front = explained_parts(list.drop_last(), hints, depth);
        match list.last() {
            JsValueView::Constant(LiteralView::Str(value)) => ExplainedAll {
                texts: front.texts.push(value),
                hints: front.hints,
            },
            part => {
                let last = part.explained(front.hints, depth);
                ExplainedAll {
                    texts: front.texts.push("${"@ + last.text + "}"@),
                    hints: last.hints,
                }
            },
        }
    }
}

impl JsValueView {
    /// The text that explains the value, and `hints` with the hints that the text refers
    /// to behind them. An unknown value with a reason, and at a depth above zero a
    /// well-known object or function, is referred to a hint; what an unknown value
    /// could not analyse is explained in its hint, one level less deep.
    pub open spec fn explained(self, hints: Seq<Seq<char>>, depth: nat) -> Explained
        decreases self, 0int,
    {
        match self {
            JsValueView::Constant(lit) => Explained { text: lit.text(), hints },
            JsValueView::Array(list) => {
                let items = explained_all(list, hints, depth);
                Explained { text: "["@ + joined(items.texts, ", "@) + "]"@, hints: items.hints }
            },
            JsValueView::Url(url) => Explained { text: url, hints },
            JsValueView::Alternatives(list) => {
                let items = explained_all(list, hints, depth);
                Explained { text: "("@ + joined(items.texts, " | "@) + ")"@, hints: items.hints }
            },
            JsValueView::FreeVar(kind) => Explained {
                text: "FreeVar("@ + kind.text() + ")"@,
                hints,
            },
            JsValueView::Variable(name, _) => Explained { text: name, hints },
            JsValueView::Argument(index) => Explained {
                text: "Argument("@ + decimal(index as nat) + ")"@,
                hints,
            },
            JsValueView::Concat(list) => {
                let parts = explained_parts(list, hints, depth);
                Explained { text: "`"@ + joined(parts.texts, ""@) + "`"@, hints: parts.hints }
            },
            JsValueView::Add(list) => {
                let items = explained_all(list, hints, depth);
                Explained { text: "("@ + joined(items.texts, " + "@) + ")"@, hints: items.hints }
            },
            JsValueView::Call(callee, args) => {
                let head = callee.explained(hints, depth);
                let items = explained_all(args, head.hints, depth);
                Explained {
                    text: head.text + "("@ + joined(items.texts, ", "@) + ")"@,
                    hints: items.hints,
                }
            },
            JsValueView::Member(obj, prop) => {
                let head = obj.explained(hints, depth);
                let key = prop.explained(head.hints, depth);
                Explained { text: head.text + "["@ + key.text + "]"@, hints: key.hints }
            },
            JsValueView::Module(name) => Explained { text: "module<"@ + name + ">"@, hints },
            JsValueView::Unknown(inner, reason) => {
                if depth == 0 || reason.len() == 0 {
                    Explained { text: "???"@, hints }
                } else {
                    let i = hints.len();
                    match inner {
                        Some(inner) => {
                            let cause = inner.explained(
                                hints.push(Seq::empty()),
                                (depth - 1) as nat,
                            );
                            Explained {
                                text: marker(i),
                                hints: cause.hints.update(
                                    i as int,
                                    hint(i, cause.text + "\n  ⚠️  "@ + reason),
                                ),
                            }
                        },
                        None => Explained { text: marker(i), hints: hints.push(hint(i, reason)) },
                    }
                }
            },
            JsValueView::WellKnownObject(kind) => {
                if depth > 0 {
                    let i = hints.len();
                    Explained {
                        text: kind.canonical_name() + marker(i),
                        hints: hints.push(
                            hint(i, kind.canonical_name() + ": "@ + kind.explainer()),
                        ),
                    }
                } else {
                    Explained { text: kind.canonical_name(), hints }
                }
            },
            JsValueView::WellKnownFunction(kind) => {
                if depth > 0 {
                    let i = hints.len();
                    Explained {
                        text: kind.canonical_name() + marker(i),
                        hints: hints.push(
                            hint(i, kind.canonical_name() + ": "@ + kind.explainer()),
                        ),
                    }
                } else {
                    Explained { text: kind.canonical_name(), hints }
                }
            },
            JsValueView::Function(return_value) => Explained {
                text: "A function which returns ("@ + return_value.display() + ")"@,
                hints,
            },
        }
    }
}

impl WellKnownObjectKind {
    /// The name by which programs import the object.
    pub fn canonical(&self) -> (r: &'static str)
        ensures
            r@ == self.canonical_name(),
    {
        match self {
            WellKnownObjectKind::PathModule => "path",
            WellKnownObjectKind::FsModule => "fs",
            WellKnownObjectKind::UrlModule => "url",
            WellKnownObjectKind::ChildProcess => "child_process",
        }
    }

    /// What the object is, for a reader.
    pub fn explain(&self) -> (r: &'static str)
        ensures
            r@ == self.explainer(),
    {
        match self {
            WellKnownObjectKind::PathModule =>
                "The Node.js path module: https://nodejs.org/api/path.html",
            WellKnownObjectKind::FsModule =>
                "The Node.js fs module: https://nodejs.org/api/fs.html",
            WellKnownObjectKind::UrlModule =>
                "The Node.js url module: https://nodejs.org/api/url.html",
            WellKnownObjectKind::ChildProcess =>
                "The Node.js child_process module: https://nodejs.org/api/child_process.html",
        }
    }
}

impl WellKnownFunctionKind {
    /// The name by which programs call the function.
    pub fn canonical(&self) -> (r: String)
        ensures
            r@ == self@.canonical_name(),
    {
        match self {
            WellKnownFunctionKind::PathJoin => String::from_str("path.join"),
            WellKnownFunctionKind::Import => String::from_str("import"),
            WellKnownFunctionKind::Require => String::from_str("require"),
            WellKnownFunctionKind::RequireResolve => String::from_str("require.resolve"),
            WellKnownFunctionKind::FsReadMethod(name) => {
                let mut out = String::from_str("fs.");
                out.append(name.as_str());
                out
            },
            WellKnownFunctionKind::PathToFileUrl => String::from_str("url.pathToFileURL"),
            WellKnownFunctionKind::ChildProcessSpawn => String::from_str("child_process.spawn"),
        }
    }

    /// What the function is, for a reader.
    pub fn explain(&self) -> (r: &'static str)
        ensures
            r@ == self@.explainer(),
    {
        match self {
            WellKnownFunctionKind::PathJoin =>
                "The Node.js path.join method: https://nodejs.org/api/path.html#pathjoinpaths",
            WellKnownFunctionKind::Import =>
                "The dynamic import() method from the ESM specification: https://developer.mozilla.org/en-US/docs/Web/JavaScript/Reference/Statements/import#dynamic_imports",
            WellKnownFunctionKind::Require => "The require method from CommonJS",
            WellKnownFunctionKind::RequireResolve => "The require.resolve method from CommonJS",
            WellKnownFunctionKind::FsReadMethod(_) =>
                "A file reading method from the Node.js fs module: https://nodejs.org/api/fs.html",
            WellKnownFunctionKind::PathToFileUrl =>
                "The Node.js url.pathToFileURL method: https://nodejs.org/api/url.html#urlpathtofileurlpath",
            WellKnownFunctionKind::ChildProcessSpawn =>
                "The Node.js child_process.spawn method: https://nodejs.org/api/child_process.html#child_processspawncommand-args-options",
        }
    }
}

/// The reference to the hint with the number `i`.
fn marker_string(i: usize) -> (r: String)
    ensures
        r@ == marker(i as nat),
{
    wrapped("*", decimal_string(i).as_str(), "*")
}

/// The hint with the number `i` that says `body`.
fn hint_string(i: usize, body: &str) -> (r: String)
    ensures
        r@ == hint(i as nat, body@),
{
    let mut out = wrapped("- ", marker_string(i).as_str(), " ");
    out.append(body);
    out
}

/// Explains each item of `list` in turn.
fn explain_all(list: &Vec<JsValue>, hints: &mut Vec<String>, depth: usize) -> (r: Vec<String>)
    ensures
        r.deep_view() == explained_all(views(list@), old(hints).deep_view(), depth as nat).texts,
        final(hints).deep_view() == explained_all(
            views(list@),
            old(hints).deep_view(),
            depth as nat,
        ).hints,
        old(hints).len() <= final(hints).len(),
    decreases list,
{
    let ghost all = views(list@);
    let ghost start = hints.deep_view();
    let mut out: Vec<String> = Vec::new();
    let mut i: usize = 0;
    while i < list.len()
        invariant
            i <= list.len(),
            all == views(list@),
            old(hints).len() <= hints.len(),
            out.deep_view() == explained_all(all.take(i as int), start, depth as nat).texts,
            hints.deep_view() == explained_all(all.take(i as int), start, depth as nat).hints,
        decreases list.len() - i,
    {
        proof {
            assert(all.take(i + 1).drop_last() =~= all.take(i as int));
        }
        let text = list[i].explain_internal(hints, depth);
        out.push(text);
        i += 1;
    }
    proof {
        assert(all.take(all.len() as int) =~= all);
    }
    out
}

/// Explains each part of a concatenation as a template holds it.
fn explain_parts(list: &Vec<JsValue>, hints: &mut Vec<String>, depth: usize) -> (r: Vec<String>)
    ensures
        r.deep_view() == explained_parts(
            views(list@),
            old(hints).deep_view(),
            depth as nat,
        ).texts,
        final(hints).deep_view() == explained_parts(
            views(list@),
            old(hints).deep_view(),
            depth as nat,
        ).hints,
        old(hints).len() <= final(hints).len(),
    decreases list,
{
    let ghost all = views(list@);
    let ghost start = hints.deep_view();
    let mut out: Vec<String> = Vec::new();
    let mut i: usize = 0;
    while i < list.len()
        invariant
            i <= list.len(),
            all == views(list@),
            old(hints).len() <= hints.len(),
            out.deep_view() == explained_parts(all.take(i as int), start, depth as nat).texts,
            hints.deep_view() == explained_parts(all.take(i as int), start, depth as nat).hints,
        decreases list.len() - i,
    {
        proof {
            assert(all.take(i + 1).drop_last() =~= all.take(i as int));
        }
        let text = match &list[i] {
            JsValue::Constant(Literal::Str(value)) => value.clone(),
            part => wrapped("${", part.explain_internal(hints, depth).as_str(), "}"),
        };
        out.push(text);
        i += 1;
    }
    proof {
        assert(all.take(all.len() as int) =~= all);
    }
    out
}

/// The hints as lines: each behind a line break.
pub open spec fn hint_lines(hints: Seq<Seq<char>>) -> Seq<char>
    decreases hints.len(),
{
    if hints.len() == 0 {
        Seq::empty()
    } else {
        hint_lines(hints.drop_last()) + "\n"@ + hints.last()
    }
}

/// Writes the hints as lines.
fn lines(hints: &Vec<String>) -> (r: String)
    ensures
        r@ == hint_lines(hints.deep_view()),
{
    let ghost all = hints.deep_view();
    let mut out = String::new();
    let mut i: usize = 0;
    while i < hints.len()
        invariant
            i <= hints.len(),
            all == hints.deep_view(),
            out@ == hint_lines(all.take(i as int)),
        decreases hints.len() - i,
    {
        proof {
            assert(all.take(i + 1).drop_last() =~= all.take(i as int));
        }
        out.append("\n");
        out.append(hints[i].as_str());
        i += 1;
    }
    proof {
        assert(all.take(all.len() as int) =~= all);
    }
    out
}

impl JsValue {
    /// Explains `args` as the arguments of a call: the texts with `, ` between them, and
    /// the hints that they refer to, as lines.
    pub fn explain_args(args: &Vec<JsValue>, depth: usize) -> (r: (String, String))
        ensures
            r.0@ == joined(
                explained_all(views(args@), Seq::empty(), depth as nat).texts,
                ", "@,
            ),
            r.1@ == hint_lines(explained_all(views(args@), Seq::empty(), depth as nat).hints),
    {
        let mut hints: Vec<String> = Vec::new();
        assert(hints.deep_view() =~= Seq::<Seq<char>>::empty());
        let items = explain_all(args, &mut hints, depth);
        (join(&items, ", "), lines(&hints))
    }

    /// Explains the value: the text, and the hints that it refers to, as lines.
    pub fn explain(&self, depth: usize) -> (r: (String, String))
        ensures
            r.0@ == self@.explained(Seq::empty(), depth as nat).text,
            r.1@ == hint_lines(self@.explained(Seq::empty(), depth as nat).hints),
    {
        let mut hints: Vec<String> = Vec::new();
        assert(hints.deep_view() =~= Seq::<Seq<char>>::empty());
        let text = self.explain_internal(&mut hints, depth);
        (text, lines(&hints))
    }

    /// Explains the value, and adds the hints that the text refers to behind `hints`.
    fn explain_internal(&self, hints: &mut Vec<String>, depth: usize) -> (r: String)
        ensures
            r@ == self@.explained(old(hints).deep_view(), depth as nat).text,
            final(hints).deep_view() == self@.explained(
                old(hints).deep_view(),
                depth as nat,
            ).hints,
            old(hints).len() <= final(hints).len(),
        decreases self,
    {
        match self {
            JsValue::Constant(lit) => lit.text(),
            JsValue::Array(list) => {
                let items = explain_all(list, hints, depth);
                wrapped("[", join(&items, ", ").as_str(), "]")
            },
            JsValue::Url(url) => url.clone(),
            JsValue::Alternatives(list) => {
                let items = explain_all(list, hints, depth);
                wrapped("(", join(&items, " | ").as_str(), ")")
            },
            JsValue::FreeVar(kind) => wrapped("FreeVar(", kind.text().as_str(), ")"),
            JsValue::Variable(name) => name.0.clone(),
            JsValue::Argument(index) => wrapped("Argument(", decimal_string(*index).as_str(), ")"),
            JsValue::Concat(list) => {
                let parts = explain_parts(list, hints, depth);
                wrapped("`", join(&parts, "").as_str(), "`")
            },
            JsValue::Add(list) => {
                let items = explain_all(list, hints, depth);
                wrapped("(", join(&items, " + ").as_str(), ")")
            },
            JsValue::Call(callee, args) => {
                let mut out = callee.explain_internal(hints, depth);
                let items = explain_all(args, hints, depth);
                out.append("(");
                out.append(join(&items, ", ").as_str());
                out.append(")");
                out
            },
            JsValue::Member(obj, prop) => {
                let mut out = obj.explain_internal(hints, depth);
                let key = prop.explain_internal(hints, depth);
                out.append("[");
                out.append(key.as_str());
                out.append("]");
                out
            },
            JsValue::Module(name) => wrapped("module<", name.as_str(), ">"),
            JsValue::Unknown(inner, reason) => {
                if depth == 0 || reason.is_empty() {
                    String::from_str("???")
                } else if let Some(inner) = inner {
                    let i = hints.len();
                    let ghost start = hints.deep_view();
                    hints.push(String::new());
                    assert(hints.deep_view() =~= start.push(Seq::empty()));
                    let mut body = inner.explain_internal(hints, depth - 1);
                    body.append("\n  ⚠️  ");
                    body.append(reason);
                    let line = hint_string(i, body.as_str());
                    hints[i] = line;
                    marker_string(i)
                } else {
                    let i = hints.len();
                    let line = hint_string(i, reason);
                    hints.push(line);
                    marker_string(i)
                }
            },
            JsValue::WellKnownObject(kind) => {
                if depth > 0 {
                    let i = hints.len();
                    let body = wrapped(kind.canonical(), ": ", kind.explain());
                    let line = hint_string(i, body.as_str());
                    hints.push(line);
                    let mut out = String::from_str(kind.canonical());
                    out.append(marker_string(i).as_str());
                    out
                } else {
                    String::from_str(kind.canonical())
                }
            },
            JsValue::WellKnownFunction(kind) => {
                let name = kind.canonical();
                if depth > 0 {
                    let i = hints.len();
                    let body = wrapped(name.as_str(), ": ", kind.explain());
                    let line = hint_string(i, body.as_str());
                    hints.push(line);
                    let mut out = name;
                    out.append(marker_string(i).as_str());
                    out
                } else {
                    name
                }
            },
            JsValue::Function(return_value) => wrapped(
                "A function which returns (",
                return_value.to_string().as_str(),
                ")",
            ),
        }
    }
}

} // verus!
