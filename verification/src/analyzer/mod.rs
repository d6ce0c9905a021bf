use vstd::prelude::*;

pub mod alternatives;
pub mod builtin;
pub mod children;
pub mod convert;
pub mod copy;
pub mod display;
pub mod equality;
pub mod eval;
pub mod explain;
pub mod graph;
pub mod linker;
pub mod linking;
pub mod normal_form;
pub mod normalize;
pub mod query;
pub mod table;
pub mod terminals;
pub mod visit;
pub mod well_known;

verus! {

/// A literal of the analysed program, without its place in the source.
#[derive(Debug)]
pub enum Literal {
    /// A string, by its value.
    Str(String),
    /// A number, by its decimal text.
    Num(String),
    /// `true` or `false`.
    Bool(bool),
    /// `null`.
    Null,
    /// A regular expression, by its pattern and its flags.
    Regex(String, String),
    /// A big integer, by its decimal text.
    BigInt(String),
    /// The text between the tags of a JSX element.
    JSXText(String),
}

/// The key of a binding: its symbol and the tag of the scope that declares it.
pub type Id = (String, u32);

/// A name that the program uses and does not bind.
#[derive(Debug)]
pub enum FreeVarKind {
    /// `__dirname`
    Dirname,
    /// `require`
    Require,
    /// `import`, as in `import(..)`
    Import,
    /// `require.resolve`
    RequireResolve,
    /// Any other name.
    Other(String),
}

/// An object of the host that the analysis knows.
#[derive(Debug, Clone, Copy, PartialEq, Eq, Structural)]
pub enum WellKnownObjectKind {
    /// The module `path`.
    PathModule,
    /// The module `fs`.
    FsModule,
    /// The module `url`.
    UrlModule,
    /// The module `child_process`.
    ChildProcess,
}

/// A function of the host that the analysis knows.
#[derive(Debug)]
pub enum WellKnownFunctionKind {
    /// `path.join`
    PathJoin,
    /// `import(..)`
    Import,
    /// `require`
    Require,
    /// `require.resolve`
    RequireResolve,
    /// The method of `fs` with this name.
    FsReadMethod(String),
    /// `url.pathToFileURL`
    PathToFileUrl,
    /// `child_process.spawn`
    ChildProcessSpawn,
}

/// A symbolic approximation of the values that an expression may have when the program
/// runs.
#[derive(Debug)]
pub enum JsValue {
    /// A literal: a value that is fully known.
    Constant(Literal),
    /// An array with these items.
    Array(Vec<JsValue>),
    /// A known URL, by its serialization.
    Url(String),
    /// One of these values.
    Alternatives(Vec<JsValue>),
    /// A name that the program does not bind.
    FreeVar(FreeVarKind),
    /// What the binding with this key holds.
    Variable(Id),
    /// The string made of these parts, as a template literal makes it.
    Concat(Vec<JsValue>),
    /// The sum of these operands with `+`, which is a string if one of them is.
    Add(Vec<JsValue>),
    /// The call of a callee with arguments.
    Call(Box<JsValue>, Vec<JsValue>),
    /// The property of an object: `obj[prop]`.
    Member(Box<JsValue>, Box<JsValue>),
    /// The module with this specifier.
    Module(String),
    /// An object of the host.
    WellKnownObject(WellKnownObjectKind),
    /// A function of the host.
    WellKnownFunction(WellKnownFunctionKind),
    /// A value that the analysis cannot tell: what it could not analyse, if that is
    /// known, and the reason.
    Unknown(Option<Box<JsValue>>, &'static str),
    /// A function, known by what it returns.
    Function(Box<JsValue>),
    /// The parameter at this place of the function around it.
    Argument(usize),
}

/// The mathematical value of a [`Literal`].
pub ghost enum LiteralView {
    Str(Seq<char>),
    Num(Seq<char>),
    Bool(bool),
    Null,
    Regex(Seq<char>, Seq<char>),
    BigInt(Seq<char>),
    JSXText(Seq<char>),
}

/// The mathematical value of a [`FreeVarKind`].
pub ghost enum FreeVarKindView {
    Dirname,
    Require,
    Import,
    RequireResolve,
    Other(Seq<char>),
}

/// The mathematical value of a [`WellKnownFunctionKind`].
pub ghost enum WellKnownFunctionKindView {
    PathJoin,
    Import,
    Require,
    RequireResolve,
    FsReadMethod(Seq<char>),
    PathToFileUrl,
    ChildProcessSpawn,
}

/// The mathematical value of a [`JsValue`].
pub ghost enum JsValueView {
    Constant(LiteralView),
    Array(Seq<JsValueView>),
    Url(Seq<char>),
    Alternatives(Seq<JsValueView>),
    FreeVar(FreeVarKindView),
    Variable(Seq<char>, u32),
    Concat(Seq<JsValueView>),
    Add(Seq<JsValueView>),
    Call(Box<JsValueView>, Seq<JsValueView>),
    Member(Box<JsValueView>, Box<JsValueView>),
    Module(Seq<char>),
    WellKnownObject(WellKnownObjectKind),
    WellKnownFunction(WellKnownFunctionKindView),
    Unknown(Option<Box<JsValueView>>, Seq<char>),
    Function(Box<JsValueView>),
    Argument(usize),
}

impl View for Literal {
    type V = LiteralView;

    open spec fn view(&self) -> LiteralView {
        match self {
            Literal::Str(s) => LiteralView::Str(s@),
            Literal::Num(s) => LiteralView::Num(s@),
            Literal::Bool(b) => LiteralView::Bool(*b),
            Literal::Null => LiteralView::Null,
            Literal::Regex(exp, flags) => LiteralView::Regex(exp@, flags@),
            Literal::BigInt(s) => LiteralView::BigInt(s@),
            Literal::JSXText(s) => LiteralView::JSXText(s@),
        }
    }
}

impl View for FreeVarKind {
    type V = FreeVarKindView;

    open spec fn view(&self) -> FreeVarKindView {
        match self {
            FreeVarKind::Dirname => FreeVarKindView::Dirname,
            FreeVarKind::Require => FreeVarKindView::Require,
            FreeVarKind::Import => FreeVarKindView::Import,
            FreeVarKind::RequireResolve => FreeVarKindView::RequireResolve,
            FreeVarKind::Other(name) => FreeVarKindView::Other(name@),
        }
    }
}

impl View for WellKnownFunctionKind {
    type V = WellKnownFunctionKindView;

    open spec fn view(&self) -> WellKnownFunctionKindView {
        match self {
            WellKnownFunctionKind::PathJoin => WellKnownFunctionKindView::PathJoin,
            WellKnownFunctionKind::Import => WellKnownFunctionKindView::Import,
            WellKnownFunctionKind::Require => WellKnownFunctionKindView::Require,
            WellKnownFunctionKind::RequireResolve => WellKnownFunctionKindView::RequireResolve,
            WellKnownFunctionKind::FsReadMethod(name) => WellKnownFunctionKindView::FsReadMethod(
                name@,
            ),
            WellKnownFunctionKind::PathToFileUrl => WellKnownFunctionKindView::PathToFileUrl,
            WellKnownFunctionKind::ChildProcessSpawn => {
                WellKnownFunctionKindView::ChildProcessSpawn
            },
        }
    }
}

/// The values of a list of symbolic values, one by one.
pub open spec fn views(list: Seq<JsValue>) -> Seq<JsValueView>
    decreases list, 1int,
{
    Seq::new(
        list.len(),
        |i: int|
            if 0 <= i < list.len() {
                value_of(list[i])
            } else {
                arbitrary()
            },
    )
}

/// The value of a symbolic value: the same tree over mathematical sequences.
pub open spec fn value_of(value: JsValue) -> JsValueView
    decreases value, 0int,
{
    match value {
        JsValue::Constant(lit) => JsValueView::Constant(lit@),
        JsValue::Array(list) => JsValueView::Array(views(list@)),
        JsValue::Url(url) => JsValueView::Url(url@),
        JsValue::Alternatives(list) => JsValueView::Alternatives(views(list@)),
        JsValue::FreeVar(kind) => JsValueView::FreeVar(kind@),
        JsValue::Variable(id) => JsValueView::Variable(id.0@, id.1),
        JsValue::Concat(list) => JsValueView::Concat(views(list@)),
        JsValue::Add(list) => JsValueView::Add(views(list@)),
        JsValue::Call(callee, args) => JsValueView::Call(
            Box::new(value_of(*callee)),
            views(args@),
        ),
        JsValue::Member(obj, prop) => JsValueView::Member(
            Box::new(value_of(*obj)),
            Box::new(value_of(*prop)),
        ),
        JsValue::Module(name) => JsValueView::Module(name@),
        JsValue::WellKnownObject(kind) => JsValueView::WellKnownObject(kind),
        JsValue::WellKnownFunction(kind) => JsValueView::WellKnownFunction(kind@),
        JsValue::Unknown(inner, reason) => JsValueView::Unknown(
            match inner {
                Some(value) => Some(Box::new(value_of(*value))),
                None => None,
            },
            reason@,
        ),
        JsValue::Function(return_value) => JsValueView::Function(
            Box::new(value_of(*return_value)),
        ),
        JsValue::Argument(index) => JsValueView::Argument(index),
    }
}

/// The value of a list has the value of each item at the item's place.
pub broadcast proof fn lemma_views(list: Seq<JsValue>)
    ensures
        #![trigger views(list)]
        views(list).len() == list.len(),
        forall|i: int| 0 <= i < list.len() ==> (#[trigger] views(list)[i]) == value_of(list[i]),
{
}

impl View for JsValue {
    type V = JsValueView;

    open spec fn view(&self) -> JsValueView {
        value_of(*self)
    }
}

impl Default for JsValue {
    /// The value of which nothing is known.
    fn default() -> (r: JsValue)
        ensures
            r@ == JsValueView::Unknown(None, Seq::<char>::empty()),
    {
        let r = JsValue::Unknown(None, "");
        proof {
            reveal_strlit("");
            assert(""@ =~= Seq::<char>::empty());
        }
        r
    }
}

} // verus!
