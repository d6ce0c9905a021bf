use crate::analyzer::table::{key_of, same_key, Key};
use crate::analyzer::{
    lemma_views, views, FreeVarKind, FreeVarKindView, Id, JsValue, JsValueView, Literal,
    LiteralView,
};
use crate::text::same_text;
use vstd::prelude::*;
use vstd::string::*;

verus! {

broadcast use lemma_views;

/// An expression of the analysed program, with every identifier resolved to the key of
/// what it names.
#[derive(Debug)]
pub enum Expr {
    /// A literal.
    Lit(Literal),
    /// A reference to what `key` names.
    Ident(Id),
    /// A template literal: the texts `quasis`, with `exprs` between each two of them.
    Tpl(Vec<String>, Vec<Expr>),
    /// `left + right`
    Add(Box<Expr>, Box<Expr>),
    /// An array literal.
    Array(Vec<Expr>),
    /// `callee(args)`
    Call(Box<Expr>, Vec<Expr>),
    /// `obj[prop]`, and `obj.name` with the name as a string literal for `prop`.
    Member(Box<Expr>, Box<Expr>),
    /// `test ? consequent : alternate`
    Cond(Box<Expr>, Box<Expr>, Box<Expr>),
    /// A function, by the keys of its parameters and the expressions that it returns.
    Function(Vec<Id>, Vec<Expr>),
    /// An expression that the analysis does not follow, with the reason.
    Unsupported(&'static str),
}

/// The mathematical value of an [`Expr`].
pub ghost enum ExprView {
    Lit(LiteralView),
    Ident(Key),
    Tpl(Seq<Seq<char>>, Seq<ExprView>),
    Add(Box<ExprView>, Box<ExprView>),
    Array(Seq<ExprView>),
    Call(Box<ExprView>, Seq<ExprView>),
    Member(Box<ExprView>, Box<ExprView>),
    Cond(Box<ExprView>, Box<ExprView>, Box<ExprView>),
    Function(Seq<Key>, Seq<ExprView>),
    Unsupported(Seq<char>),
}

/// The values of a list of keys.
pub open spec fn keys_of(list: Seq<Id>) -> Seq<Key> {
    Seq::new(list.len(), |i: int| key_of(list[i]))
}

/// The values of a list of expressions, one by one.
pub open spec fn exprs_of(list: Seq<Expr>) -> Seq<ExprView>
    decreases list, 1int,
{
    Seq::new(
        list.len(),
        |i: int|
            if 0 <= i < list.len() {
                expr_of(list[i])
            } else {
                arbitrary()
            },
    )
}

/// The value of an expression.
pub open spec fn expr_of(expr: Expr) -> ExprView
    decreases expr, 0int,
{
    match expr {
        Expr::Lit(lit) => ExprView::Lit(lit@),
        Expr::Ident(id) => ExprView::Ident(key_of(id)),
        Expr::Tpl(quasis, exprs) => ExprView::Tpl(quasis.deep_view(), exprs_of(exprs@)),
        Expr::Add(left, right) => ExprView::Add(
            Box::new(expr_of(*left)),
            Box::new(expr_of(*right)),
        ),
        Expr::Array(items) => ExprView::Array(exprs_of(items@)),
        Expr::Call(callee, args) => ExprView::Call(Box::new(expr_of(*callee)), exprs_of(args@)),
        Expr::Member(obj, prop) => ExprView::Member(
            Box::new(expr_of(*obj)),
            Box::new(expr_of(*prop)),
        ),
        Expr::Cond(test, consequent, alternate) => ExprView::Cond(
            Box::new(expr_of(*test)),
            Box::new(expr_of(*consequent)),
            Box::new(expr_of(*alternate)),
        ),
        Expr::Function(params, results) => ExprView::Function(
            keys_of(params@),
            exprs_of(results@),
        ),
        Expr::Unsupported(reason) => ExprView::Unsupported(reason@),
    }
}

impl View for Expr {
    type V = ExprView;

    open spec fn view(&self) -> ExprView {
        expr_of(*self)
    }
}

/// The value of a list of expressions has the value of each item at the item's place.
pub broadcast proof fn lemma_exprs_of(list: Seq<Expr>)
    ensures
        #![trigger exprs_of(list)]
        exprs_of(list).len() == list.len(),
        forall|i: int| 0 <= i < list.len() ==> (#[trigger] exprs_of(list)[i]) == expr_of(list[i]),
{
}

/// What the evaluation of expressions knows of the program: the keys that are bound at
/// top level, and the tag of the top-level scope.
pub struct EvalContext {
    pub bindings: Vec<Id>,
    pub top_level_mark: u32,
}

/// The mathematical value of an [`EvalContext`].
pub ghost struct EvalContextView {
    pub bindings: Set<Key>,
    pub top_level_mark: u32,
}

impl View for EvalContext {
    type V = EvalContextView;

    open spec fn view(&self) -> EvalContextView {
        EvalContextView {
            bindings: keys_of(self.bindings@).to_set(),
            top_level_mark: self.top_level_mark,
        }
    }
}

/// Whether `key` is among `keys`.
pub fn has_key(keys: &Vec<Id>, key: &Id) -> (r: bool)
    ensures
        r == keys_of(keys@).contains(key_of(*key)),
{
    let mut i: usize = 0;
    while i < keys.len()
        invariant
            i <= keys.len(),
            forall|j: int| 0 <= j < i ==> (#[trigger] keys_of(keys@)[j]) != key_of(*key),
        decreases keys.len() - i,
    {
        if same_key(&keys[i], key) {
            assert(keys_of(keys@)[i as int] == key_of(*key));
            return true;
        }
        i += 1;
    }
    false
}

/// Whether a reference to `key` is unresolved: it stands in the top-level scope, and
/// nothing at top level binds it.
pub open spec fn unresolved(key: Key, bindings: Set<Key>, top_level_mark: u32) -> bool {
    key.1 == top_level_mark && !bindings.contains(key)
}

/// Whether a reference to `ident` is unresolved: it stands in the top-level scope, and
/// nothing at top level binds it.
pub fn is_unresolved(ident: &Id, bindings: &Vec<Id>, top_level_mark: u32) -> (r: bool)
    ensures
        r == unresolved(key_of(*ident), keys_of(bindings@).to_set(), top_level_mark),
{
    if ident.1 != top_level_mark {
        return false;
    }
    !has_key(bindings, ident)
}

/// The kind of free variable that the name of an unresolved reference stands for.
pub open spec fn free_var(name: Seq<char>) -> FreeVarKindView {
    if name == "__dirname"@ {
        FreeVarKindView::Dirname
    } else if name == "require"@ {
        FreeVarKindView::Require
    } else if name == "import"@ {
        FreeVarKindView::Import
    } else {
        FreeVarKindView::Other(name)
    }
}

/// The first place of `key` in `keys`, or the length of `keys` where it has none.
pub open spec fn first_place(keys: Seq<Key>, key: Key) -> nat
    decreases keys.len(),
{
    if keys.len() == 0 || keys[0] == key {
        0
    } else {
        1 + first_place(keys.skip(1), key)
    }
}

/// What a reference to `key` stands for: the parameter of the enclosing function at its
/// place, a free variable where the reference is unresolved, else the binding.
pub open spec fn reference(key: Key, context: EvalContextView, params: Seq<Key>) -> JsValueView {
    if params.contains(key) {
        JsValueView::Argument(first_place(params, key) as usize)
    } else if unresolved(key, context.bindings, context.top_level_mark) {
        JsValueView::FreeVar(free_var(key.0))
    } else {
        JsValueView::Variable(key.0, key.1)
    }
}

/// The parts of a template: the texts as string literals, with the values between each
/// two of them.
pub open spec fn woven(quasis: Seq<Seq<char>>, values: Seq<JsValueView>) -> Seq<JsValueView>
    decreases quasis.len() + values.len(),
{
    if quasis.len() == 0 {
        values
    } else if values.len() == 0 {
        Seq::new(quasis.len(), |i: int| JsValueView::string(quasis[i]))
    } else {
        seq![JsValueView::string(quasis[0]), values[0]] + woven(quasis.skip(1), values.skip(1))
    }
}

/// Whether `expr` is `require.resolve`, with `require` unresolved.
pub open spec fn is_require_resolve(
    obj: ExprView,
    prop: ExprView,
    context: EvalContextView,
    params: Seq<Key>,
) -> bool {
    &&& obj matches ExprView::Ident(key)
    &&& reference(key, context, params) == JsValueView::FreeVar(FreeVarKindView::Require)
    &&& prop == ExprView::Lit(LiteralView::Str("resolve"@))
}

/// What each expression of `list` stands for.
pub open spec fn evaluated_all(
    list: Seq<ExprView>,
    context: EvalContextView,
    params: Seq<Key>,
) -> Seq<JsValueView>
    decreases list, 1int,
{
    Seq::new(
        list.len(),
        |i: int|
            if 0 <= i < list.len() {
                list[i].evaluated(context, params)
            } else {
                arbitrary()
            },
    )
}

impl ExprView {
    /// The symbolic value that the expression stands for, inside a function with the
    /// parameters `params`:
    /// - a literal is a constant, and a reference is what [`reference`] says;
    /// - a template is the concatenation of its parts, and `+` is a sum of two;
    /// - an array, a call and a member are that of what their parts stand for, but
    ///   `require.resolve` is the free variable of that kind;
    /// - a conditional is what either branch stands for;
    /// - a function is a function that returns one of what it returns, seen with its own
    ///   parameters;
    /// - everything else is unknown, with the reason.
    pub open spec fn evaluated(self, context: EvalContextView, params: Seq<Key>) -> JsValueView
        decreases self, 0int,
    {
        match self {
            ExprView::Lit(lit) => JsValueView::Constant(lit),
            ExprView::Ident(key) => reference(key, context, params),
            ExprView::Tpl(quasis, exprs) => JsValueView::Concat(
                woven(quasis, evaluated_all(exprs, context, params)),
            ),
            ExprView::Add(left, right) => JsValueView::Add(
                seq![left.evaluated(context, params), right.evaluated(context, params)],
            ),
            ExprView::Array(items) => JsValueView::Array(evaluated_all(items, context, params)),
            ExprView::Call(callee, args) => JsValueView::Call(
                Box::new(callee.evaluated(context, params)),
                evaluated_all(args, context, params),
            ),
            ExprView::Member(obj, prop) => if is_require_resolve(*obj, *prop, context, params) {
                JsValueView::FreeVar(FreeVarKindView::RequireResolve)
            } else {
                JsValueView::Member(
                    Box::new(obj.evaluated(context, params)),
                    Box::new(prop.evaluated(context, params)),
                )
            },
            ExprView::Cond(_, consequent, alternate) => consequent.evaluated(
                context,
                params,
            ).with_alt(alternate.evaluated(context, params)),
            ExprView::Function(own, results) => JsValueView::Function(
                Box::new(JsValueView::Alternatives(evaluated_all(results, context, own))),
            ),
            ExprView::Unsupported(reason) => JsValueView::Unknown(None, reason),
        }
    }
}

/// What a list of expressions stands for is what each stands for, at its place.
pub broadcast proof fn lemma_evaluated_all(
    list: Seq<ExprView>,
    context: EvalContextView,
    params: Seq<Key>,
)
    ensures
        #![trigger evaluated_all(list, context, params)]
        evaluated_all(list, context, params).len() == list.len(),
        forall|i: int|
            0 <= i < list.len() ==> (#[trigger] evaluated_all(list, context, params)[i])
                == list[i].evaluated(context, params),
{
}

/// The first place of `key` in `keys`, if it has one.
fn place_of(keys: &Vec<Id>, key: &Id) -> (r: Option<usize>)
    ensures
        r is Some <==> keys_of(keys@).contains(key_of(*key)),
        r is Some ==> r->0 == first_place(keys_of(keys@), key_of(*key)),
{
    let ghost all = keys_of(keys@);
    let mut i: usize = 0;
    assert(all.skip(0) =~= all);
    while i < keys.len()
        invariant
            i <= keys.len(),
            all == keys_of(keys@),
            forall|j: int| 0 <= j < i ==> (#[trigger] all[j]) != key_of(*key),
            first_place(all, key_of(*key)) == i + first_place(all.skip(i as int), key_of(*key)),
        decreases keys.len() - i,
    {
        if same_key(&keys[i], key) {
            return Some(i);
        }
        assert(all.skip(i as int).skip(1) =~= all.skip(i + 1));
        i += 1;
    }
    None
}

/// The kind of free variable that the name of an unresolved reference stands for.
fn free_var_kind(name: &str) -> (r: FreeVarKind)
    ensures
        r@ == free_var(name@),
{
    if same_text(name, "__dirname") {
        FreeVarKind::Dirname
    } else if same_text(name, "require") {
        FreeVarKind::Require
    } else if same_text(name, "import") {
        FreeVarKind::Import
    } else {
        FreeVarKind::Other(String::from_str(name))
    }
}

/// The parts of a template.
fn weave(quasis: &Vec<String>, values: Vec<JsValue>) -> (r: Vec<JsValue>)
    ensures
        views(r@) == woven(quasis.deep_view(), views(values@)),
{
    let ghost texts = quasis.deep_view();
    let ghost all = views(values@);
    let mut out: Vec<JsValue> = Vec::new();
    let mut i: usize = 0;
    assert(texts.skip(0) =~= texts);
    assert(all.skip(0) =~= all);
    for value in it: values
        invariant
            it.seq() == values@,
            all == views(values@),
            texts == quasis.deep_view(),
            i <= quasis.len(),
            i <= it.index(),
            i < quasis.len() ==> i == it.index(),
            views(out@) + woven(texts.skip(i as int), all.skip(it.index() as int)) == woven(
                texts,
                all,
            ),
    {
        let ghost n = it.index() as int;
        let ghost rest_texts = texts.skip(i as int);
        let ghost rest = all.skip(n);
        proof {
            assert(rest.skip(1) =~= all.skip(n + 1));
        }
        if i < quasis.len() {
            let text = JsValue::Constant(Literal::Str(quasis[i].clone()));
            proof {
                assert(rest_texts.skip(1) =~= texts.skip(i + 1));
            }
            out.push(text);
            out.push(value);
            i += 1;
        } else {
            out.push(value);
        }
    }
    let ghost rest = all.skip(all.len() as int);
    while i < quasis.len()
        invariant
            i <= quasis.len(),
            texts == quasis.deep_view(),
            rest.len() == 0,
            views(out@) + woven(texts.skip(i as int), rest) == woven(texts, all),
        decreases quasis.len() - i,
    {
        let text = JsValue::Constant(Literal::Str(quasis[i].clone()));
        out.push(text);
        i += 1;
    }
    out
}

impl EvalContext {
    /// What a reference to `key` stands for, inside a function with the parameters
    /// `params`.
    fn refer(&self, key: &Id, params: &Vec<Id>) -> (r: JsValue)
        ensures
            r@ == reference(key_of(*key), self@, keys_of(params@)),
    {
        match place_of(params, key) {
            Some(place) => JsValue::Argument(place),
            None => {
                if is_unresolved(key, &self.bindings, self.top_level_mark) {
                    JsValue::FreeVar(free_var_kind(key.0.as_str()))
                } else {
                    JsValue::Variable((key.0.clone(), key.1))
                }
            },
        }
    }

    /// What each expression of `list` stands for.
    fn eval_all(&self, list: &Vec<Expr>, params: &Vec<Id>) -> (r: Vec<JsValue>)
        ensures
            views(r@) == evaluated_all(exprs_of(list@), self@, keys_of(params@)),
        decreases list,
    {
        broadcast use {lemma_evaluated_all, lemma_exprs_of};

        let mut out: Vec<JsValue> = Vec::new();
        let mut i: usize = 0;
        while i < list.len()
            invariant
                i <= list.len(),
                out.len() == i,
                forall|j: int|
                    0 <= j < i ==> (#[trigger] out@[j])@ == list@[j]@.evaluated(
                        self@,
                        keys_of(params@),
                    ),
            decreases list.len() - i,
        {
            out.push(self.eval_in(&list[i], params));
            i += 1;
        }
        out
    }

    /// The symbolic value that `expr` stands for, inside a function with the parameters
    /// `params`.
    pub fn eval_in(&self, expr: &Expr, params: &Vec<Id>) -> (r: JsValue)
        ensures
            r@ == expr@.evaluated(self@, keys_of(params@)),
        decreases expr,
    {
        match expr {
            Expr::Lit(lit) => JsValue::Constant(lit.clone()),
            Expr::Ident(key) => self.refer(key, params),
            Expr::Tpl(quasis, exprs) => {
                JsValue::Concat(weave(quasis, self.eval_all(exprs, params)))
            },
            Expr::Add(left, right) => {
                let mut operands: Vec<JsValue> = Vec::new();
                operands.push(self.eval_in(left, params));
                operands.push(self.eval_in(right, params));
                assert(views(operands@) =~= seq![operands@[0]@, operands@[1]@]);
                JsValue::Add(operands)
            },
            Expr::Array(items) => {
                JsValue::Array(self.eval_all(items, params))
            },
            Expr::Call(callee, args) => {
                JsValue::Call(Box::new(self.eval_in(callee, params)), self.eval_all(args, params))
            },
            Expr::Member(obj, prop) => {
                assert(*expr@->Member_0 == obj@ && *expr@->Member_1 == prop@);
                let resolve = match (&**obj, &**prop) {
                    (Expr::Ident(key), Expr::Lit(Literal::Str(name))) => {
                        if same_text(name.as_str(), "resolve") {
                            match self.refer(key, params) {
                                JsValue::FreeVar(FreeVarKind::Require) => true,
                                _ => false,
                            }
                        } else {
                            false
                        }
                    },
                    _ => false,
                };
                if resolve {
                    JsValue::FreeVar(FreeVarKind::RequireResolve)
                } else {
                    JsValue::Member(
                        Box::new(self.eval_in(obj, params)),
                        Box::new(self.eval_in(prop, params)),
                    )
                }
            },
            Expr::Cond(_, consequent, alternate) => {
                let mut value = self.eval_in(consequent, params);
                value.add_alt(self.eval_in(alternate, params));
                value
            },
            Expr::Function(own, results) => {
                let returned = JsValue::Alternatives(self.eval_all(results, own));
                assert(returned@ is Alternatives);
                JsValue::Function(Box::new(returned))
            },
            Expr::Unsupported(reason) => JsValue::Unknown(None, *reason),
        }
    }

    /// The symbolic value that `expr` stands for at top level.
    pub fn eval(&self, expr: &Expr) -> (r: JsValue)
        ensures
            r@ == expr@.evaluated(self@, Seq::empty()),
    {
        let params: Vec<Id> = Vec::new();
        assert(keys_of(params@) =~= Seq::<Key>::empty());
        self.eval_in(expr, &params)
    }
}

} // verus!
