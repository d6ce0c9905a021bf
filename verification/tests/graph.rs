use turbopack::analyzer::builtin::replace_builtin;
use turbopack::analyzer::eval::{is_unresolved, EvalContext, Expr};
use turbopack::analyzer::graph::{create_graph, VarGraph};
use turbopack::analyzer::linker::{LinkCache, LinkStep, Linker};
use turbopack::analyzer::well_known::replace_well_known;
use turbopack::analyzer::{FreeVarKind, Id, JsValue, Literal, WellKnownFunctionKind};

const TOP: u32 = 1;

fn s(text: &str) -> JsValue {
    JsValue::from(text)
}

fn top(name: &str) -> Id {
    (name.to_string(), TOP)
}

fn lit(text: &str) -> Expr {
    Expr::Lit(Literal::Str(text.to_string()))
}

fn ident(name: &str) -> Expr {
    Expr::Ident(top(name))
}

fn call(callee: Expr, args: Vec<Expr>) -> Expr {
    Expr::Call(Box::new(callee), args)
}

fn dot(object: Expr, name: &str) -> Expr {
    Expr::Member(Box::new(object), Box::new(lit(name)))
}

fn plus(left: Expr, right: Expr) -> Expr {
    Expr::Add(Box::new(left), Box::new(right))
}

fn context(bound: &[&str]) -> EvalContext {
    EvalContext { bindings: bound.iter().map(|name| top(name)).collect(), top_level_mark: TOP }
}

fn program(assignments: Vec<(&str, Expr)>) -> VarGraph {
    let bound: Vec<&str> = assignments.iter().map(|(name, _)| *name).collect();
    let list: Vec<(Id, Expr)> =
        assignments.into_iter().map(|(name, value)| (top(name), value)).collect();
    create_graph(&list, &context(&bound))
}

fn resolve(graph: &VarGraph, name: &str) -> JsValue {
    let mut cache = LinkCache::new();
    let mut linker = Linker::new();
    let mut step = linker.start(graph, &mut cache, graph.get(&top(name)).unwrap().clone());
    let mut linked = loop {
        match step {
            LinkStep::Visit(node) => {
                let (node, first) = replace_well_known(node);
                let (node, second) = replace_builtin(node);
                step = linker.resume(graph, &mut cache, node, first || second);
            }
            LinkStep::Done(linked) => break linked,
        }
    };
    linked.normalize();
    linked
}

#[test]
fn a_reference_is_unresolved_at_top_level_where_nothing_binds_it() {
    let bound = vec![top("a"), ("b".to_string(), 7)];
    assert!(is_unresolved(&top("require"), &bound, TOP));
    assert!(!is_unresolved(&top("a"), &bound, TOP));
    assert!(!is_unresolved(&("require".to_string(), 2), &bound, TOP));
    assert!(is_unresolved(&top("b"), &bound, TOP));
    assert!(!is_unresolved(&("b".to_string(), 7), &bound, 7));
    assert!(is_unresolved(&("c".to_string(), 7), &bound, 7));
}

#[test]
fn literals_and_references() {
    let c = context(&["x"]);
    assert_eq!(c.eval(&lit("a")), s("a"));
    assert_eq!(c.eval(&Expr::Lit(Literal::Bool(true))), JsValue::Constant(Literal::Bool(true)));
    assert_eq!(c.eval(&ident("x")), JsValue::Variable(top("x")));
    assert_eq!(
        c.eval(&Expr::Ident(("inner".to_string(), 5))),
        JsValue::Variable(("inner".to_string(), 5))
    );
    assert_eq!(c.eval(&ident("__dirname")), JsValue::FreeVar(FreeVarKind::Dirname));
    assert_eq!(c.eval(&ident("require")), JsValue::FreeVar(FreeVarKind::Require));
    assert_eq!(c.eval(&ident("import")), JsValue::FreeVar(FreeVarKind::Import));
    assert_eq!(
        c.eval(&ident("process")),
        JsValue::FreeVar(FreeVarKind::Other("process".to_string()))
    );
    assert_eq!(c.eval(&dot(ident("require"), "resolve")), JsValue::FreeVar(FreeVarKind::RequireResolve));
}

#[test]
fn a_bound_require_is_an_ordinary_binding() {
    let c = context(&["require"]);
    assert_eq!(c.eval(&ident("require")), JsValue::Variable(top("require")));
    assert_eq!(
        c.eval(&dot(ident("require"), "resolve")),
        JsValue::Member(Box::new(JsValue::Variable(top("require"))), Box::new(s("resolve")))
    );
    assert_eq!(
        context(&[]).eval(&dot(ident("require"), "cache")),
        JsValue::Member(Box::new(JsValue::FreeVar(FreeVarKind::Require)), Box::new(s("cache")))
    );
}

#[test]
fn templates_are_concatenations() {
    let c = context(&["x", "y"]);
    let tpl = |quasis: &[&str], exprs: Vec<Expr>| {
        Expr::Tpl(quasis.iter().map(|q| q.to_string()).collect(), exprs)
    };
    assert_eq!(c.eval(&tpl(&["a"], vec![])), JsValue::Concat(vec![s("a")]));
    assert_eq!(
        c.eval(&tpl(&["a/", ".js"], vec![ident("x")])),
        JsValue::Concat(vec![s("a/"), JsValue::Variable(top("x")), s(".js")])
    );
    assert_eq!(
        c.eval(&tpl(&["", "-", ""], vec![ident("x"), ident("y")])),
        JsValue::Concat(vec![
            s(""),
            JsValue::Variable(top("x")),
            s("-"),
            JsValue::Variable(top("y")),
            s("")
        ])
    );
    assert_eq!(c.eval(&tpl(&[], vec![])), JsValue::Concat(vec![]));
    assert_eq!(
        c.eval(&tpl(&["a"], vec![ident("x"), ident("y")])),
        JsValue::Concat(vec![s("a"), JsValue::Variable(top("x")), JsValue::Variable(top("y"))])
    );
}

#[test]
fn operators_calls_and_members() {
    let c = context(&["f", "o"]);
    let f = || JsValue::Variable(top("f"));
    let o = || JsValue::Variable(top("o"));
    assert_eq!(c.eval(&plus(ident("f"), lit("a"))), JsValue::Add(vec![f(), s("a")]));
    assert_eq!(
        c.eval(&plus(plus(ident("f"), lit("a")), lit("b"))),
        JsValue::Add(vec![JsValue::Add(vec![f(), s("a")]), s("b")])
    );
    assert_eq!(
        c.eval(&Expr::Array(vec![lit("a"), ident("o")])),
        JsValue::Array(vec![s("a"), o()])
    );
    assert_eq!(
        c.eval(&call(ident("f"), vec![lit("a"), ident("o")])),
        JsValue::Call(Box::new(f()), vec![s("a"), o()])
    );
    assert_eq!(
        c.eval(&call(dot(ident("o"), "m"), vec![])),
        JsValue::Call(Box::new(JsValue::Member(Box::new(o()), Box::new(s("m")))), vec![])
    );
    assert_eq!(
        c.eval(&Expr::Member(Box::new(ident("o")), Box::new(ident("f")))),
        JsValue::Member(Box::new(o()), Box::new(f()))
    );
}

#[test]
fn a_conditional_is_either_branch() {
    let c = context(&["t"]);
    let cond = |a: Expr, b: Expr| Expr::Cond(Box::new(ident("t")), Box::new(a), Box::new(b));
    assert_eq!(c.eval(&cond(lit("./x"), lit("./y"))), JsValue::Alternatives(vec![s("./x"), s("./y")]));
    assert_eq!(c.eval(&cond(lit("./x"), lit("./x"))), s("./x"));
    assert_eq!(
        c.eval(&cond(cond(lit("a"), lit("b")), lit("c"))),
        JsValue::Alternatives(vec![s("a"), s("b"), s("c")])
    );
}

#[test]
fn a_function_returns_one_of_what_it_returns() {
    let c = context(&["x"]);
    let function = Expr::Function(
        vec![("a".to_string(), 2), ("b".to_string(), 2)],
        vec![
            Expr::Ident(("b".to_string(), 2)),
            plus(Expr::Ident(("a".to_string(), 2)), ident("x")),
            ident("require"),
        ],
    );
    assert_eq!(
        c.eval(&function),
        JsValue::Function(Box::new(JsValue::Alternatives(vec![
            JsValue::Argument(1),
            JsValue::Add(vec![JsValue::Argument(0), JsValue::Variable(top("x"))]),
            JsValue::FreeVar(FreeVarKind::Require),
        ])))
    );
    assert_eq!(
        c.eval(&Expr::Function(vec![], vec![])),
        JsValue::Function(Box::new(JsValue::Alternatives(vec![])))
    );
}

#[test]
fn a_parameter_named_twice_is_the_first_of_them() {
    let p = ("a".to_string(), 2);
    let function = Expr::Function(vec![p.clone(), p.clone()], vec![Expr::Ident(p)]);
    assert_eq!(
        context(&[]).eval(&function),
        JsValue::Function(Box::new(JsValue::Alternatives(vec![JsValue::Argument(0)])))
    );
}

#[test]
fn an_inner_function_sees_its_own_parameters_only() {
    let outer = ("a".to_string(), 2);
    let inner = ("b".to_string(), 3);
    let function = Expr::Function(
        vec![outer.clone()],
        vec![Expr::Function(
            vec![inner.clone()],
            vec![Expr::Ident(inner), Expr::Ident(outer.clone())],
        )],
    );
    assert_eq!(
        context(&[]).eval(&function),
        JsValue::Function(Box::new(JsValue::Alternatives(vec![JsValue::Function(Box::new(
            JsValue::Alternatives(vec![JsValue::Argument(0), JsValue::Variable(outer)])
        ))])))
    );
}

#[test]
fn what_the_analysis_does_not_follow_is_unknown() {
    assert_eq!(
        context(&[]).eval(&Expr::Unsupported("spread is not supported")),
        JsValue::Unknown(None, "spread is not supported")
    );
}

#[test]
fn a_sum_of_two_strings() {
    let g = program(vec![("x", plus(lit("./a"), lit("/b")))]);
    assert_eq!(g.values.entries.len(), 1);
    assert_eq!(g.get(&top("x")), Some(&JsValue::Add(vec![s("./a"), s("/b")])));
    let mut value = g.get(&top("x")).unwrap().clone();
    value.normalize();
    assert_eq!(value, s("./a/b"));
}

#[test]
fn every_assignment_adds_an_alternative() {
    let g = program(vec![
        ("x", lit("a")),
        ("y", ident("x")),
        ("x", lit("b")),
        ("x", lit("a")),
        ("x", plus(lit("c"), lit("d"))),
    ]);
    assert_eq!(g.values.entries.len(), 2);
    assert_eq!(
        g.get(&top("x")),
        Some(&JsValue::Alternatives(vec![
            s("a"),
            s("b"),
            JsValue::Add(vec![s("c"), s("d")])
        ]))
    );
    assert_eq!(g.get(&top("y")), Some(&JsValue::Variable(top("x"))));
}

#[test]
fn values_are_recorded_as_the_expressions_give_them() {
    let g = program(vec![(
        "x",
        Expr::Tpl(vec!["a".to_string(), "".to_string()], vec![lit("b")]),
    )]);
    assert_eq!(g.get(&top("x")), Some(&JsValue::Concat(vec![s("a"), s("b"), s("")])));
    let mut value = g.get(&top("x")).unwrap().clone();
    value.normalize();
    assert_eq!(value, s("ab"));
}

#[test]
fn path_join_through_require() {
    let g = program(vec![
        ("p", call(ident("require"), vec![lit("path")])),
        ("j", call(dot(ident("p"), "join"), vec![lit("a"), lit("b")])),
    ]);
    assert_eq!(resolve(&g, "j"), s("a/b"));
}

#[test]
fn require_of_either_of_two_paths() {
    let g = program(vec![
        (
            "m",
            Expr::Cond(Box::new(ident("cond")), Box::new(lit("./x")), Box::new(lit("./y"))),
        ),
        ("r", call(ident("require"), vec![ident("m")])),
    ]);
    assert_eq!(
        resolve(&g, "r"),
        JsValue::Call(
            Box::new(JsValue::WellKnownFunction(WellKnownFunctionKind::Require)),
            vec![JsValue::Alternatives(vec![s("./x"), s("./y")])]
        )
    );
}

#[test]
fn a_declaration_initialised_with_itself() {
    let g = program(vec![("a", ident("a"))]);
    assert_eq!(
        resolve(&g, "a"),
        JsValue::Unknown(Some(Box::new(JsValue::Variable(top("a")))), "cyclic variable reference")
    );
}

#[test]
fn a_template_is_joined_only_when_the_linked_value_is_normalized() {
    let g = program(vec![
        ("path", call(ident("require"), vec![lit("path")])),
        ("name", lit("data")),
        (
            "file",
            call(
                dot(ident("path"), "join"),
                vec![
                    lit("/srv"),
                    Expr::Tpl(vec!["./".to_string(), ".json".to_string()], vec![ident("name")]),
                ],
            ),
        ),
    ]);
    let linked = resolve(&g, "file");
    assert_eq!(
        linked,
        JsValue::Call(
            Box::new(JsValue::WellKnownFunction(WellKnownFunctionKind::PathJoin)),
            vec![s("/srv"), s("./data.json")]
        )
    );
    assert_eq!(replace_builtin(linked), (s("/srv/data.json"), true));
}

#[test]
fn a_binding_is_called_by_its_symbol_where_that_is_enough() {
    let mut g = VarGraph::new();
    g.add(top("x"), s("a"));
    g.add(top("y"), s("b"));
    g.add(("y".to_string(), 12), s("c"));
    assert_eq!(g.key_name(&top("x")), "x");
    assert_eq!(g.key_name(&top("y")), "y#1");
    assert_eq!(g.key_name(&("y".to_string(), 12)), "y#12");
    assert_eq!(g.key_name(&top("z")), "z");
    assert_eq!(g.key_name(&("x".to_string(), 3)), "x#3");
}
