use turbopack::analyzer::builtin::replace_builtin;
use turbopack::analyzer::graph::VarGraph;
use turbopack::analyzer::linker::{LinkCache, LinkStep, Linker};
use turbopack::analyzer::linking::link as link_in_rounds;
use turbopack::analyzer::well_known::replace_well_known;
use turbopack::analyzer::{
    FreeVarKind, Id, JsValue, Literal, WellKnownFunctionKind, WellKnownObjectKind,
};

fn s(text: &str) -> JsValue {
    JsValue::from(text)
}

fn key(name: &str) -> Id {
    (name.to_string(), 1)
}

fn var(name: &str) -> JsValue {
    JsValue::Variable(key(name))
}

fn call(callee: JsValue, args: Vec<JsValue>) -> JsValue {
    JsValue::Call(Box::new(callee), args)
}

fn member(object: JsValue, name: &str) -> JsValue {
    JsValue::Member(Box::new(object), Box::new(s(name)))
}

fn cyclic(name: &str) -> JsValue {
    JsValue::Unknown(Some(Box::new(var(name))), "cyclic variable reference")
}

fn graph(bindings: Vec<(&str, JsValue)>) -> VarGraph {
    let mut graph = VarGraph::new();
    for (name, value) in bindings {
        graph.add(key(name), value);
    }
    graph
}

fn link_with(
    graph: &VarGraph,
    value: JsValue,
    cache: &mut LinkCache,
    visitor: &mut dyn FnMut(JsValue) -> (JsValue, bool),
) -> JsValue {
    let mut linker = Linker::new();
    let mut step = linker.start(graph, cache, value);
    let mut rounds = 0;
    loop {
        match step {
            LinkStep::Visit(node) => {
                rounds += 1;
                assert!(rounds < 10_000);
                let (node, modified) = visitor(node);
                step = linker.resume(graph, cache, node, modified);
            }
            LinkStep::Done(linked) => return linked,
        }
    }
}

fn well_known(value: JsValue) -> (JsValue, bool) {
    match value {
        JsValue::Call(callee, args)
            if *callee == JsValue::WellKnownFunction(WellKnownFunctionKind::RequireResolve) =>
        {
            match args.first() {
                Some(JsValue::Constant(lit)) => {
                    (JsValue::Constant(Literal::Str(lit.text() + " (resolved)")), true)
                }
                _ => (
                    JsValue::Unknown(
                        Some(Box::new(JsValue::Call(callee, args))),
                        "resolve.resolve non constant",
                    ),
                    true,
                ),
            }
        }
        JsValue::FreeVar(FreeVarKind::Dirname) => (s("__dirname"), true),
        JsValue::FreeVar(FreeVarKind::Other(name)) => (
            JsValue::Unknown(
                Some(Box::new(JsValue::FreeVar(FreeVarKind::Other(name)))),
                "unknown global",
            ),
            true,
        ),
        other => {
            let (value, first) = replace_well_known(other);
            let (value, second) = replace_builtin(value);
            (value, first || second)
        }
    }
}

fn link(graph: &VarGraph, value: JsValue) -> JsValue {
    link_with(graph, value, &mut LinkCache::new(), &mut well_known)
}

fn link_binding(graph: &VarGraph, name: &str) -> JsValue {
    let mut linked = link(graph, graph.get(&key(name)).unwrap().clone());
    linked.normalize();
    linked
}

#[test]
fn a_path_joined_through_a_required_module() {
    let g = graph(vec![
        ("p", call(JsValue::FreeVar(FreeVarKind::Require), vec![s("path")])),
        ("j", call(member(var("p"), "join"), vec![s("a"), s("b")])),
    ]);
    assert_eq!(link_binding(&g, "j"), s("a/b"));
    assert_eq!(link_binding(&g, "p"), JsValue::WellKnownObject(WellKnownObjectKind::PathModule));
}

#[test]
fn a_require_of_alternatives_stays_a_call() {
    let g = graph(vec![
        ("m", JsValue::Alternatives(vec![s("./x"), s("./y")])),
        ("r", call(JsValue::FreeVar(FreeVarKind::Require), vec![var("m")])),
    ]);
    assert_eq!(
        link_binding(&g, "r"),
        call(
            JsValue::WellKnownFunction(WellKnownFunctionKind::Require),
            vec![JsValue::Alternatives(vec![s("./x"), s("./y")])]
        )
    );
}

#[test]
fn a_binding_that_refers_to_itself() {
    let g = graph(vec![("a", var("a"))]);
    assert_eq!(link_binding(&g, "a"), cyclic("a"));
    assert_eq!(link(&g, var("a")), cyclic("a"));
}

#[test]
fn two_bindings_that_refer_to_each_other() {
    let g = graph(vec![("a", var("b")), ("b", var("a"))]);
    assert_eq!(link(&g, var("a")), cyclic("a"));
    assert_eq!(link(&g, var("b")), cyclic("b"));
    assert_eq!(link_binding(&g, "a"), cyclic("b"));
    assert_eq!(link_binding(&g, "b"), cyclic("a"));
}

#[test]
fn a_cycle_inside_a_value() {
    let g = graph(vec![("a", JsValue::Concat(vec![s("x"), var("a")]))]);
    assert_eq!(link(&g, var("a")), JsValue::Concat(vec![s("x"), cyclic("a")]));
}

#[test]
fn a_binding_that_the_graph_does_not_know() {
    let g = graph(vec![]);
    assert_eq!(
        link(&g, var("nowhere")),
        JsValue::Unknown(None, "no value of this variable analysed")
    );
    assert_eq!(
        link(&g, JsValue::Array(vec![var("nowhere"), s("a")])),
        JsValue::Array(vec![JsValue::Unknown(None, "no value of this variable analysed"), s("a")])
    );
}

#[test]
fn a_binding_is_linked_once_in_a_run() {
    let g = graph(vec![("a", s("v"))]);
    let mut seen = Vec::new();
    let mut cache = LinkCache::new();
    let linked = link_with(
        &g,
        JsValue::Array(vec![var("a"), var("a"), var("a")]),
        &mut cache,
        &mut |v: JsValue| {
            seen.push(v.to_string());
            (v, false)
        },
    );
    assert_eq!(linked, JsValue::Array(vec![s("v"), s("v"), s("v")]));
    assert_eq!(seen, vec!["\"v\"", "[\"v\". \"v\". \"v\"]"]);
    let mut again = 0;
    assert_eq!(
        link_with(&g, var("a"), &mut cache, &mut |v: JsValue| {
            again += 1;
            (v, false)
        }),
        s("v")
    );
    assert_eq!(again, 0);
}

#[test]
fn the_visitor_sees_the_children_before_the_node() {
    let g = graph(vec![("x", s("bound"))]);
    let mut seen = Vec::new();
    let value = call(member(var("x"), "k"), vec![JsValue::Function(Box::new(JsValue::Argument(0)))]);
    let linked = link_with(&g, value, &mut LinkCache::new(), &mut |v: JsValue| {
        seen.push(v.to_string());
        (v, false)
    });
    assert_eq!(
        linked,
        call(member(s("bound"), "k"), vec![JsValue::Function(Box::new(JsValue::Argument(0)))])
    );
    assert_eq!(
        seen,
        vec![
            "\"bound\"",
            "\"k\"",
            "\"bound\"[\"k\"]",
            "Argument(0)",
            "Function(return = Argument(0))",
            "\"bound\"[\"k\"](Function(return = Argument(0)))",
        ]
    );
}

#[test]
fn a_node_that_the_visitor_changed_is_linked_anew() {
    let g = graph(vec![("x", s("bound"))]);
    let mut calls = 0;
    let linked = link_with(&g, JsValue::Argument(0), &mut LinkCache::new(), &mut |v: JsValue| {
        calls += 1;
        match v {
            JsValue::Argument(0) => (JsValue::Array(vec![var("x")]), true),
            other => (other, false),
        }
    });
    assert_eq!(linked, JsValue::Array(vec![s("bound")]));
    assert_eq!(calls, 3);
}

#[test]
fn the_visitor_is_applied_until_it_changes_nothing() {
    let g = graph(vec![]);
    let linked = link_with(&g, JsValue::Argument(0), &mut LinkCache::new(), &mut |v: JsValue| {
        match v {
            JsValue::Argument(n) if n < 5 => (JsValue::Argument(n + 1), true),
            other => (other, false),
        }
    });
    assert_eq!(linked, JsValue::Argument(5));
    let (again, modified) = match linked {
        JsValue::Argument(n) if n < 5 => (JsValue::Argument(n + 1), true),
        other => (other, false),
    };
    assert_eq!((again, modified), (JsValue::Argument(5), false));
}

#[test]
fn globals_and_resolved_requests() {
    let g = graph(vec![
        ("dir", JsValue::FreeVar(FreeVarKind::Dirname)),
        (
            "file",
            call(
                JsValue::FreeVar(FreeVarKind::RequireResolve),
                vec![s("./a.js")],
            ),
        ),
        ("odd", call(JsValue::FreeVar(FreeVarKind::RequireResolve), vec![var("dir")])),
        ("other", JsValue::FreeVar(FreeVarKind::Other("process".to_string()))),
    ]);
    assert_eq!(link_binding(&g, "dir"), s("__dirname"));
    assert_eq!(link_binding(&g, "file"), s("\"./a.js\" (resolved)"));
    assert_eq!(link_binding(&g, "odd"), s("\"__dirname\" (resolved)"));
    assert_eq!(
        link_binding(&g, "other"),
        JsValue::Unknown(
            Some(Box::new(JsValue::FreeVar(FreeVarKind::Other("process".to_string())))),
            "unknown global"
        )
    );
}

#[test]
fn a_resolve_of_what_is_no_literal_is_unknown() {
    let g = graph(vec![(
        "x",
        call(JsValue::FreeVar(FreeVarKind::RequireResolve), vec![JsValue::Argument(0)]),
    )]);
    assert_eq!(
        link_binding(&g, "x"),
        JsValue::Unknown(
            Some(Box::new(call(
                JsValue::WellKnownFunction(WellKnownFunctionKind::RequireResolve),
                vec![JsValue::Argument(0)]
            ))),
            "resolve.resolve non constant"
        )
    );
}

#[test]
fn the_graph_merges_what_flows_into_a_binding() {
    let mut g = VarGraph::new();
    assert!(g.get(&key("x")).is_none());
    g.add(key("x"), s("a"));
    assert_eq!(g.get(&key("x")), Some(&s("a")));
    g.add(key("x"), s("b"));
    g.add(key("x"), s("a"));
    g.add(("x".to_string(), 2), s("other scope"));
    assert_eq!(g.get(&key("x")), Some(&JsValue::Alternatives(vec![s("a"), s("b")])));
    assert_eq!(g.get(&("x".to_string(), 2)), Some(&s("other scope")));
    assert!(g.get(&key("y")).is_none());
}

#[test]
fn a_sum_of_strings_in_the_graph() {
    let g = graph(vec![("x", JsValue::Add(vec![s("./a"), s("/b")]))]);
    let mut value = g.get(&key("x")).unwrap().clone();
    value.normalize();
    assert_eq!(value, s("./a/b"));
}

#[test]
fn a_run_that_was_given_up_leaves_no_binding_half_linked() {
    let g = graph(vec![("a", JsValue::Array(vec![var("b"), s("x")])), ("b", s("linked"))]);
    let mut cache = LinkCache::new();
    let mut linker = Linker::new();
    let mut step = linker.start(&g, &mut cache, var("a"));
    let mut rounds = 0;
    while let LinkStep::Visit(node) = step {
        rounds += 1;
        if rounds == 2 {
            break;
        }
        step = linker.resume(&g, &mut cache, node, false);
    }
    assert_eq!(link_with(&g, var("a"), &mut cache, &mut |v| (v, false)), cyclic("a"));
    let mut cache = LinkCache::new();
    let mut linker = Linker::new();
    let mut step = linker.start(&g, &mut cache, var("a"));
    let mut rounds = 0;
    while let LinkStep::Visit(node) = step {
        rounds += 1;
        if rounds == 2 {
            break;
        }
        step = linker.resume(&g, &mut cache, node, false);
    }
    cache.forget_unfinished();
    assert_eq!(
        link_with(&g, var("a"), &mut cache, &mut |v| (v, false)),
        JsValue::Array(vec![s("linked"), s("x")])
    );
}

#[test]
fn linking_in_rounds_gives_what_the_moves_give() {
    let g = graph(vec![
        ("p", call(JsValue::FreeVar(FreeVarKind::Require), vec![s("path")])),
        ("j", call(member(var("p"), "join"), vec![s("a"), s("b")])),
        ("a", var("b")),
        ("b", var("a")),
    ]);
    for name in ["p", "j", "a", "b", "nowhere"] {
        let by_moves = link(&g, var(name));
        let in_rounds =
            link_in_rounds(&g, var(name), &mut well_known, &mut LinkCache::new(), 1000);
        assert_eq!(in_rounds, Some(by_moves));
    }
}

#[test]
fn a_visitor_that_never_settles_uses_up_the_rounds() {
    let g = graph(vec![]);
    let mut asked = 0;
    let mut restless = |v: JsValue| {
        asked += 1;
        (v, true)
    };
    assert_eq!(link_in_rounds(&g, s("x"), &mut restless, &mut LinkCache::new(), 25), None);
    assert_eq!(asked, 25);
}

#[test]
fn the_rounds_count_the_calls_of_the_visitor() {
    let g = graph(vec![("x", s("bound"))]);
    let value = || JsValue::Array(vec![var("x"), s("y")]);
    let mut calm = |v: JsValue| (v, false);
    assert_eq!(link_in_rounds(&g, value(), &mut calm, &mut LinkCache::new(), 2), None);
    assert_eq!(
        link_in_rounds(&g, value(), &mut calm, &mut LinkCache::new(), 3),
        Some(JsValue::Array(vec![s("bound"), s("y")]))
    );
    assert_eq!(link_in_rounds(&g, var("x"), &mut calm, &mut LinkCache::new(), 0), None);
    assert_eq!(link_in_rounds(&g, var("nowhere"), &mut calm, &mut LinkCache::new(), 0).is_some(), true);
}

fn at_rest(value: &JsValue) -> bool {
    let mut below = true;
    value.for_each_children(&mut |child: &JsValue| below = below && at_rest(child));
    let special = matches!(
        value,
        JsValue::Unknown(_, "cyclic variable reference")
            | JsValue::Unknown(None, "no value of this variable analysed")
    );
    special
        || (below
            && !matches!(value, JsValue::Variable(_))
            && well_known(value.clone()) == (value.clone(), false))
}

#[test]
fn what_was_linked_is_at_rest() {
    let g = graph(vec![
        ("p", call(JsValue::FreeVar(FreeVarKind::Require), vec![s("path")])),
        ("j", call(member(var("p"), "join"), vec![s("a"), var("k")])),
        ("k", JsValue::Alternatives(vec![s("b"), var("missing"), var("k")])),
        ("f", JsValue::Function(Box::new(JsValue::Array(vec![var("j"), var("p")])))),
    ]);
    for name in ["p", "j", "k", "f", "missing"] {
        let linked = link(&g, var(name));
        assert!(at_rest(&linked), "{:?}", linked);
    }
    assert!(!at_rest(&var("p")));
    assert!(!at_rest(&JsValue::Array(vec![JsValue::FreeVar(FreeVarKind::Require)])));
}
