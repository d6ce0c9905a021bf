use turbopack::analyzer::{
    FreeVarKind, JsValue, Literal, WellKnownFunctionKind, WellKnownObjectKind,
};
use turbopack::text::{decimal_string, join};

fn s(text: &str) -> JsValue {
    JsValue::from(text)
}

fn var(name: &str) -> JsValue {
    JsValue::Variable((name.to_string(), 1))
}

#[test]
fn numerals() {
    assert_eq!(decimal_string(0), "0");
    assert_eq!(decimal_string(7), "7");
    assert_eq!(decimal_string(10), "10");
    assert_eq!(decimal_string(1234567890), "1234567890");
    assert_eq!(decimal_string(usize::MAX), usize::MAX.to_string());
}

#[test]
fn joining_texts() {
    let parts = |list: &[&str]| list.iter().map(|p| p.to_string()).collect::<Vec<_>>();
    assert_eq!(join(&parts(&[]), ", "), "");
    assert_eq!(join(&parts(&["a"]), ", "), "a");
    assert_eq!(join(&parts(&["a", "b", "c"]), ", "), "a, b, c");
    assert_eq!(join(&parts(&["", "b", ""]), "-"), "-b-");
    assert_eq!(join(&parts(&["a", "b"]), ""), "ab");
}

#[test]
fn literals_as_text() {
    assert_eq!(Literal::Str("a b".to_string()).text(), "\"a b\"");
    assert_eq!(Literal::Num("1.5".to_string()).text(), "1.5");
    assert_eq!(Literal::Bool(true).text(), "true");
    assert_eq!(Literal::Bool(false).text(), "false");
    assert_eq!(Literal::Null.text(), "null");
    assert_eq!(Literal::Regex("a+".to_string(), "gi".to_string()).text(), "/a+/gi");
    assert_eq!(Literal::BigInt("12".to_string()).text(), "12n");
    assert_eq!(Literal::JSXText(" a b ".to_string()).text(), " a b ");
}

#[test]
fn leaves_as_text() {
    assert_eq!(s("a").to_string(), "\"a\"");
    assert_eq!(JsValue::Url("file:///a".to_string()).to_string(), "file:///a");
    assert_eq!(JsValue::FreeVar(FreeVarKind::Dirname).to_string(), "FreeVar(Dirname)");
    assert_eq!(JsValue::FreeVar(FreeVarKind::Require).to_string(), "FreeVar(Require)");
    assert_eq!(JsValue::FreeVar(FreeVarKind::Import).to_string(), "FreeVar(Import)");
    assert_eq!(
        JsValue::FreeVar(FreeVarKind::RequireResolve).to_string(),
        "FreeVar(RequireResolve)"
    );
    assert_eq!(
        JsValue::FreeVar(FreeVarKind::Other("process".to_string())).to_string(),
        "FreeVar(Other(process))"
    );
    assert_eq!(JsValue::Variable(("x".to_string(), 12)).to_string(), "Variable(x##12)");
    assert_eq!(JsValue::Module("fs".to_string()).to_string(), "Module(fs)");
    assert_eq!(JsValue::Unknown(Some(Box::new(s("a"))), "why").to_string(), "???");
    assert_eq!(
        JsValue::WellKnownObject(WellKnownObjectKind::ChildProcess).to_string(),
        "WellKnownObject(ChildProcess)"
    );
    assert_eq!(
        JsValue::WellKnownFunction(WellKnownFunctionKind::FsReadMethod("readFile".to_string()))
            .to_string(),
        "WellKnownFunction(FsReadMethod(readFile))"
    );
    assert_eq!(
        JsValue::WellKnownFunction(WellKnownFunctionKind::PathToFileUrl).to_string(),
        "WellKnownFunction(PathToFileUrl)"
    );
    assert_eq!(JsValue::Argument(3).to_string(), "Argument(3)");
}

#[test]
fn nodes_as_text() {
    assert_eq!(JsValue::Array(vec![s("a"), var("x")]).to_string(), "[\"a\". Variable(x##1)]");
    assert_eq!(JsValue::Array(vec![]).to_string(), "[]");
    assert_eq!(JsValue::Alternatives(vec![s("a"), s("b")]).to_string(), "(\"a\" | \"b\")");
    assert_eq!(
        JsValue::Concat(vec![s("a/"), var("x"), s(".js")]).to_string(),
        "`a/${Variable(x##1)}.js`"
    );
    assert_eq!(JsValue::Add(vec![var("x"), s("a")]).to_string(), "(Variable(x##1) + \"a\")");
    assert_eq!(
        JsValue::Call(Box::new(JsValue::FreeVar(FreeVarKind::Require)), vec![s("a"), s("b")])
            .to_string(),
        "FreeVar(Require)(\"a\", \"b\")"
    );
    assert_eq!(
        JsValue::Member(Box::new(var("o")), Box::new(s("k"))).to_string(),
        "Variable(o##1)[\"k\"]"
    );
    assert_eq!(
        JsValue::Function(Box::new(JsValue::Argument(0))).to_string(),
        "Function(return = Argument(0))"
    );
}

#[test]
fn explaining_without_hints() {
    assert_eq!(s("a").explain(2), ("\"a\"".to_string(), String::new()));
    assert_eq!(var("x").explain(2), ("x".to_string(), String::new()));
    assert_eq!(
        JsValue::Array(vec![s("a"), var("x")]).explain(0),
        ("[\"a\", x]".to_string(), String::new())
    );
    assert_eq!(
        JsValue::Concat(vec![s("a/"), var("x"), s(".js")]).explain(1),
        ("`a/${x}.js`".to_string(), String::new())
    );
    assert_eq!(JsValue::Module("fs".to_string()).explain(1), ("module<fs>".to_string(), String::new()));
    assert_eq!(
        JsValue::Function(Box::new(JsValue::Argument(0))).explain(1),
        ("A function which returns (Argument(0))".to_string(), String::new())
    );
    assert_eq!(
        JsValue::Member(Box::new(var("o")), Box::new(JsValue::Add(vec![var("a"), var("b")])))
            .explain(1),
        ("o[(a + b)]".to_string(), String::new())
    );
    assert_eq!(
        JsValue::Alternatives(vec![JsValue::Argument(1), JsValue::FreeVar(FreeVarKind::Import)])
            .explain(1),
        ("(Argument(1) | FreeVar(Import))".to_string(), String::new())
    );
}

#[test]
fn an_unknown_value_is_explained_in_a_hint() {
    let v = JsValue::Unknown(None, "unsupported expression");
    assert_eq!(v.explain(1), ("*0*".to_string(), "\n- *0* unsupported expression".to_string()));
    assert_eq!(v.explain(0), ("???".to_string(), String::new()));
    assert_eq!(JsValue::Unknown(None, "").explain(3), ("???".to_string(), String::new()));
}

#[test]
fn the_cause_of_an_unknown_value_is_explained_one_level_less_deep() {
    let cause = JsValue::Unknown(None, "inner");
    let v = JsValue::Unknown(Some(Box::new(cause)), "outer");
    assert_eq!(
        v.explain(2),
        (
            "*0*".to_string(),
            "\n- *0* *1*\n  \u{26a0}\u{fe0f}  outer\n- *1* inner".to_string()
        )
    );
    assert_eq!(
        v.explain(1),
        ("*0*".to_string(), "\n- *0* ???\n  \u{26a0}\u{fe0f}  outer".to_string())
    );
}

#[test]
fn well_known_values_are_explained_by_name() {
    let path = JsValue::WellKnownObject(WellKnownObjectKind::PathModule);
    assert_eq!(path.explain(0), ("path".to_string(), String::new()));
    assert_eq!(
        path.explain(1),
        (
            "path*0*".to_string(),
            "\n- *0* path: The Node.js path module: https://nodejs.org/api/path.html".to_string()
        )
    );
    let read = JsValue::WellKnownFunction(WellKnownFunctionKind::FsReadMethod("readFile".to_string()));
    assert_eq!(read.explain(0), ("fs.readFile".to_string(), String::new()));
    assert_eq!(
        read.explain(1),
        (
            "fs.readFile*0*".to_string(),
            "\n- *0* fs.readFile: A file reading method from the Node.js fs module: https://nodejs.org/api/fs.html"
                .to_string()
        )
    );
    let require = JsValue::WellKnownFunction(WellKnownFunctionKind::Require);
    assert_eq!(
        require.explain(1),
        ("require*0*".to_string(), "\n- *0* require: The require method from CommonJS".to_string())
    );
}

#[test]
fn hints_are_numbered_in_the_order_of_the_text() {
    let v = JsValue::Call(
        Box::new(JsValue::WellKnownFunction(WellKnownFunctionKind::PathJoin)),
        vec![JsValue::Unknown(None, "first"), s("a"), JsValue::Unknown(None, "second")],
    );
    assert_eq!(
        v.explain(1),
        (
            "path.join*0*(*1*, \"a\", *2*)".to_string(),
            "\n- *0* path.join: The Node.js path.join method: https://nodejs.org/api/path.html#pathjoinpaths\n- *1* first\n- *2* second"
                .to_string()
        )
    );
}

#[test]
fn explaining_arguments() {
    let args = vec![s("a"), JsValue::Unknown(None, "why"), var("x")];
    assert_eq!(
        JsValue::explain_args(&args, 1),
        ("\"a\", *0*, x".to_string(), "\n- *0* why".to_string())
    );
    assert_eq!(JsValue::explain_args(&vec![], 1), (String::new(), String::new()));
}

#[test]
fn more_than_nine_hints() {
    let args: Vec<JsValue> = (0..11).map(|_| JsValue::Unknown(None, "x")).collect();
    let (text, hints) = JsValue::explain_args(&args, 1);
    assert!(text.ends_with("*9*, *10*"));
    assert!(hints.ends_with("\n- *9* x\n- *10* x"));
}
