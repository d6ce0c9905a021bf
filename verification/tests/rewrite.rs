use turbopack::analyzer::builtin::{join_path, normalize_path, replace_builtin};
use turbopack::analyzer::well_known::replace_well_known;
use turbopack::analyzer::{
    FreeVarKind, JsValue, WellKnownFunctionKind, WellKnownObjectKind,
};
use turbopack::text::split_at;

fn s(text: &str) -> JsValue {
    JsValue::from(text)
}

fn path(parts: &[&str]) -> String {
    join_path(&parts.iter().map(|p| p.to_string()).collect())
}

fn member(object: WellKnownObjectKind, name: &str) -> JsValue {
    JsValue::Member(Box::new(JsValue::WellKnownObject(object)), Box::new(s(name)))
}

fn call(function: WellKnownFunctionKind, args: Vec<JsValue>) -> JsValue {
    JsValue::Call(Box::new(JsValue::WellKnownFunction(function)), args)
}

#[test]
fn splitting_a_text() {
    assert_eq!(split_at("", '/'), vec![""]);
    assert_eq!(split_at("a", '/'), vec!["a"]);
    assert_eq!(split_at("a/b", '/'), vec!["a", "b"]);
    assert_eq!(split_at("/a//b/", '/'), vec!["", "a", "", "b", ""]);
    assert_eq!(split_at("//", '/'), vec!["", "", ""]);
}

#[test]
fn joining_paths() {
    assert_eq!(path(&["a", "b"]), "a/b");
    assert_eq!(path(&["/foo", "bar", "baz/asdf", "quux", ".."]), "/foo/bar/baz/asdf");
    assert_eq!(path(&["a/", "b/"]), "a/b/");
    assert_eq!(path(&["a", ""]), "a");
    assert_eq!(path(&["", "a", "", "b"]), "a/b");
    assert_eq!(path(&["a//b"]), "a/b");
    assert_eq!(path(&["a", "/b"]), "a/b");
}

#[test]
fn joining_nothing_gives_the_current_directory() {
    assert_eq!(path(&[]), ".");
    assert_eq!(path(&["", ""]), ".");
    assert_eq!(path(&["."]), ".");
    assert_eq!(path(&["a", ".."]), ".");
}

#[test]
fn single_dots_are_collapsed() {
    assert_eq!(path(&["./a"]), "a");
    assert_eq!(path(&["a/."]), "a");
    assert_eq!(path(&["a/./"]), "a/");
    assert_eq!(path(&["./"]), "./");
    assert_eq!(path(&["a", ".", "b"]), "a/b");
}

#[test]
fn double_dots_are_collapsed_where_possible() {
    assert_eq!(path(&["a", "b", ".."]), "a");
    assert_eq!(path(&["a", "..", ".."]), "..");
    assert_eq!(path(&["..", "a"]), "../a");
    assert_eq!(path(&["../..", "x"]), "../../x");
    assert_eq!(path(&["a/b/../../.."]), "..");
    assert_eq!(path(&["a/../b/../c"]), "c");
    assert_eq!(path(&["../"]), "../");
}

#[test]
fn nothing_leads_above_the_root() {
    assert_eq!(path(&["/"]), "/");
    assert_eq!(path(&["/", ".."]), "/");
    assert_eq!(path(&["/a/../.."]), "/");
    assert_eq!(path(&["/..", "a"]), "/a");
    assert_eq!(path(&["/a/"]), "/a/");
}

#[test]
fn the_shortest_form_of_a_path() {
    assert_eq!(normalize_path(""), ".");
    assert_eq!(normalize_path("a/b/../c/./d"), "a/c/d");
    assert_eq!(normalize_path("/a//b/"), "/a/b/");
    assert_eq!(normalize_path("..."), "...");
    assert_eq!(normalize_path(".../.."), ".");
}

#[test]
fn modules_that_are_well_known() {
    for (name, kind) in [
        ("path", WellKnownObjectKind::PathModule),
        ("fs", WellKnownObjectKind::FsModule),
        ("url", WellKnownObjectKind::UrlModule),
        ("child_process", WellKnownObjectKind::ChildProcess),
    ] {
        assert_eq!(
            replace_well_known(JsValue::Module(name.to_string())),
            (JsValue::WellKnownObject(kind), true)
        );
    }
    assert_eq!(
        replace_well_known(JsValue::Module("paths".to_string())),
        (JsValue::Module("paths".to_string()), false)
    );
    assert_eq!(
        replace_well_known(JsValue::Module("".to_string())),
        (JsValue::Module("".to_string()), false)
    );
}

#[test]
fn members_that_are_well_known() {
    assert_eq!(
        replace_well_known(member(WellKnownObjectKind::PathModule, "join")),
        (JsValue::WellKnownFunction(WellKnownFunctionKind::PathJoin), true)
    );
    assert_eq!(
        replace_well_known(member(WellKnownObjectKind::FsModule, "readFileSync")),
        (
            JsValue::WellKnownFunction(WellKnownFunctionKind::FsReadMethod(
                "readFileSync".to_string()
            )),
            true
        )
    );
    assert_eq!(
        replace_well_known(member(WellKnownObjectKind::UrlModule, "pathToFileURL")),
        (JsValue::WellKnownFunction(WellKnownFunctionKind::PathToFileUrl), true)
    );
    assert_eq!(
        replace_well_known(member(WellKnownObjectKind::ChildProcess, "spawn")),
        (JsValue::WellKnownFunction(WellKnownFunctionKind::ChildProcessSpawn), true)
    );
}

#[test]
fn members_that_are_not_well_known() {
    for v in [
        member(WellKnownObjectKind::PathModule, "resolve"),
        member(WellKnownObjectKind::UrlModule, "join"),
        member(WellKnownObjectKind::ChildProcess, "exec"),
        JsValue::Member(
            Box::new(JsValue::WellKnownObject(WellKnownObjectKind::FsModule)),
            Box::new(JsValue::Argument(0)),
        ),
        JsValue::Member(Box::new(JsValue::Module("path".to_string())), Box::new(s("join"))),
    ] {
        assert_eq!(replace_well_known(v.clone()), (v, false));
    }
}

#[test]
fn free_variables_that_are_well_known() {
    assert_eq!(
        replace_well_known(JsValue::FreeVar(FreeVarKind::Require)),
        (JsValue::WellKnownFunction(WellKnownFunctionKind::Require), true)
    );
    assert_eq!(
        replace_well_known(JsValue::FreeVar(FreeVarKind::Import)),
        (JsValue::WellKnownFunction(WellKnownFunctionKind::Import), true)
    );
    assert_eq!(
        replace_well_known(JsValue::FreeVar(FreeVarKind::RequireResolve)),
        (JsValue::WellKnownFunction(WellKnownFunctionKind::RequireResolve), true)
    );
    for v in [
        JsValue::FreeVar(FreeVarKind::Dirname),
        JsValue::FreeVar(FreeVarKind::Other("require".to_string())),
        s("require"),
        JsValue::default(),
    ] {
        assert_eq!(replace_well_known(v.clone()), (v, false));
    }
}

#[test]
fn path_join_of_strings_is_folded() {
    assert_eq!(
        replace_builtin(call(WellKnownFunctionKind::PathJoin, vec![s("a"), s("b")])),
        (s("a/b"), true)
    );
    assert_eq!(replace_builtin(call(WellKnownFunctionKind::PathJoin, vec![])), (s("."), true));
    assert_eq!(
        replace_builtin(call(WellKnownFunctionKind::PathJoin, vec![s("/x/y"), s("../z")])),
        (s("/x/z"), true)
    );
}

#[test]
fn require_of_a_string_is_the_module() {
    assert_eq!(
        replace_builtin(call(WellKnownFunctionKind::Require, vec![s("path")])),
        (JsValue::Module("path".to_string()), true)
    );
}

#[test]
fn other_calls_are_left_as_they_are() {
    let x = JsValue::Variable(("x".to_string(), 0));
    for v in [
        call(WellKnownFunctionKind::PathJoin, vec![s("a"), x.clone()]),
        call(WellKnownFunctionKind::PathJoin, vec![JsValue::default()]),
        call(WellKnownFunctionKind::Require, vec![]),
        call(WellKnownFunctionKind::Require, vec![s("a"), s("b")]),
        call(WellKnownFunctionKind::Require, vec![JsValue::Alternatives(vec![s("./x"), s("./y")])]),
        call(WellKnownFunctionKind::RequireResolve, vec![s("a")]),
        call(WellKnownFunctionKind::Import, vec![s("a")]),
        call(WellKnownFunctionKind::FsReadMethod("readFile".to_string()), vec![s("a")]),
        JsValue::Call(Box::new(JsValue::FreeVar(FreeVarKind::Require)), vec![s("a")]),
        JsValue::WellKnownFunction(WellKnownFunctionKind::PathJoin),
        s("a"),
    ] {
        assert_eq!(replace_builtin(v.clone()), (v, false));
    }
}
