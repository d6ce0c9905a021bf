use turbopack::analyzer::visit::some_modified;
use turbopack::analyzer::{JsValue, WellKnownFunctionKind};

fn s(text: &str) -> JsValue {
    JsValue::from(text)
}

fn var(name: &str) -> JsValue {
    JsValue::Variable((name.to_string(), 1))
}

fn sample() -> JsValue {
    JsValue::Call(
        Box::new(var("f")),
        vec![JsValue::Array(vec![s("a"), s("b")]), JsValue::Member(Box::new(var("o")), Box::new(s("k")))],
    )
}

#[test]
fn children_are_shown_in_order() {
    let mut seen = Vec::new();
    sample().for_each_children(&mut |v: &JsValue| seen.push(v.to_string()));
    assert_eq!(seen, vec!["Variable(f##1)", "[\"a\". \"b\"]", "Variable(o##1)[\"k\"]"]);
}

#[test]
fn a_value_without_children_shows_nothing() {
    let mut seen = 0;
    for v in [s("a"), var("x"), JsValue::default(), JsValue::Argument(0), JsValue::Unknown(Some(Box::new(s("a"))), "x")] {
        v.for_each_children(&mut |_: &JsValue| seen += 1);
    }
    assert_eq!(seen, 0);
}

#[test]
fn each_kind_of_node_shows_its_children() {
    let count = |v: JsValue| {
        let mut seen = 0;
        v.for_each_children(&mut |_: &JsValue| seen += 1);
        seen
    };
    assert_eq!(count(JsValue::Alternatives(vec![s("a"), s("b")])), 2);
    assert_eq!(count(JsValue::Concat(vec![s("a"), s("b"), s("c")])), 3);
    assert_eq!(count(JsValue::Add(vec![s("a")])), 1);
    assert_eq!(count(JsValue::Array(vec![])), 0);
    assert_eq!(count(JsValue::Call(Box::new(var("f")), vec![])), 1);
    assert_eq!(count(JsValue::Function(Box::new(s("a")))), 1);
    assert_eq!(count(JsValue::Member(Box::new(var("o")), Box::new(s("k")))), 2);
}

#[test]
fn visit_shows_the_children_and_then_the_node() {
    let mut seen = Vec::new();
    let mut v = JsValue::Member(Box::new(var("o")), Box::new(s("k")));
    v.visit(&mut |v: &JsValue| seen.push(v.to_string()));
    assert_eq!(seen, vec!["Variable(o##1)", "\"k\"", "Variable(o##1)[\"k\"]"]);
    assert_eq!(v, JsValue::Member(Box::new(var("o")), Box::new(s("k"))));
}

fn upper(v: &mut JsValue) -> bool {
    if let Some(text) = v.as_str() {
        if text != text.to_uppercase() {
            *v = JsValue::from(text.to_uppercase());
            return true;
        }
    }
    false
}

#[test]
fn the_children_are_visited_in_place() {
    let mut v = JsValue::Array(vec![s("a"), var("x"), JsValue::Array(vec![s("b")])]);
    assert!(v.for_each_children_mut(&mut upper));
    assert_eq!(v, JsValue::Array(vec![s("A"), var("x"), JsValue::Array(vec![s("b")])]));
    assert!(!v.for_each_children_mut(&mut upper));
}

#[test]
fn the_callee_is_the_first_child_of_a_call() {
    let mut order = Vec::new();
    let mut v = JsValue::Call(Box::new(s("f")), vec![s("a"), s("b")]);
    let modified = v.for_each_children_mut(&mut |v: &mut JsValue| {
        order.push(v.to_string());
        upper(v)
    });
    assert!(modified);
    assert_eq!(order, vec!["\"f\"", "\"a\"", "\"b\""]);
    assert_eq!(v, JsValue::Call(Box::new(s("F")), vec![s("A"), s("B")]));
}

#[test]
fn one_modified_child_is_enough() {
    let mut v = JsValue::Member(Box::new(var("o")), Box::new(s("k")));
    assert!(v.for_each_children_mut(&mut upper));
    assert_eq!(v, JsValue::Member(Box::new(var("o")), Box::new(s("K"))));
    let mut w = JsValue::Member(Box::new(s("o")), Box::new(var("k")));
    assert!(w.for_each_children_mut(&mut upper));
    let mut f = JsValue::Function(Box::new(s("r")));
    assert!(f.for_each_children_mut(&mut upper));
    assert_eq!(f, JsValue::Function(Box::new(s("R"))));
    let mut leaf = s("a");
    assert!(!leaf.for_each_children_mut(&mut upper));
    assert_eq!(leaf, s("a"));
}

#[test]
fn visit_mut_visits_the_children_and_then_the_node() {
    let mut order = Vec::new();
    let mut v = JsValue::Array(vec![s("a"), JsValue::Array(vec![s("b")])]);
    let modified = v.visit_mut(&mut |v: &mut JsValue| {
        order.push(v.to_string());
        false
    });
    assert!(!modified);
    assert_eq!(order, vec!["\"a\"", "[\"b\"]", "[\"a\". [\"b\"]]"]);
}

#[test]
fn visit_mut_answers_for_the_node_too() {
    let mut v = s("a");
    assert!(v.visit_mut(&mut upper));
    assert_eq!(v, s("A"));
    let mut w = JsValue::Array(vec![s("a")]);
    assert!(w.visit_mut(&mut upper));
    assert!(!w.visit_mut(&mut upper));
    let mut replaced = JsValue::Array(vec![var("x")]);
    assert!(replaced.visit_mut(&mut |v: &mut JsValue| {
        if let JsValue::Array(_) = v {
            *v = JsValue::WellKnownFunction(WellKnownFunctionKind::Require);
            true
        } else {
            false
        }
    }));
    assert_eq!(replaced, JsValue::WellKnownFunction(WellKnownFunctionKind::Require));
}

#[test]
fn visit_mut_recursive_visits_each_child_twice() {
    let mut order = Vec::new();
    let mut v = JsValue::Array(vec![JsValue::Array(vec![s("a")]), s("b")]);
    let modified = v.visit_mut_recursive(&mut |v: &mut JsValue| {
        order.push(v.to_string());
        false
    });
    assert!(!modified);
    assert_eq!(
        order,
        vec!["\"a\"", "[\"a\"]", "[\"a\"]", "\"b\"", "\"b\"", "[[\"a\"]. \"b\"]"]
    );
}

#[test]
fn visit_mut_recursive_reaches_the_children_of_the_children() {
    let mut v = JsValue::Call(
        Box::new(JsValue::Member(Box::new(s("o")), Box::new(s("k")))),
        vec![JsValue::Function(Box::new(s("r")))],
    );
    assert!(v.visit_mut_recursive(&mut upper));
    assert_eq!(
        v,
        JsValue::Call(
            Box::new(JsValue::Member(Box::new(s("O")), Box::new(s("K")))),
            vec![JsValue::Function(Box::new(s("R")))],
        )
    );
    assert!(!v.visit_mut_recursive(&mut upper));
}

#[test]
fn visit_mut_recursive_goes_no_deeper_than_that() {
    let mut v = JsValue::Array(vec![JsValue::Array(vec![JsValue::Array(vec![s("deep")])])]);
    assert!(!v.visit_mut_recursive(&mut upper));
    assert_eq!(v, JsValue::Array(vec![JsValue::Array(vec![JsValue::Array(vec![s("deep")])])]));
}

#[test]
fn the_children_can_be_taken_out_and_put_back() {
    for v in [
        sample(),
        JsValue::Member(Box::new(var("o")), Box::new(s("k"))),
        JsValue::Function(Box::new(s("r"))),
        JsValue::Concat(vec![s("a"), var("x")]),
        JsValue::Alternatives(vec![]),
        s("leaf"),
    ] {
        let mut shell = v.clone();
        let children = shell.take_children();
        let mut shown = Vec::new();
        v.for_each_children(&mut |c: &JsValue| shown.push(c.clone()));
        assert_eq!(children, shown);
        shell.put_children(children);
        assert_eq!(shell, v);
    }
}

#[test]
fn other_children_can_be_put_in() {
    let mut call = sample();
    let taken = call.take_children();
    assert_eq!(taken.len(), 3);
    call.put_children(vec![var("g"), s("x")]);
    assert_eq!(call, JsValue::Call(Box::new(var("g")), vec![s("x")]));
    let mut list = JsValue::Add(vec![s("a")]);
    list.put_children(vec![]);
    assert_eq!(list, JsValue::Add(vec![]));
}

#[test]
fn the_room_of_each_kind_of_node() {
    assert!(JsValue::Array(vec![]).has_room(0));
    assert!(JsValue::Concat(vec![]).has_room(7));
    assert!(!sample().has_room(0));
    assert!(sample().has_room(1));
    assert!(sample().has_room(4));
    let function = JsValue::Function(Box::new(s("r")));
    assert!(function.has_room(1));
    assert!(!function.has_room(0));
    assert!(!function.has_room(2));
    let member = JsValue::Member(Box::new(var("o")), Box::new(s("k")));
    assert!(member.has_room(2));
    assert!(!member.has_room(1));
    assert!(s("leaf").has_room(0));
    assert!(!s("leaf").has_room(1));
}

#[test]
fn one_answer_is_enough_for_the_node() {
    assert!(!some_modified(&vec![]));
    assert!(!some_modified(&vec![false, false, false]));
    assert!(some_modified(&vec![false, false, true]));
    assert!(some_modified(&vec![true, false]));
    assert!(some_modified(&vec![true]));
}
