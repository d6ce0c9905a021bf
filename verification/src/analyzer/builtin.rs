use crate::analyzer::{
    lemma_views, views, JsValue, JsValueView, Literal, WellKnownFunctionKind,
    WellKnownFunctionKindView,
};
use crate::text::{join, joined, same_text, split, split_at};
use vstd::prelude::*;
use vstd::string::*;

verus! {

broadcast use lemma_views;

/// The segments that are left of a path when `segment` follows `stack`: an empty segment
/// and `.` change nothing, `..` takes the last segment away unless there is none or it
/// is `..` itself, and then stays only above the root of a relative path.
pub open spec fn with_segment(
    stack: Seq<Seq<char>>,
    segment: Seq<char>,
    relative: bool,
) -> Seq<Seq<char>> {
    if segment.len() == 0 || segment == "."@ {
        stack
    } else if segment == ".."@ {
        if stack.len() > 0 && stack.last() != ".."@ {
            stack.drop_last()
        } else if relative {
            stack.push(segment)
        } else {
            stack
        }
    } else {
        stack.push(segment)
    }
}

/// The segments that are left of a path with the segments `segments`, taken from the left.
pub open spec fn collapsed(segments: Seq<Seq<char>>, relative: bool) -> Seq<Seq<char>>
    decreases segments.len(),
{
    if segments.len() == 0 {
        Seq::empty()
    } else {
        with_segment(collapsed(segments.drop_last(), relative), segments.last(), relative)
    }
}

/// The path in its shortest form, with `/` between the segments: no empty segment, no
/// `.`, and `..` only where it leads above the start of a relative path. A leading and a
/// trailing `/` stay. The empty path is `.`.
pub open spec fn normal_path(path: Seq<char>) -> Seq<char> {
    if path.len() == 0 {
        "."@
    } else {
        let absolute = path[0] == '/';
        let trailing = path.last() == '/';
        let body = joined(collapsed(split(path, '/'), !absolute), "/"@);
        if body.len() == 0 {
            if absolute {
                "/"@
            } else if trailing {
                "./"@
            } else {
                "."@
            }
        } else {
            (if absolute {
                "/"@
            } else {
                Seq::<char>::empty()
            }) + body + (if trailing {
                "/"@
            } else {
                Seq::<char>::empty()
            })
        }
    }
}

/// The texts of `parts` that are not empty.
pub open spec fn non_empty(parts: Seq<Seq<char>>) -> Seq<Seq<char>>
    decreases parts.len(),
{
    if parts.len() == 0 {
        Seq::empty()
    } else if parts.last().len() == 0 {
        non_empty(parts.drop_last())
    } else {
        non_empty(parts.drop_last()).push(parts.last())
    }
}

/// The path that leads through `parts` in turn: the parts that are not empty with `/`
/// between them, in the shortest form.
pub open spec fn joined_path(parts: Seq<Seq<char>>) -> Seq<char> {
    normal_path(joined(non_empty(parts), "/"@))
}

/// Brings a path into its shortest form.
pub fn normalize_path(path: &str) -> (r: String)
    ensures
        r@ == normal_path(path@),
{
    let n = path.unicode_len();
    if n == 0 {
        return String::from_str(".");
    }
    let absolute = path.get_char(0) == '/';
    let trailing = path.get_char(n - 1) == '/';
    let segments = split_at(path, '/');
    let ghost all = segments.deep_view();
    let mut stack: Vec<String> = Vec::new();
    let mut i: usize = 0;
    while i < segments.len()
        invariant
            i <= segments.len(),
            all == segments.deep_view(),
            stack.deep_view() == collapsed(all.take(i as int), !absolute),
        decreases segments.len() - i,
    {
        proof {
            assert(all.take(i + 1).drop_last() =~= all.take(i as int));
        }
        let segment = &segments[i];
        if segment.as_str().is_empty() || same_text(segment.as_str(), ".") {
        } else if same_text(segment.as_str(), "..") {
            let m = stack.len();
            if m > 0 && !same_text(stack[m - 1].as_str(), "..") {
                stack.pop();
            } else if !absolute {
                stack.push(segment.clone());
            }
        } else {
            stack.push(segment.clone());
        }
        i += 1;
    }
    proof {
        assert(all.take(all.len() as int) =~= all);
    }
    let body = join(&stack, "/");
    if body.as_str().is_empty() {
        if absolute {
            String::from_str("/")
        } else if trailing {
            String::from_str("./")
        } else {
            String::from_str(".")
        }
    } else {
        let mut out = String::new();
        if absolute {
            out.append("/");
        }
        out.append(body.as_str());
        if trailing {
            out.append("/");
        }
        out
    }
}

/// The path that leads through `parts` in turn.
pub fn join_path(parts: &Vec<String>) -> (r: String)
    ensures
        r@ == joined_path(parts.deep_view()),
{
    let ghost all = parts.deep_view();
    let mut kept: Vec<String> = Vec::new();
    let mut i: usize = 0;
    while i < parts.len()
        invariant
            i <= parts.len(),
            all == parts.deep_view(),
            kept.deep_view() == non_empty(all.take(i as int)),
        decreases parts.len() - i,
    {
        proof {
            assert(all.take(i + 1).drop_last() =~= all.take(i as int));
        }
        if !parts[i].as_str().is_empty() {
            kept.push(parts[i].clone());
        }
        i += 1;
    }
    proof {
        assert(all.take(all.len() as int) =~= all);
    }
    normalize_path(join(&kept, "/").as_str())
}

/// Whether every item of `list` is a string literal.
pub open spec fn all_strings(list: Seq<JsValueView>) -> bool {
    forall|i: int| 0 <= i < list.len() ==> (#[trigger] list[i]).as_str() is Some
}

/// The texts of the string literals `list`.
pub open spec fn texts_of(list: Seq<JsValueView>) -> Seq<Seq<char>> {
    Seq::new(list.len(), |i: int| list[i].as_str()->0)
}

impl JsValueView {
    /// What a call of a well-known function comes to, where its arguments tell:
    /// `path.join` of string literals is the path through them, and `require` of one
    /// string literal is the module of that name.
    pub open spec fn builtin(self) -> Option<JsValueView> {
        match self {
            JsValueView::Call(callee, args) => match *callee {
                JsValueView::WellKnownFunction(WellKnownFunctionKindView::PathJoin) => {
                    if all_strings(args) {
                        Some(JsValueView::string(joined_path(texts_of(args))))
                    } else {
                        None
                    }
                },
                JsValueView::WellKnownFunction(WellKnownFunctionKindView::Require) => {
                    if args.len() == 1 && args[0].as_str() is Some {
                        Some(JsValueView::Module(args[0].as_str()->0))
                    } else {
                        None
                    }
                },
                _ => None,
            },
            _ => None,
        }
    }
}

/// The texts of `list`, where every item is a string literal.
fn texts(list: &Vec<JsValue>) -> (r: Option<Vec<String>>)
    ensures
        r is Some <==> all_strings(views(list@)),
        r is Some ==> r->0.deep_view() == texts_of(views(list@)),
{
    let mut out: Vec<String> = Vec::new();
    let mut i: usize = 0;
    while i < list.len()
        invariant
            i <= list.len(),
            out.len() == i,
            forall|j: int| 0 <= j < i ==> (#[trigger] views(list@)[j]).as_str() == Some(out@[j]@),
        decreases list.len() - i,
    {
        match list[i].as_str() {
            Some(text) => {
                out.push(String::from_str(text));
            },
            None => {
                assert(views(list@)[i as int].as_str() is None);
                return None;
            },
        }
        i += 1;
    }
    Some(out)
}

/// Replaces a call of a well-known function by what it comes to, where the arguments
/// tell, and says whether it did. Every other value comes back as it is.
pub fn replace_builtin(value: JsValue) -> (r: (JsValue, bool))
    ensures
        r.1 == value@.builtin() is Some,
        r.0@ == (match value@.builtin() {
            Some(folded) => folded,
            None => value@,
        }),
{
    let folded = match &value {
        JsValue::Call(callee, args) => {
            assert(*value@->Call_0 == callee@ && value@->Call_1 == views(args@));
            match &**callee {
                JsValue::WellKnownFunction(WellKnownFunctionKind::PathJoin) => match texts(args) {
                    Some(parts) => Some(JsValue::Constant(Literal::Str(join_path(&parts)))),
                    None => None,
                },
                JsValue::WellKnownFunction(WellKnownFunctionKind::Require) => {
                    if args.len() == 1 {
                        match args[0].as_str() {
                            Some(name) => Some(JsValue::Module(String::from_str(name))),
                            None => None,
                        }
                    } else {
                        None
                    }
                },
                _ => None,
            }
        },
        _ => None,
    };
    match folded {
        Some(folded) => (folded, true),
        None => (value, false),
    }
}

} // verus!
