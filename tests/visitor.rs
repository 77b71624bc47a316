use futures_async_stream::scope::{Context, Scope};
use futures_async_stream::syntax::{Attr, Expr, Pat};
use futures_async_stream::visitor::Visitor;

fn attr(name: &str) -> Attr {
    Attr { path: vec![name.to_string()], path_only: true, text: format!("#[{}]", name) }
}

fn leaf(text: &str) -> Expr {
    Expr::Node { head: text.to_string(), children: vec![] }
}

fn for_loop(attrs: Vec<Attr>, body: Vec<Expr>) -> Expr {
    Expr::ForLoop {
        attrs,
        label: None,
        pat: Pat::Other("x".to_string()),
        iter: Box::new(leaf("s")),
        body,
    }
}

#[test]
fn scope_helpers() {
    assert!(Scope::Stream.is_stream());
    assert!(Scope::TryStream.is_stream());
    assert!(!Scope::Future.is_stream());
    assert!(!Scope::Closure.is_stream());
    assert!(!Scope::Other.is_stream());
    assert_eq!(Scope::default(), Scope::Future);
    assert_eq!(Context::Stream.as_str(), "stream");
    assert_eq!(Context::TryStream.as_str(), "try_stream");
    assert_eq!(Context::Stream.scope(), Scope::Stream);
    assert_eq!(Context::TryStream.scope(), Scope::TryStream);
    assert_eq!(Scope::from(Context::TryStream), Scope::TryStream);
    assert_eq!(Scope::from(Context::Stream), Scope::Stream);
    assert_eq!(Visitor::new(Scope::Closure).scope, Scope::Closure);
}

#[test]
fn unmarked_for_loop_is_unchanged() {
    for scope in [Scope::Future, Scope::Stream, Scope::TryStream, Scope::Closure] {
        let lp = for_loop(vec![attr("allow")], vec![leaf("a")]);
        match Visitor::new(scope).visit_for_loop(lp) {
            Expr::ForLoop { attrs, label, body, .. } => {
                assert_eq!(attrs.len(), 1);
                assert!(label.is_none());
                assert_eq!(body.len(), 1);
            }
            other => panic!("{:?}", other),
        }
    }
}

#[test]
fn marked_for_loop_in_each_scope() {
    match Visitor::new(Scope::Future).visit_for_loop(for_loop(vec![attr("for_await")], vec![])) {
        Expr::PinnedLoop { body, .. } => {
            assert!(matches!(&body[0], Expr::Let { init: Some(b), .. } if matches!(**b, Expr::NextOrBreak)))
        }
        other => panic!("{:?}", other),
    }
    match Visitor::new(Scope::TryStream).visit_for_loop(for_loop(vec![attr("for_await")], vec![])) {
        Expr::PinnedLoop { body, .. } => assert!(
            matches!(&body[0], Expr::Let { init: Some(b), .. } if matches!(**b, Expr::PollNextOrPending))
        ),
        other => panic!("{:?}", other),
    }
    match Visitor::new(Scope::Closure).visit_for_loop(for_loop(vec![attr("for_await")], vec![])) {
        Expr::CompileError(m) => assert_eq!(
            m,
            "for await may not be allowed outside of async blocks, functions, closures, async stream blocks, and functions"
        ),
        other => panic!("{:?}", other),
    }
}

#[test]
fn malformed_for_await_markers() {
    let with_args =
        Attr { path: vec!["for_await".to_string()], path_only: false, text: "#[for_await(x)]".to_string() };
    match Visitor::new(Scope::Stream).visit_for_loop(for_loop(vec![with_args], vec![])) {
        Expr::CompileError(m) => assert_eq!(m, "unexpected token in attribute"),
        other => panic!("{:?}", other),
    }
    let twice = vec![attr("for_await"), attr("for_await")];
    match Visitor::new(Scope::Stream).visit_for_loop(for_loop(twice, vec![])) {
        Expr::CompileError(m) => assert_eq!(m, "duplicate #[for_await] attribute"),
        other => panic!("{:?}", other),
    }
}

#[test]
fn closure_keeps_suspensions() {
    // || { yield 1; x.await } inside a stream
    let closure = Expr::Closure {
        is_async: false,
        head: "|| __child_0".to_string(),
        body: Box::new(Expr::Node {
            head: "{}".to_string(),
            children: vec![Expr::Yield(Some(Box::new(leaf("1")))), Expr::Await(Box::new(leaf("x")))],
        }),
    };
    match Visitor::new(Scope::Stream).visit_expr(closure) {
        Expr::Closure { is_async: false, body, .. } => match *body {
            Expr::Node { children, .. } => {
                assert!(matches!(&children[0], Expr::Yield(Some(_))));
                assert!(matches!(&children[1], Expr::Await(_)));
            }
            other => panic!("{:?}", other),
        },
        other => panic!("{:?}", other),
    }
}

#[test]
fn for_await_in_a_closure_is_an_error_in_place() {
    let closure = Expr::Closure {
        is_async: false,
        head: "|| __child_0".to_string(),
        body: Box::new(Expr::Node {
            head: "{}".to_string(),
            children: vec![for_loop(vec![attr("for_await")], vec![]), Expr::Yield(None)],
        }),
    };
    match Visitor::new(Scope::Stream).visit_expr(closure) {
        Expr::Closure { body, .. } => match *body {
            Expr::Node { children, .. } => {
                assert!(matches!(&children[0], Expr::CompileError(_)));
                assert!(matches!(&children[1], Expr::Yield(None)));
            }
            other => panic!("{:?}", other),
        },
        other => panic!("{:?}", other),
    }
}

#[test]
fn async_closure_and_block_are_futures() {
    let c = Expr::Closure { is_async: true, head: "async || __child_0".to_string(), body: Box::new(Expr::Await(Box::new(leaf("f")))) };
    match Visitor::new(Scope::Stream).visit_expr(c) {
        Expr::Closure { body, .. } => assert!(matches!(*body, Expr::Await(_))),
        other => panic!("{:?}", other),
    }
    let b = Expr::Async {
        attrs: vec![],
        capture: false,
        body: vec![Expr::Await(Box::new(leaf("f"))), for_loop(vec![attr("for_await")], vec![])],
    };
    match Visitor::new(Scope::Stream).visit_expr(b) {
        Expr::Async { body, .. } => {
            assert!(matches!(&body[0], Expr::Await(_)));
            match &body[1] {
                Expr::PinnedLoop { body, .. } => assert!(
                    matches!(&body[0], Expr::Let { init: Some(b), .. } if matches!(**b, Expr::NextOrBreak))
                ),
                other => panic!("{:?}", other),
            }
        }
        other => panic!("{:?}", other),
    }
}

#[test]
fn stream_scope_rewrites_suspensions() {
    let e = Expr::Node {
        head: "call".to_string(),
        children: vec![Expr::Await(Box::new(leaf("f"))), Expr::Yield(None)],
    };
    match Visitor::new(Scope::Stream).visit_expr(e) {
        Expr::Node { children, .. } => {
            assert!(matches!(&children[0], Expr::PollAwait(_)));
            assert!(matches!(&children[1], Expr::ResumeYield(v) if matches!(**v, Expr::Unit)));
        }
        other => panic!("{:?}", other),
    }
}

#[test]
fn nested_items_are_not_entered() {
    let e = Expr::Item("fn inner() { yield 1; }".to_string());
    assert!(matches!(Visitor::new(Scope::Stream).visit_expr(e), Expr::Item(_)));
}

#[test]
fn both_markers_on_a_nested_block() {
    let b = Expr::Async { attrs: vec![attr("stream"), attr("try_stream")], capture: true, body: vec![] };
    match Visitor::new(Scope::Stream).visit_expr(b) {
        Expr::CompileError(m) => {
            assert_eq!(m, "#[stream] and #[try_stream] may not be used at the same time")
        }
        other => panic!("{:?}", other),
    }
    let b = Expr::Async { attrs: vec![attr("stream"), attr("stream")], capture: true, body: vec![] };
    match Visitor::new(Scope::Stream).visit_expr(b) {
        Expr::CompileError(m) => assert_eq!(m, "duplicate #[stream] attribute"),
        other => panic!("{:?}", other),
    }
}

#[test]
fn qualified_marker_is_expanded_too() {
    let marker = Attr {
        path: vec!["futures_async_stream".to_string(), "stream".to_string()],
        path_only: true,
        text: "#[futures_async_stream::stream]".to_string(),
    };
    let b = Expr::Async { attrs: vec![marker.clone()], capture: true, body: vec![Expr::Yield(None)] };
    match Visitor::new(Scope::Future).visit_expr(b) {
        Expr::Coroutine { cx: Context::Stream, body, .. } => {
            assert!(matches!(&body[0], Expr::ResumeYield(_)))
        }
        other => panic!("{:?}", other),
    }
    let b = Expr::Async { attrs: vec![marker, attr("stream")], capture: true, body: vec![] };
    match Visitor::new(Scope::Future).visit_expr(b) {
        Expr::CompileError(m) => assert_eq!(m, "duplicate #[stream] attribute"),
        other => panic!("{:?}", other),
    }
}

#[test]
fn for_await_rule_twice_is_once() {
    for scope in [Scope::Future, Scope::Stream, Scope::Closure] {
        let v = Visitor::new(scope);
        let once = v.visit_for_loop(for_loop(vec![attr("for_await")], vec![leaf("a")]));
        let text = format!("{:?}", once);
        let twice = v.visit_for_loop(once);
        assert_eq!(format!("{:?}", twice), text);
    }
}
