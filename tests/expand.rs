use futures_async_stream::args::ReturnTypeKind;
use futures_async_stream::expand::{
    attribute, for_await, parse_fn, stream_block, try_stream_block, Expansion, FnOrAsync,
    StreamItem,
};
use futures_async_stream::scope::{Context, Scope};
use futures_async_stream::signature::{FnArg, FnSig, GenericParam, Signature, Ty};
use futures_async_stream::syntax::{Attr, Expr, Pat, Site, Tok};
use futures_async_stream::visitor::Visitor;

fn attr(name: &str) -> Attr {
    Attr { path: vec![name.to_string()], path_only: true, text: format!("#[{}]", name) }
}

fn leaf(text: &str) -> Expr {
    Expr::Node { head: text.to_string(), children: vec![] }
}

fn ident(s: &str) -> Tok {
    Tok::Ident(s.to_string())
}

fn item(ty: &str) -> Vec<Tok> {
    vec![ident("item"), Tok::Punct('='), ident(ty)]
}

fn ok_error() -> Vec<Tok> {
    vec![
        ident("ok"),
        Tok::Punct('='),
        Tok::Other("()".to_string()),
        Tok::Punct(','),
        ident("error"),
        Tok::Punct('='),
        Tok::Other("()".to_string()),
    ]
}

fn sig(name: &str, inputs: Vec<FnArg>) -> Signature {
    Signature {
        constness: false,
        asyncness: true,
        unsafety: false,
        abi: None,
        ident: name.to_string(),
        generics: vec![],
        inputs,
        variadic: false,
        output: None,
        where_clause: None,
        bound_lifetimes: vec![],
    }
}

fn func(name: &str, block: Vec<Expr>) -> FnSig {
    FnSig { attrs: vec![], vis: "pub".to_string(), sig: sig(name, vec![]), block, semi: false }
}

fn marked_for(body: Vec<Expr>) -> Expr {
    Expr::ForLoop {
        attrs: vec![attr("for_await")],
        label: None,
        pat: Pat::Other("()".to_string()),
        iter: Box::new(leaf("stream()")),
        body,
    }
}

fn await_async() -> Expr {
    Expr::Await(Box::new(Expr::Async { attrs: vec![], capture: false, body: vec![] }))
}

fn nested_block(marker: &str, body: Vec<Expr>) -> Expr {
    Expr::Let {
        pat: Pat::Other("_".to_string()),
        init: Some(Box::new(Expr::Node {
            head: "{}".to_string(),
            children: vec![Expr::Async { attrs: vec![attr(marker)], capture: true, body }],
        })),
    }
}

fn expand_fn(args: Vec<Tok>, f: FnSig, cx: Context) -> futures_async_stream::expand::ExpandedFn {
    match attribute(&args, FnOrAsync::Fn(f), cx).unwrap() {
        Expansion::Fn(f) => f,
        Expansion::Block { .. } => panic!("a function expands to a function"),
    }
}

fn coroutine_body(f: &futures_async_stream::expand::ExpandedFn) -> &Vec<Expr> {
    match f.body.as_ref().unwrap() {
        Expr::Coroutine { body, .. } => body,
        other => panic!("not a coroutine: {:?}", other),
    }
}

#[test]
fn no_stmt_expr_attributes_test() {
    // #[for_await] for () in stream() {} in a stream and a fallible stream
    for (cx, args) in [(Context::Stream, item("()")), (Context::TryStream, ok_error())] {
        let f = expand_fn(args, func("for_await_in_fn", vec![marked_for(vec![])]), cx);
        let body = coroutine_body(&f);
        assert_eq!(body.len(), 1);
        match &body[0] {
            Expr::PinnedLoop { body, .. } => {
                assert!(matches!(&body[0], Expr::Let { init: Some(b), .. } if matches!(**b, Expr::PollNextOrPending)));
            }
            other => panic!("{:?}", other),
        }
    }
    // #[stream] / #[try_stream] async move {} nested in either flavor
    for (cx, args) in [(Context::Stream, item("()")), (Context::TryStream, ok_error())] {
        for (marker, inner) in [("stream", Context::Stream), ("try_stream", Context::TryStream)] {
            let f = expand_fn(args.clone(), func("nested", vec![nested_block(marker, vec![])]), cx);
            let body = coroutine_body(&f);
            match &body[0] {
                Expr::Let { init: Some(init), .. } => match &**init {
                    Expr::Node { children, .. } => match &children[0] {
                        Expr::Coroutine { cx: c, capture, error, boxed, .. } => {
                            assert_eq!(*c, inner);
                            assert!(*capture);
                            assert!(error.is_none());
                            assert!(!*boxed);
                        }
                        other => panic!("{:?}", other),
                    },
                    other => panic!("{:?}", other),
                },
                other => panic!("{:?}", other),
            }
        }
    }
}

#[test]
fn no_stmt_expr_attributes_feature_test() {
    // for_await loops with `yield;` and `async {}.await` in them, in both flavors
    for (cx, args) in [(Context::Stream, item("()")), (Context::TryStream, ok_error())] {
        let block = vec![
            marked_for(vec![Expr::Yield(None), await_async()]),
            Expr::Yield(None),
            await_async(),
        ];
        let f = expand_fn(args, func("for_await_in_fn", block), cx);
        let body = coroutine_body(&f);
        assert_eq!(body.len(), 3);
        match &body[0] {
            Expr::PinnedLoop { body, .. } => {
                assert_eq!(body.len(), 3);
                assert!(matches!(&body[1], Expr::ResumeYield(v) if matches!(**v, Expr::Unit)));
                assert!(matches!(&body[2], Expr::PollAwait(_)));
            }
            other => panic!("{:?}", other),
        }
        assert!(matches!(&body[1], Expr::ResumeYield(v) if matches!(**v, Expr::Unit)));
        // the awaited `async {}` is a plain future: its body is left alone
        match &body[2] {
            Expr::PollAwait(b) => assert!(matches!(**b, Expr::Async { .. })),
            other => panic!("{:?}", other),
        }
    }
    // a nested marked block is expanded on its own, in its own flavor
    let inner = vec![Expr::Yield(None), await_async()];
    let f = expand_fn(
        item("()"),
        func("stream_in_stream", vec![nested_block("try_stream", inner), Expr::Yield(None)]),
        Context::Stream,
    );
    let body = coroutine_body(&f);
    match &body[0] {
        Expr::Let { init: Some(init), .. } => match &**init {
            Expr::Node { children, .. } => match &children[0] {
                Expr::Coroutine { cx, body, .. } => {
                    assert_eq!(*cx, Context::TryStream);
                    assert!(matches!(&body[0], Expr::ResumeYield(_)));
                    assert!(matches!(&body[1], Expr::PollAwait(_)));
                }
                other => panic!("{:?}", other),
            },
            other => panic!("{:?}", other),
        },
        other => panic!("{:?}", other),
    }
}

#[test]
fn yields_become_resumptions() {
    // #[stream(item = u64)] async fn f() { yield 0; yield 1; }
    let f = expand_fn(
        item("u64"),
        func("f", vec![Expr::Yield(Some(Box::new(leaf("0")))), Expr::Yield(Some(Box::new(leaf("1"))))]),
        Context::Stream,
    );
    let body = coroutine_body(&f);
    assert_eq!(body.len(), 2);
    for (e, v) in body.iter().zip(["0", "1"]) {
        match e {
            Expr::ResumeYield(x) => assert!(matches!(&**x, Expr::Node { head, .. } if head == v)),
            other => panic!("{:?}", other),
        }
    }
    assert!(matches!(&f.output.item, StreamItem::Item(t) if t.len() == 1));
    assert_eq!(f.output.kind, ReturnTypeKind::Default);
    match f.body.as_ref().unwrap() {
        Expr::Coroutine { cx, capture, error, boxed, attrs, .. } => {
            assert_eq!(*cx, Context::Stream);
            assert!(*capture);
            assert!(error.is_none());
            assert!(!*boxed);
            assert!(attrs.is_empty());
        }
        other => panic!("{:?}", other),
    }
}

#[test]
fn fallible_function_carries_its_error_type() {
    let mut args = ok_error();
    args.extend([Tok::Punct(','), ident("boxed")]);
    let f = expand_fn(args, func("f", vec![]), Context::TryStream);
    match f.body.as_ref().unwrap() {
        Expr::Coroutine { error: Some(e), boxed, cx, .. } => {
            assert_eq!(e.len(), 1);
            assert!(*boxed);
            assert_eq!(*cx, Context::TryStream);
        }
        other => panic!("{:?}", other),
    }
    assert!(matches!(&f.output.item, StreamItem::Result { .. }));
    assert_eq!(f.output.kind, ReturnTypeKind::Boxed { send: true });
}

#[test]
fn for_await_over_a_stream_in_a_stream() {
    // for x in inner { yield x * x; }, marked
    let lp = Expr::ForLoop {
        attrs: vec![attr("for_await")],
        label: Some("'outer".to_string()),
        pat: Pat::Ident { by_ref: false, mutability: false, name: "x".to_string() },
        iter: Box::new(leaf("inner")),
        body: vec![Expr::Yield(Some(Box::new(Expr::Node {
            head: "*".to_string(),
            children: vec![leaf("x"), leaf("x")],
        })))],
    };
    let f = expand_fn(item("i32"), func("squares", vec![lp]), Context::Stream);
    match &coroutine_body(&f)[0] {
        Expr::PinnedLoop { label, iter, body } => {
            assert_eq!(label.as_deref(), Some("'outer"));
            assert!(matches!(&**iter, Expr::Node { head, .. } if head == "inner"));
            assert!(matches!(&body[0], Expr::Let { pat: Pat::Ident { name, .. }, init: Some(b) }
                if name == "x" && matches!(**b, Expr::PollNextOrPending)));
            assert!(matches!(&body[1], Expr::ResumeYield(_)));
        }
        other => panic!("{:?}", other),
    }
}

#[test]
fn structural_checks() {
    let mut f = func("f", vec![]);
    f.sig.asyncness = false;
    let e = attribute(&item("i32"), FnOrAsync::Fn(f), Context::Stream).unwrap_err();
    assert_eq!(e.message, "async stream must be declared as async");

    let mut f = func("f", vec![]);
    f.sig.output = Some(Ty::Path { path: "i32".to_string(), args: vec![] });
    let e = attribute(&item("i32"), FnOrAsync::Fn(f), Context::Stream).unwrap_err();
    assert_eq!(e.message, "async stream must return the unit type");

    let mut f = func("f", vec![]);
    f.sig.output = Some(Ty::Tuple(vec![]));
    assert!(attribute(&item("i32"), FnOrAsync::Fn(f), Context::Stream).is_ok());

    let mut f = func("f", vec![]);
    f.sig.constness = true;
    let e = attribute(&item("i32"), FnOrAsync::Fn(f), Context::Stream).unwrap_err();
    assert_eq!(e.message, "async stream may not be const");

    let mut f = func("f", vec![]);
    f.sig.variadic = true;
    let e = attribute(&item("i32"), FnOrAsync::Fn(f), Context::Stream).unwrap_err();
    assert_eq!(e.message, "async stream may not be variadic");
}

#[test]
fn marker_duplication() {
    let mut f = func("f", vec![]);
    f.attrs = vec![attr("stream")];
    let e = attribute(&item("i32"), FnOrAsync::Fn(f), Context::Stream).unwrap_err();
    assert_eq!(e.message, "duplicate #[stream] attribute");

    let mut f = func("f", vec![]);
    f.attrs = vec![attr("stream")];
    let e = attribute(&ok_error(), FnOrAsync::Fn(f), Context::TryStream).unwrap_err();
    assert_eq!(e.message, "#[stream] and #[try_stream] may not be used at the same time");
}

#[test]
fn checks_come_before_arguments() {
    let mut f = func("f", vec![]);
    f.sig.asyncness = false;
    let e = attribute(&vec![], FnOrAsync::Fn(f), Context::Stream).unwrap_err();
    assert_eq!(e.message, "async stream must be declared as async");
    let e = attribute(&vec![], FnOrAsync::Fn(func("f", vec![])), Context::Stream).unwrap_err();
    assert_eq!(e.message, "expected `item`");
}

#[test]
fn not_applicable_item() {
    let e = attribute(&vec![], FnOrAsync::NotAsync, Context::TryStream).unwrap_err();
    assert_eq!(e.message, "#[try_stream] attribute may only be used on async functions or async blocks");
    let e = attribute(&vec![], FnOrAsync::NotAsync, Context::Stream).unwrap_err();
    assert_eq!(e.message, "#[stream] attribute may only be used on async functions or async blocks");
}

#[test]
fn async_block_takes_no_arguments() {
    let block = FnOrAsync::Async { attrs: vec![], capture: true, body: vec![], semi: true };
    let e = attribute(&item("i32"), block, Context::Stream).unwrap_err();
    assert_eq!(e.message, "unexpected token: `item = i32`");
    let block =
        FnOrAsync::Async { attrs: vec![], capture: false, body: vec![Expr::Yield(None)], semi: true };
    match attribute(&vec![], block, Context::Stream).unwrap() {
        Expansion::Block { expr: Expr::Coroutine { capture, body, .. }, semi } => {
            assert!(semi);
            assert!(!capture);
            assert!(matches!(&body[0], Expr::ResumeYield(_)));
        }
        other => panic!("{:?}", other),
    }
}

#[test]
fn trait_method_without_body() {
    let mut f = func("f", vec![Expr::Yield(None)]);
    f.semi = true;
    let f = expand_fn(item("i32"), f, Context::Stream);
    assert!(f.body.is_none());
}

#[test]
fn ref_parameters_are_rebound() {
    let inputs = vec![
        FnArg::Typed {
            pat: Pat::Ident { by_ref: false, mutability: false, name: "a".to_string() },
            ty: Ty::Path { path: "u8".to_string(), args: vec![] },
        },
        FnArg::Typed {
            pat: Pat::Ident { by_ref: true, mutability: false, name: "b".to_string() },
            ty: Ty::Path { path: "u8".to_string(), args: vec![] },
        },
    ];
    let mut f = func("f", vec![Expr::Yield(None)]);
    f.sig.inputs = inputs;
    let f = parse_fn(&item("i32"), f, Context::Stream).unwrap();
    assert!(matches!(&f.inputs[0], FnArg::Typed { pat: Pat::Ident { name, .. }, .. } if name == "a"));
    assert!(matches!(&f.inputs[1], FnArg::Typed { pat: Pat::Ident { name, by_ref: false, mutability: true }, .. } if name == "__arg1"));
    let body = coroutine_body(&f);
    assert_eq!(body.len(), 2);
    assert!(matches!(&body[0], Expr::Let { pat: Pat::Ident { name, by_ref: true, .. }, init: Some(x) }
        if name == "b" && matches!(&**x, Expr::Node { head, .. } if head == "__arg1")));
    assert!(matches!(&body[1], Expr::ResumeYield(_)));
}

#[test]
fn elided_lifetimes_reach_the_return_type() {
    let mut f = func("f", vec![]);
    f.sig.generics = vec![GenericParam::Lifetime("'a".to_string()), GenericParam::Type("T".to_string())];
    f.sig.inputs = vec![FnArg::Receiver { reference: Some(None), mutability: false, ty: Ty::Tuple(vec![]) }];
    let f = expand_fn(item("i32"), f, Context::Stream);
    assert_eq!(f.output.lifetimes, vec!["'a".to_string(), "'_async0".to_string()]);
    assert!(matches!(&f.inputs[0], FnArg::Receiver { reference: Some(Some(l)), .. } if l == "'_async0"));
}

#[test]
fn for_await_attribute() {
    let lp = Expr::ForLoop {
        attrs: vec![],
        label: None,
        pat: Pat::Other("x".to_string()),
        iter: Box::new(leaf("s")),
        body: vec![leaf("body")],
    };
    match for_await(&vec![], lp).unwrap() {
        Expr::PinnedLoop { body, .. } => {
            assert_eq!(body.len(), 2);
            assert!(matches!(&body[0], Expr::Let { init: Some(b), .. } if matches!(**b, Expr::NextOrBreak)));
        }
        other => panic!("{:?}", other),
    }
    let e = for_await(&vec![ident("x")], leaf("y")).unwrap_err();
    assert_eq!(e.message, "unexpected token: `x`");
    let e = for_await(&vec![], leaf("y")).unwrap_err();
    assert_eq!(e.message, "expected `for`");
    match for_await(&vec![], marked_for(vec![])).unwrap() {
        Expr::CompileError(m) => assert_eq!(m, "duplicate #[for_await] attribute"),
        other => panic!("{:?}", other),
    }
}

#[test]
fn block_macros() {
    assert!(matches!(stream_block(vec![]), Expr::Coroutine { cx: Context::Stream, capture: true, .. }));
    match try_stream_block(vec![Expr::Yield(None)]) {
        Expr::Coroutine { cx: Context::TryStream, body, .. } => {
            assert!(matches!(&body[0], Expr::ResumeYield(_)))
        }
        other => panic!("{:?}", other),
    }
    // inside a stream body, a block macro is expanded with its attributes kept
    let mac = Expr::Macro {
        attrs: vec![attr("allow")],
        path: vec!["futures_async_stream".to_string(), "stream_block".to_string()],
        tokens: "yield 1;".to_string(),
        body: vec![Expr::Yield(Some(Box::new(leaf("1"))))],
    };
    match Visitor::new(Scope::Future).visit_expr(mac) {
        Expr::Coroutine { attrs, cx: Context::Stream, body, .. } => {
            assert_eq!(attrs.len(), 1);
            assert!(matches!(&body[0], Expr::ResumeYield(_)));
        }
        other => panic!("{:?}", other),
    }
    // any other macro is left alone
    let mac = Expr::Macro { attrs: vec![], path: vec!["println".to_string()], tokens: String::new(), body: vec![] };
    assert!(matches!(Visitor::new(Scope::Stream).visit_expr(mac), Expr::Macro { .. }));
}

#[test]
fn fresh_lifetimes_avoid_higher_ranked_ones() {
    // fn f<T>(_x: &T) where for<'_async0> &'_async0 T: Unpin, T: for<'_async0> A<'_async0>
    let mut f = func("f", vec![]);
    f.sig.generics = vec![GenericParam::Type("T".to_string())];
    f.sig.inputs = vec![FnArg::Typed {
        pat: Pat::Ident { by_ref: false, mutability: false, name: "_x".to_string() },
        ty: Ty::Ref { lifetime: None, mutability: false, elem: Box::new(Ty::Path { path: "T".to_string(), args: vec![] }) },
    }];
    f.sig.where_clause = Some("where for<'_async0> &'_async0 T: Unpin, T: for<'_async0> A<'_async0>".to_string());
    f.sig.bound_lifetimes = vec!["'_async0".to_string(), "'_async0".to_string()];
    let f = expand_fn(item("i32"), f, Context::Stream);
    assert_eq!(f.output.lifetimes, vec!["'_async_0".to_string()]);
    assert!(matches!(&f.inputs[0], FnArg::Typed { ty: Ty::Ref { lifetime: Some(l), .. }, .. } if l == "'_async_0"));
}

#[test]
fn structural_errors_point_at_their_token() {
    let mut f = func("f", vec![]);
    f.sig.asyncness = false;
    assert_eq!(attribute(&item("i32"), FnOrAsync::Fn(f), Context::Stream).unwrap_err().at, Site::FnToken);
    let mut f = func("f", vec![]);
    f.sig.constness = true;
    assert_eq!(attribute(&item("i32"), FnOrAsync::Fn(f), Context::Stream).unwrap_err().at, Site::ConstToken);
    let mut f = func("f", vec![]);
    f.sig.variadic = true;
    assert_eq!(attribute(&item("i32"), FnOrAsync::Fn(f), Context::Stream).unwrap_err().at, Site::Variadic);
    let mut f = func("f", vec![]);
    f.sig.output = Some(Ty::Path { path: "i32".to_string(), args: vec![] });
    assert_eq!(attribute(&item("i32"), FnOrAsync::Fn(f), Context::Stream).unwrap_err().at, Site::ReturnType);
    let mut f = func("f", vec![]);
    f.attrs = vec![attr("inline"), attr("stream")];
    assert_eq!(attribute(&item("i32"), FnOrAsync::Fn(f), Context::Stream).unwrap_err().at, Site::Attr(1));
    let e = attribute(&vec![], FnOrAsync::NotAsync, Context::Stream).unwrap_err();
    assert_eq!(e.at, Site::Input);
    let block = FnOrAsync::Async { attrs: vec![], capture: true, body: vec![], semi: false };
    assert_eq!(attribute(&item("i32"), block, Context::Stream).unwrap_err().at, Site::Arg(0));
}
