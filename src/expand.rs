//! The code generator: a decorated function or `async` block, checked and
//! rewritten, becomes a function returning a stream, or a coroutine
//! expression.
use vstd::prelude::*;
use vstd::string::*;

use crate::args::{
    copy_range, render, render_from, spec_parse_args, stream_keys, try_stream_keys, ReturnTypeKind,
    StreamArg, TryStreamArg,
};
use crate::elision::{
    elided_arg, elided_in_args, inserted_fresh, lifetime_count, lifetime_prefix, names_view, unelide_args,
    unelide_lifetimes,
};
use crate::attrs::{duplicate_message, first_ident};
use crate::scope::{Context, Scope};
use crate::signature::{
    desugared_arg, expand_async_body, rebinding_stmt, rebound, spec_validate, sig_facts,
    validate_signature, view_arg, view_args, FnArg, FnArgView, FnSig, GenericParam,
};
use crate::syntax::{view_all, Attr, Error, Expr, ExprView, Site, Tok};
use crate::visitor::{expand_block, for_loop_rule, rewrite_all, spec_expand_block, Visitor};

verus! {

/// What the stream yields: `item`, or `Result<ok, error>`.
#[derive(Debug)]
pub enum StreamItem {
    Item(Vec<Tok>),
    Result { ok: Vec<Tok>, error: Vec<Tok> },
}

/// The synthesized return type: `impl Stream<Item = ..> + 'a + ..`, or, when
/// boxed, `Pin<Box<dyn Stream<Item = ..> (+ Send)? + 'a + ..>>`.
#[derive(Debug)]
pub struct ReturnType {
    pub item: StreamItem,
    pub kind: ReturnTypeKind,
    /// Every lifetime parameter of the function, in order.
    pub lifetimes: Vec<String>,
}

/// A function after expansion.
#[derive(Debug)]
pub struct ExpandedFn {
    pub attrs: Vec<Attr>,
    pub vis: String,
    pub unsafety: bool,
    pub abi: Option<String>,
    pub ident: String,
    pub generics: Vec<GenericParam>,
    pub inputs: Vec<FnArg>,
    pub output: ReturnType,
    pub where_clause: Option<String>,
    /// The coroutine; absent for a trait method declared with `;`.
    pub body: Option<Expr>,
}

/// The names of the lifetime parameters, in order.
pub open spec fn lifetime_names(g: Seq<GenericParam>) -> Seq<Seq<char>>
    decreases g.len(),
{
    if g.len() == 0 {
        seq![]
    } else {
        let r = lifetime_names(g.drop_last());
        match g.last() {
            GenericParam::Lifetime(l) => r.push(l@),
            _ => r,
        }
    }
}

pub open spec fn strings_view(v: Seq<String>) -> Seq<Seq<char>> {
    Seq::new(v.len(), |i: int| v[i]@)
}

fn collect_lifetimes(generics: &Vec<GenericParam>) -> (r: Vec<String>)
    ensures
        strings_view(r@) == lifetime_names(generics@),
{
    let mut out: Vec<String> = Vec::new();
    let mut i: usize = 0;
    while i < generics.len()
        invariant
            i <= generics@.len(),
            strings_view(out@) == lifetime_names(generics@.subrange(0, i as int)),
        decreases generics.len() - i,
    {
        assert(generics@.subrange(0, i + 1).drop_last() =~= generics@.subrange(0, i as int));
        match &generics[i] {
            GenericParam::Lifetime(l) => {
                let ghost old_out = out@;
                out.push(l.clone());
                assert(strings_view(out@) =~= strings_view(old_out).push(l@));
            },
            _ => {},
        }
        i = i + 1;
    }
    assert(generics@.subrange(0, i as int) =~= generics@);
    out
}

/// The coroutine that holds a function's or block's body.
pub open spec fn gen_body(
    cx: Context,
    capture: bool,
    error: Option<Seq<Tok>>,
    boxed: bool,
    body: Seq<ExprView>,
) -> ExprView {
    ExprView::Coroutine { attrs: seq![], cx, capture, error, boxed, body }
}

pub fn make_gen_body(
    capture: bool,
    block: Vec<Expr>,
    cx: Context,
    error: Option<Vec<Tok>>,
    boxed: bool,
) -> (r: Expr)
    ensures
        r@ == gen_body(
            cx,
            capture,
            match error {
                Some(e) => Some(e@),
                None => None,
            },
            boxed,
            view_all(block),
        ),
{
    Expr::Coroutine { attrs: Vec::new(), cx, capture, error, boxed, body: block }
}

/// What a function's expansion holds, beyond the parts it keeps: `inputs`
/// and `generics` are the parameters with `ref` bindings replaced and every
/// lifetime named; `body` binds the replaced patterns and then runs the
/// block, rewritten in the flavor's scope, inside a coroutine.
pub open spec fn expanded_parts(
    sig: FnSig,
    cx: Context,
    error: Option<Seq<Tok>>,
    kind: ReturnTypeKind,
    r: ExpandedFn,
) -> bool {
    let inputs = view_args(sig.sig.inputs@);
    let idx = rebound(inputs, inputs.len() as int);
    let g = sig.sig.generics@;
    &&& r.attrs == sig.attrs
    &&& r.vis == sig.vis
    &&& r.unsafety == sig.sig.unsafety
    &&& r.abi == sig.sig.abi
    &&& r.ident == sig.sig.ident
    &&& r.where_clause == sig.sig.where_clause
    &&& exists|d: Seq<FnArgView>|
        {
            &&& d.len() == inputs.len()
            &&& forall|i: int| 0 <= i < d.len() ==> desugared_arg(inputs[i], i, #[trigger] d[i])
            &&& view_args(r.inputs@) == unelide_args(d, lifetime_prefix(g, names_view(sig.sig.bound_lifetimes@)), 0).0
            &&& inserted_fresh(
                g,
                r.generics@,
                lifetime_count(g) as int,
                lifetime_prefix(g, names_view(sig.sig.bound_lifetimes@)),
                unelide_args(d, lifetime_prefix(g, names_view(sig.sig.bound_lifetimes@)), 0).1,
            )
        }
    &&& strings_view(r.output.lifetimes@) == lifetime_names(r.generics@)
    &&& r.output.kind == kind
    &&& if sig.semi {
        r.body is None
    } else {
        r.body matches Some(b) && b@ matches ExprView::Coroutine {
            attrs,
            cx: bcx,
            capture,
            error: berror,
            boxed,
            body,
        } && attrs.len() == 0 && bcx == cx && capture && berror == error && boxed == kind is Boxed
            && body.len() == idx.len() + view_all(sig.block).len() && (forall|j: int|
            0 <= j < idx.len() ==> rebinding_stmt(inputs[idx[j]], idx[j], #[trigger] body[j]))
            && body.subrange(idx.len() as int, body.len() as int) == rewrite_all(
            view_all(sig.block),
            cx.spec_scope(),
        )
    }
}

/// Replacing `ref` bindings leaves the types, and so their lifetimes, alone.
proof fn lemma_desugar_keeps_elided(inputs: Seq<FnArgView>, d: Seq<FnArgView>)
    requires
        d.len() == inputs.len(),
        forall|i: int| 0 <= i < d.len() ==> desugared_arg(inputs[i], i, #[trigger] d[i]),
    ensures
        elided_in_args(d) == elided_in_args(inputs),
    decreases inputs.len(),
{
    if inputs.len() > 0 {
        let n = inputs.len() - 1;
        assert forall|i: int| 0 <= i < n implies desugared_arg(
            inputs.drop_last()[i],
            i,
            #[trigger] d.drop_last()[i],
        ) by {
            assert(desugared_arg(inputs[i], i, d[i]));
        }
        lemma_desugar_keeps_elided(inputs.drop_last(), d.drop_last());
        assert(desugared_arg(inputs[n], n, d[n]));
        assert(elided_arg(inputs.last()) == elided_arg(d.last()));
    }
}

/// The expansion of a function once its arguments are read.
fn parse_fn_inner(
    sig: FnSig,
    cx: Context,
    error: Option<Vec<Tok>>,
    kind: ReturnTypeKind,
    item: StreamItem,
) -> (r: ExpandedFn)
    requires
        elided_in_args(view_args(sig.sig.inputs@)) <= usize::MAX,
    ensures
        expanded_parts(
            sig,
            cx,
            match error {
                Some(e) => Some(e@),
                None => None,
            },
            kind,
            r,
        ),
        r.output.item == item,
{
    let ghost gsig = sig;
    let FnSig { attrs, vis, sig: s, block, semi } = sig;
    let block = Visitor::new(cx.scope()).visit_block(block);
    let ghost rewritten = view_all(block);
    let (mut arguments, statements) = expand_async_body(s.inputs);
    let ghost d = view_args(arguments@);
    let ghost stmts = view_all(statements);
    let mut stmts_all = statements;
    let mut block = block;
    let ghost before = stmts_all;
    stmts_all.append(&mut block);
    proof {
        assert(view_all(stmts_all) =~= view_all(before) + rewritten);
        lemma_desugar_keeps_elided(view_args(gsig.sig.inputs@), d);
    }
    let body_inner = make_gen_body(true, stmts_all, cx, error, kind.is_boxed());
    let mut generics = s.generics;
    unelide_lifetimes(&mut generics, &s.bound_lifetimes, &mut arguments);
    let lifetimes = collect_lifetimes(&generics);
    let body = if semi {
        None
    } else {
        Some(body_inner)
    };
    let r = ExpandedFn {
        attrs,
        vis,
        unsafety: s.unsafety,
        abi: s.abi,
        ident: s.ident,
        generics,
        inputs: arguments,
        output: ReturnType { item, kind, lifetimes },
        where_clause: s.where_clause,
        body,
    };
    proof {
        let inputs = view_args(gsig.sig.inputs@);
        let idx = rebound(inputs, inputs.len() as int);
        let g = gsig.sig.generics@;
        assert(d.len() == inputs.len());
        assert(forall|i: int| 0 <= i < d.len() ==> desugared_arg(inputs[i], i, #[trigger] d[i]));
        assert(view_args(r.inputs@) == unelide_args(d, lifetime_prefix(g, names_view(gsig.sig.bound_lifetimes@)), 0).0);
        let all = stmts + rewritten;
        assert(all.subrange(idx.len() as int, all.len() as int) =~= rewritten);
        assert forall|j: int| 0 <= j < idx.len() implies rebinding_stmt(
            inputs[idx[j]],
            idx[j],
            #[trigger] all[j],
        ) by {
            assert(all[j] == stmts[j]);
            assert(0 <= idx[j] < inputs.len());
            assert(inputs[idx[j]] == view_arg(gsig.sig.inputs@[idx[j]]));
        }
    }
    r
}

/// What `parse_fn` gives for the arguments `args` of flavor `cx` on `sig`.
pub open spec fn fn_expansion(args: Seq<Tok>, sig: FnSig, cx: Context, r: Result<ExpandedFn, Error>) -> bool {
    match cx {
        Context::Stream => match (r, spec_parse_args(args, stream_keys())) {
            (Ok(f), Ok(st)) => expanded_parts(sig, cx, None, st.boxed, f) && (
            f.output.item matches StreamItem::Item(t) && st.values == seq![Some(t@)]),
            (Err(e), Err((m, at))) => e.message@ == m && e.at == at,
            _ => false,
        },
        Context::TryStream => match (r, spec_parse_args(args, try_stream_keys())) {
            (Ok(f), Ok(st)) => (f.output.item matches StreamItem::Result { ok, error }
                && st.values == seq![Some(ok@), Some(error@)] && expanded_parts(
                sig,
                cx,
                Some(error@),
                st.boxed,
                f,
            )),
            (Err(e), Err((m, at))) => e.message@ == m && e.at == at,
            _ => false,
        },
    }
}

/// Expands a decorated function, reading the attribute's arguments `args`.
pub fn parse_fn(args: &Vec<Tok>, sig: FnSig, cx: Context) -> (r: Result<ExpandedFn, Error>)
    requires
        elided_in_args(view_args(sig.sig.inputs@)) <= usize::MAX,
    ensures
        fn_expansion(args@, sig, cx, r),
{
    match cx {
        Context::Stream => match StreamArg::parse(args) {
            Err(e) => Err(e),
            Ok(a) => {
                let StreamArg { item_ty, boxed } = a;
                Ok(parse_fn_inner(sig, cx, None, boxed, StreamItem::Item(item_ty)))
            },
        },
        Context::TryStream => match TryStreamArg::parse(args) {
            Err(e) => Err(e),
            Ok(a) => {
                let TryStreamArg { ok, error, boxed } = a;
                let ret_error = copy_range(&error, 0, error.len());
                assert(ret_error@ =~= error@);
                Ok(parse_fn_inner(sig, cx, Some(ret_error), boxed, StreamItem::Result { ok, error }))
            },
        },
    }
}

/// An item that a `stream` or `try_stream` attribute stands on.
#[derive(Debug)]
pub enum FnOrAsync {
    /// A function, or a trait method with or without a body.
    Fn(FnSig),
    /// `async move? { body }`, with `semi` when a `;` follows.
    Async { attrs: Vec<Attr>, capture: bool, body: Vec<Expr>, semi: bool },
    /// Anything else.
    NotAsync,
}

/// The result of expanding an attribute.
#[derive(Debug)]
pub enum Expansion {
    Fn(ExpandedFn),
    Block { expr: Expr, semi: bool },
}

pub open spec fn not_async_message(cx: Context) -> Seq<char> {
    "#["@ + cx.spec_name() + "] attribute may only be used on async functions or async blocks"@
}

pub open spec fn unexpected_token_message(args: Seq<Tok>) -> Seq<char> {
    "unexpected token: `"@ + render(args) + "`"@
}

/// Checks that an attribute was given no arguments.
pub fn parse_as_empty(args: &Vec<Tok>) -> (r: Result<(), Error>)
    ensures
        match r {
            Ok(()) => args@.len() == 0,
            Err(e) => args@.len() > 0 && e.message@ == unexpected_token_message(args@) && e.at
                == Site::Arg(0),
        },
{
    if args.len() == 0 {
        Ok(())
    } else {
        let mut m = String::from_str("unexpected token: `");
        let rest = render_from(args, 0);
        assert(args@.subrange(0, args@.len() as int) =~= args@);
        m.append(rest.as_str());
        m.append("`");
        Err(Error { message: m, at: Site::Arg(0) })
    }
}

/// Checks the item that the attribute of flavor `cx` stands on.
pub fn parse(input: &FnOrAsync, cx: Context) -> (r: Result<(), Error>)
    ensures
        match (r, *input) {
            (Ok(()), FnOrAsync::Fn(sig)) => spec_validate(Some(sig_facts(sig.sig)), sig.attrs@, cx) is Ok,
            (Ok(()), FnOrAsync::Async { attrs, .. }) => spec_validate(None, attrs@, cx) is Ok,
            (Err(e), FnOrAsync::Fn(sig)) => spec_validate(Some(sig_facts(sig.sig)), sig.attrs@, cx)
                == Err::<(), (Seq<char>, Site)>((e.message@, e.at)),
            (Err(e), FnOrAsync::Async { attrs, .. }) => spec_validate(None, attrs@, cx) == Err::<
                (),
                (Seq<char>, Site),
            >((e.message@, e.at)),
            (Err(e), FnOrAsync::NotAsync) => e.message@ == not_async_message(cx) && e.at
                == Site::Input,
            _ => false,
        },
{
    match input {
        FnOrAsync::Fn(sig) => validate_signature(Some(&sig.sig), &sig.attrs, cx),
        FnOrAsync::Async { attrs, .. } => validate_signature(None, attrs, cx),
        FnOrAsync::NotAsync => Err(not_async_error(cx)),
    }
}

fn not_async_error(cx: Context) -> (r: Error)
    ensures
        r.message@ == not_async_message(cx),
        r.at == Site::Input,
{
    let mut m = String::from_str("#[");
    m.append(cx.as_str());
    m.append("] attribute may only be used on async functions or async blocks");
    Error { message: m, at: Site::Input }
}

/// Expands the attribute of flavor `cx`, with arguments `args`, on `input`:
/// the item is checked first, then the arguments are read, then it is
/// rewritten.
pub fn attribute(args: &Vec<Tok>, input: FnOrAsync, cx: Context) -> (r: Result<Expansion, Error>)
    requires
        input matches FnOrAsync::Fn(sig) ==> elided_in_args(view_args(sig.sig.inputs@))
            <= usize::MAX,
    ensures
        match input {
            FnOrAsync::Fn(sig) => match spec_validate(Some(sig_facts(sig.sig)), sig.attrs@, cx) {
                Err((m, at)) => r matches Err(e) && e.message@ == m && e.at == at,
                Ok(_) => match r {
                    Ok(Expansion::Fn(f)) => fn_expansion(args@, sig, cx, Ok(f)),
                    Ok(Expansion::Block { .. }) => false,
                    Err(e) => fn_expansion(args@, sig, cx, Err(e)),
                },
            },
            FnOrAsync::Async { attrs, capture, body, semi } => match spec_validate(None, attrs@, cx) {
                Err((m, at)) => r matches Err(e) && e.message@ == m && e.at == at,
                Ok(_) => if args@.len() > 0 {
                    r matches Err(e) && e.message@ == unexpected_token_message(args@) && e.at
                        == Site::Arg(0)
                } else {
                    r matches Ok(Expansion::Block { expr, semi: s }) && expr@ == spec_expand_block(
                        capture,
                        view_all(body),
                        cx,
                    ) && s == semi
                },
            },
            FnOrAsync::NotAsync => r matches Err(e) && e.message@ == not_async_message(cx) && e.at
                == Site::Input,
        },
{
    match input {
        FnOrAsync::Fn(sig) => {
            if let Err(e) = validate_signature(Some(&sig.sig), &sig.attrs, cx) {
                return Err(e);
            }
            match parse_fn(args, sig, cx) {
                Ok(f) => Ok(Expansion::Fn(f)),
                Err(e) => Err(e),
            }
        },
        FnOrAsync::Async { attrs, capture, body, semi } => {
            if let Err(e) = validate_signature(None, &attrs, cx) {
                return Err(e);
            }
            if let Err(e) = parse_as_empty(args) {
                return Err(e);
            }
            Ok(Expansion::Block { expr: expand_block(capture, body, cx), semi })
        },
        FnOrAsync::NotAsync => Err(not_async_error(cx)),
    }
}

/// A marker put in front of `attrs` moves every marker one place on.
proof fn lemma_first_ident_shift(a: Attr, attrs: Seq<Attr>, name: Seq<char>, i: int)
    requires
        0 <= i,
    ensures
        first_ident(seq![a] + attrs, name, i + 1) == match first_ident(attrs, name, i) {
            Some(j) => Some(j + 1),
            None => None::<int>,
        },
    decreases attrs.len() - i,
{
    let all = seq![a] + attrs;
    if i < attrs.len() {
        assert(all[i + 1] == attrs[i]);
        lemma_first_ident_shift(a, attrs, name, i + 1);
    }
}

/// What `#[for_await]` on the loop `e` gives, in a future's scope.
pub open spec fn spec_for_await(e: ExprView) -> Result<ExprView, Seq<char>> {
    match e {
        ExprView::ForLoop { attrs, label, pat, iter, body } => Ok(
            if first_ident(attrs, "for_await"@, 0) is Some {
                ExprView::CompileError(duplicate_message("for_await"@))
            } else {
                ExprView::PinnedLoop {
                    label,
                    iter,
                    body: seq![ExprView::Let { pat, init: Some(Box::new(ExprView::NextOrBreak)) }]
                        + body,
                }
            },
        ),
        _ => Err("expected `for`"@),
    }
}

/// The `#[for_await]` attribute, with arguments `args`, on the loop `e`.
pub fn for_await(args: &Vec<Tok>, e: Expr) -> (r: Result<Expr, Error>)
    ensures
        args@.len() > 0 ==> (r matches Err(err) && err.message@ == unexpected_token_message(args@)
            && err.at == Site::Arg(0)),
        args@.len() == 0 ==> match (r, spec_for_await(e@)) {
            (Ok(x), Ok(v)) => x@ == v,
            (Err(err), Err(m)) => err.message@ == m && err.at == Site::Input,
            _ => false,
        },
{
    if let Err(err) = parse_as_empty(args) {
        return Err(err);
    }
    match e {
        Expr::ForLoop { attrs, label, pat, iter, body } => {
            let ghost old_attrs = attrs@;
            let mut attrs = attrs;
            let marker = Attr {
                path: vec![String::from_str("for_await")],
                path_only: true,
                text: String::from_str("#[for_await]"),
            };
            let ghost gm = marker;
            attrs.insert(0, marker);
            proof {
                reveal_strlit("for_await");
                assert(attrs@ =~= seq![gm] + old_attrs);
                lemma_first_ident_shift(gm, old_attrs, "for_await"@, 0);
                assert(first_ident(attrs@, "for_await"@, 0) == Some(0int));
            }
            let ghost giter = *iter;
            let ghost gbody = body;
            let ghost gpat = pat;
            let r = Visitor::new(Scope::Future).visit_for_loop(
                Expr::ForLoop { attrs, label, pat, iter, body },
            );
            proof {
                let v = for_loop_rule(attrs@, label, gpat, giter@, view_all(gbody), Scope::Future);
                if first_ident(old_attrs, "for_await"@, 0) is None {
                    assert(v == (ExprView::PinnedLoop {
                        label,
                        iter: Box::new(giter@),
                        body: seq![ExprView::Let { pat: gpat, init: Some(Box::new(ExprView::NextOrBreak)) }]
                            + view_all(gbody),
                    }));
                }
            }
            Ok(r)
        },
        _ => Err(Error { message: String::from_str("expected `for`"), at: Site::Input }),
    }
}

/// `stream_block! { body }`: the body as an ordinary stream.
pub fn stream_block(body: Vec<Expr>) -> (r: Expr)
    ensures
        r@ == spec_expand_block(true, view_all(body), Context::Stream),
{
    expand_block(true, body, Context::Stream)
}

/// `try_stream_block! { body }`: the body as a fallible stream.
pub fn try_stream_block(body: Vec<Expr>) -> (r: Expr)
    ensures
        r@ == spec_expand_block(true, view_all(body), Context::TryStream),
{
    expand_block(true, body, Context::TryStream)
}

} // verus!
