//! The scope-sensitive rewrite of `#[for_await]` loops, `.await` and `yield`.
//!
//! The scope is threaded through the walk: entering an `async` block or closure
//! enters `Future`, a plain closure enters `Closure`, and a nested `#[stream]` /
//! `#[try_stream]` unit enters `Other`, where it is expanded on its own instead
//! of being walked further. Nested items are never entered.
use vstd::prelude::*;
use vstd::string::*;

use crate::attrs::{
    first_ident, path_eq, position_exact, position_marker, spec_path_eq, spec_position_exact,
    spec_position_marker,
};
use crate::scope::{Context, Scope};
use crate::syntax::{view_all, view_expr, Attr, Error, Expr, ExprView, Pat};

verus! {

/// The message for `#[for_await]` inside a plain closure.
pub open spec fn closure_for_message() -> Seq<char> {
    "for await may not be allowed outside of async blocks, functions, closures, async stream blocks, and functions"@
}

/// The message for both markers on one item.
pub open spec fn conflict_message() -> Seq<char> {
    "#[stream] and #[try_stream] may not be used at the same time"@
}

/// `true` when some attribute names a stream marker.
pub open spec fn has_stream_marker(attrs: Seq<Attr>) -> bool {
    exists|i: int|
        0 <= i < attrs.len() && (spec_path_eq(attrs[i].path@, "stream"@) || spec_path_eq(
            attrs[i].path@,
            "try_stream"@,
        ))
}

/// `true` when the macro path names a block-form expansion.
pub open spec fn is_block_macro(path: Seq<String>) -> bool {
    spec_path_eq(path, "stream_block"@) || spec_path_eq(path, "try_stream_block"@)
}

/// The scope in force inside `e`, when `s` is in force around it.
pub open spec fn enter(e: ExprView, s: Scope) -> Scope {
    match e {
        ExprView::Async { attrs, .. } => if has_stream_marker(attrs) {
            Scope::Other
        } else {
            Scope::Future
        },
        ExprView::Closure { is_async, .. } => if is_async {
            Scope::Future
        } else {
            Scope::Closure
        },
        ExprView::Macro { path, .. } => if is_block_macro(path) {
            Scope::Other
        } else {
            s
        },
        _ => s,
    }
}

/// A `#[for_await]` loop whose parts were already rewritten.
pub open spec fn for_loop_rule(
    attrs: Seq<Attr>,
    label: Option<String>,
    pat: Pat,
    iter: ExprView,
    body: Seq<ExprView>,
    s: Scope,
) -> ExprView {
    match spec_position_exact(attrs, "for_await"@) {
        Err(m) => ExprView::CompileError(m),
        Ok(None) => ExprView::ForLoop { attrs, label, pat, iter: Box::new(iter), body },
        Ok(Some(_)) => if s == Scope::Closure {
            ExprView::CompileError(closure_for_message())
        } else {
            let fetch = if s == Scope::Future {
                ExprView::NextOrBreak
            } else {
                ExprView::PollNextOrPending
            };
            ExprView::PinnedLoop {
                label,
                iter: Box::new(iter),
                body: seq![ExprView::Let { pat, init: Some(Box::new(fetch)) }] + body,
            }
        },
    }
}

/// The `#[for_await]` rule on `e` alone: a `for` loop, or anything else
/// left as it is.
pub open spec fn for_loop_visit(e: ExprView, s: Scope) -> ExprView {
    match e {
        ExprView::ForLoop { attrs, label, pat, iter, body } => for_loop_rule(
            attrs,
            label,
            pat,
            *iter,
            body,
            s,
        ),
        _ => e,
    }
}

/// `yield v` in scope `s`, `v` already rewritten.
pub open spec fn yield_rule(v: Option<Box<ExprView>>, s: Scope) -> ExprView {
    if s.spec_is_stream() {
        ExprView::ResumeYield(
            match v {
                Some(x) => x,
                None => Box::new(ExprView::Unit),
            },
        )
    } else {
        ExprView::Yield(v)
    }
}

/// `base.await` in scope `s`, `base` already rewritten.
pub open spec fn await_rule(base: ExprView, s: Scope) -> ExprView {
    if s.spec_is_stream() {
        ExprView::PollAwait(Box::new(base))
    } else {
        ExprView::Await(Box::new(base))
    }
}

/// The coroutine that a block of flavor `cx` becomes, its body already
/// rewritten.
pub open spec fn block_coroutine(
    attrs: Seq<Attr>,
    cx: Context,
    capture: bool,
    body: Seq<ExprView>,
) -> ExprView {
    ExprView::Coroutine { attrs, cx, capture, error: None, boxed: false, body }
}

/// A marked `async` block in scope `Other`; `stream_body` and `try_body` are
/// its body rewritten in the scope of either flavor.
pub open spec fn async_rule(
    attrs: Seq<Attr>,
    capture: bool,
    body: Seq<ExprView>,
    stream_body: Seq<ExprView>,
    try_body: Seq<ExprView>,
) -> ExprView {
    match (spec_position_marker(attrs, "stream"@), spec_position_marker(attrs, "try_stream"@)) {
        (Err(m), _) => ExprView::CompileError(m),
        (_, Err(m)) => ExprView::CompileError(m),
        (Ok(Some(_)), Ok(Some(_))) => ExprView::CompileError(conflict_message()),
        (Ok(Some(_)), _) => block_coroutine(seq![], Context::Stream, capture, stream_body),
        (_, Ok(Some(_))) => block_coroutine(seq![], Context::TryStream, capture, try_body),
        _ => ExprView::Async { attrs, capture, body },
    }
}

/// A block macro in scope `Other`, as `async_rule`.
pub open spec fn macro_rule(
    attrs: Seq<Attr>,
    path: Seq<String>,
    tokens: String,
    body: Seq<ExprView>,
    stream_body: Seq<ExprView>,
    try_body: Seq<ExprView>,
) -> ExprView {
    if spec_path_eq(path, "stream_block"@) {
        block_coroutine(attrs, Context::Stream, true, stream_body)
    } else if spec_path_eq(path, "try_stream_block"@) {
        block_coroutine(attrs, Context::TryStream, true, try_body)
    } else {
        ExprView::Macro { attrs, path, tokens, body }
    }
}

/// Each element of `v` rewritten in scope `s`.
pub open spec fn rewrite_all(v: Seq<ExprView>, s: Scope) -> Seq<ExprView>
    decreases v,
{
    Seq::new(
        v.len(),
        |i: int|
            if 0 <= i < v.len() {
                rewrite(v[i], s)
            } else {
                ExprView::Unit
            },
    )
}

/// `e` rewritten in scope `s`: children first, then the node itself, each in
/// the scope that `enter` gives.
pub open spec fn rewrite(e: ExprView, s: Scope) -> ExprView
    decreases e,
{
    let s2 = enter(e, s);
    match e {
        ExprView::ForLoop { attrs, label, pat, iter, body } => for_loop_rule(
            attrs,
            label,
            pat,
            rewrite(*iter, s2),
            rewrite_all(body, s2),
            s2,
        ),
        ExprView::Await(b) => await_rule(rewrite(*b, s2), s2),
        ExprView::Yield(v) => yield_rule(
            match v {
                Some(x) => Some(Box::new(rewrite(*x, s2))),
                None => None,
            },
            s2,
        ),
        ExprView::Async { attrs, capture, body } => if s2 == Scope::Other {
            async_rule(
                attrs,
                capture,
                body,
                rewrite_all(body, Scope::Stream),
                rewrite_all(body, Scope::TryStream),
            )
        } else {
            ExprView::Async { attrs, capture, body: rewrite_all(body, s2) }
        },
        ExprView::Closure { is_async, head, body } => ExprView::Closure {
            is_async,
            head,
            body: Box::new(rewrite(*body, s2)),
        },
        ExprView::Macro { attrs, path, tokens, body } => if s2 == Scope::Other {
            macro_rule(
                attrs,
                path,
                tokens,
                body,
                rewrite_all(body, Scope::Stream),
                rewrite_all(body, Scope::TryStream),
            )
        } else {
            e
        },
        ExprView::Let { pat, init } => ExprView::Let {
            pat,
            init: match init {
                Some(x) => Some(Box::new(rewrite(*x, s2))),
                None => None,
            },
        },
        ExprView::Node { head, children } => ExprView::Node {
            head,
            children: rewrite_all(children, s2),
        },
        _ => e,
    }
}

/// `true` when some attribute names a stream marker.
fn any_stream_marker(attrs: &Vec<Attr>) -> (r: bool)
    ensures
        r == has_stream_marker(attrs@),
{
    let mut i: usize = 0;
    while i < attrs.len()
        invariant
            i <= attrs.len(),
            forall|j: int|
                0 <= j < i ==> !(spec_path_eq(#[trigger] attrs@[j].path@, "stream"@)
                    || spec_path_eq(attrs@[j].path@, "try_stream"@)),
        decreases attrs.len() - i,
    {
        if path_eq(&attrs[i].path, "stream") || path_eq(&attrs[i].path, "try_stream") {
            return true;
        }
        i = i + 1;
    }
    false
}

/// The scope in force inside `e`.
fn enter_scope(e: &Expr, s: Scope) -> (r: Scope)
    ensures
        r == enter(e@, s),
{
    match e {
        Expr::Async { attrs, .. } => if any_stream_marker(attrs) {
            Scope::Other
        } else {
            Scope::Future
        },
        Expr::Closure { is_async, .. } => if *is_async {
            Scope::Future
        } else {
            Scope::Closure
        },
        Expr::Macro { path, .. } => if path_eq(path, "stream_block") || path_eq(
            path,
            "try_stream_block",
        ) {
            Scope::Other
        } else {
            s
        },
        _ => s,
    }
}

/// The `#[for_await]` rule on a loop whose parts were already rewritten.
fn for_loop_exec(
    attrs: Vec<Attr>,
    label: Option<String>,
    pat: Pat,
    iter: Expr,
    body: Vec<Expr>,
    s: Scope,
) -> (r: Expr)
    requires
        s != Scope::Other,
    ensures
        r@ == for_loop_rule(attrs@, label, pat, iter@, view_all(body), s),
{
    let ghost spec_r = for_loop_rule(attrs@, label, pat, iter@, view_all(body), s);
    match position_exact(&attrs, "for_await") {
        Err(err) => {
            assert(spec_position_exact(attrs@, "for_await"@) is Err);
            Expr::CompileError(err.message)
        },
        Ok(None) => {
            assert(spec_position_exact(attrs@, "for_await"@) is Ok);
            let r = Expr::ForLoop { attrs, label, pat, iter: Box::new(iter), body };
            assert(r@ == spec_r);
            r
        },
        Ok(Some(_)) => {
            if s == Scope::Closure {
                let r = Expr::CompileError(
                    String::from_str(
                        "for await may not be allowed outside of async blocks, functions, closures, async stream blocks, and functions",
                    ),
                );
                assert(r@ == spec_r);
                r
            } else {
                let fetch = if s == Scope::Future {
                    Expr::NextOrBreak
                } else {
                    Expr::PollNextOrPending
                };
                let ghost old_body = body;
                let mut body = body;
                body.insert(0, Expr::Let { pat, init: Some(Box::new(fetch)) });
                proof {
                    let l = view_expr(Expr::Let { pat, init: Some(Box::new(fetch)) });
                    assert(view_expr(fetch) == (if s == Scope::Future {
                        ExprView::NextOrBreak
                    } else {
                        ExprView::PollNextOrPending
                    }));
                    assert(l == ExprView::Let { pat, init: Some(Box::new(view_expr(fetch))) });
                    assert(view_all(body) =~= seq![l] + view_all(old_body));
                }
                let r = Expr::PinnedLoop { label, iter: Box::new(iter), body };
                assert(r@ == spec_r);
                r
            }
        },
    }
}

/// Each element of `v` rewritten in scope `s`.
#[verifier::loop_isolation(false)]
fn rewrite_block(v: Vec<Expr>, s: Scope) -> (r: Vec<Expr>)
    requires
        s != Scope::Other,
    ensures
        view_all(r) == rewrite_all(view_all(v), s),
    decreases v,
{
    let ghost orig = v;
    let mut v = v;
    let mut out: Vec<Expr> = Vec::new();
    while v.len() > 0
        invariant
            out@.len() + v@.len() == orig@.len(),
            forall|j: int|
                0 <= j < out@.len() ==> view_expr(#[trigger] out@[j]) == rewrite(
                    view_expr(orig@[j]),
                    s,
                ),
            forall|j: int| 0 <= j < v@.len() ==> #[trigger] v@[j] == orig@[out@.len() + j],
        decreases v@.len(),
    {
        let x = v.remove(0);
        proof {
            let k = out@.len() as int;
            assert(x == orig@[k]);
            assert(decreases_to!(orig => orig@));
            assert(decreases_to!(orig@ => orig@[k]));
        }
        let y = rewrite_expr(x, s);
        out.push(y);
    }
    assert(view_all(out) =~= rewrite_all(view_all(orig), s));
    out
}

/// `e` rewritten in scope `s`.
fn rewrite_expr(e: Expr, s: Scope) -> (r: Expr)
    requires
        s != Scope::Other,
    ensures
        r@ == rewrite(e@, s),
    decreases e,
{
    // Each arm closes by matching its result against one unfolding of `rewrite`.
    let ghost goal = rewrite(e@, s);
    let s2 = enter_scope(&e, s);
    let r = match e {
        Expr::ForLoop { attrs, label, pat, iter, body } => {
            let iter = rewrite_expr(*iter, s2);
            let body = rewrite_block(body, s2);
            let r = for_loop_exec(attrs, label, pat, iter, body, s2);
            assert(r@ == goal);
            r
        },
        Expr::Await(b) => {
            let b = rewrite_expr(*b, s2);
            let r = if s2.is_stream() {
                Expr::PollAwait(Box::new(b))
            } else {
                Expr::Await(Box::new(b))
            };
            assert(r@ == goal);
            r
        },
        Expr::Yield(v) => {
            let v = match v {
                Some(x) => Some(Box::new(rewrite_expr(*x, s2))),
                None => None,
            };
            let r = if s2.is_stream() {
                Expr::ResumeYield(
                    match v {
                        Some(x) => x,
                        None => Box::new(Expr::Unit),
                    },
                )
            } else {
                Expr::Yield(v)
            };
            assert(r@ == goal);
            r
        },
        Expr::Async { attrs, capture, body } => {
            if s2 == Scope::Other {
                match position_marker(&attrs, "stream") {
                    Err(m) => Expr::CompileError(m.message),
                    Ok(a) => match position_marker(&attrs, "try_stream") {
                        Err(m) => Expr::CompileError(m.message),
                        Ok(b) => {
                            if a.is_some() && b.is_some() {
                                Expr::CompileError(
                                    String::from_str(
                                        "#[stream] and #[try_stream] may not be used at the same time",
                                    ),
                                )
                            } else if a.is_some() {
                                let body = rewrite_block(body, Scope::Stream);
                                Expr::Coroutine {
                                    attrs: Vec::new(),
                                    cx: Context::Stream,
                                    capture,
                                    error: None,
                                    boxed: false,
                                    body,
                                }
                            } else if b.is_some() {
                                let body = rewrite_block(body, Scope::TryStream);
                                Expr::Coroutine {
                                    attrs: Vec::new(),
                                    cx: Context::TryStream,
                                    capture,
                                    error: None,
                                    boxed: false,
                                    body,
                                }
                            } else {
                                Expr::Async { attrs, capture, body }
                            }
                        },
                    },
                }
            } else {
                let body = rewrite_block(body, s2);
                let r = Expr::Async { attrs, capture, body };
                assert(r@ == goal);
                r
            }
        },
        Expr::Closure { is_async, head, body } => {
            let body = rewrite_expr(*body, s2);
            let r = Expr::Closure { is_async, head, body: Box::new(body) };
            assert(r@ == goal);
            r
        },
        Expr::Macro { attrs, path, tokens, body } => {
            if s2 == Scope::Other {
                if path_eq(&path, "stream_block") {
                    let body = rewrite_block(body, Scope::Stream);
                    Expr::Coroutine {
                        attrs,
                        cx: Context::Stream,
                        capture: true,
                        error: None,
                        boxed: false,
                        body,
                    }
                } else if path_eq(&path, "try_stream_block") {
                    let body = rewrite_block(body, Scope::TryStream);
                    Expr::Coroutine {
                        attrs,
                        cx: Context::TryStream,
                        capture: true,
                        error: None,
                        boxed: false,
                        body,
                    }
                } else {
                    Expr::Macro { attrs, path, tokens, body }
                }
            } else {
                Expr::Macro { attrs, path, tokens, body }
            }
        },
        Expr::Let { pat, init } => {
            let init = match init {
                Some(x) => Some(Box::new(rewrite_expr(*x, s2))),
                None => None,
            };
            let r = Expr::Let { pat, init };
            assert(r@ == goal);
            r
        },
        Expr::Node { head, children } => {
            let children = rewrite_block(children, s2);
            let r = Expr::Node { head, children };
            assert(r@ == goal);
            r
        },
        other => {
            assert(other@ == goal);
            other
        },
    };
    assert(r@ == goal);
    r
}

/// A walk of the syntax tree in one scope.
#[derive(Clone, Copy, Debug)]
pub struct Visitor {
    pub scope: Scope,
}

impl Visitor {
    pub fn new(scope: Scope) -> (r: Visitor)
        ensures
            r.scope == scope,
    {
        Visitor { scope }
    }

    /// Rewrites `e` and everything under it.
    pub fn visit_expr(&self, e: Expr) -> (r: Expr)
        requires
            self.scope != Scope::Other,
        ensures
            r@ == rewrite(e@, self.scope),
    {
        rewrite_expr(e, self.scope)
    }

    /// Rewrites each statement of a block.
    pub fn visit_block(&self, v: Vec<Expr>) -> (r: Vec<Expr>)
        requires
            self.scope != Scope::Other,
        ensures
            view_all(r) == rewrite_all(view_all(v), self.scope),
    {
        rewrite_block(v, self.scope)
    }

    /// Applies the `#[for_await]` rule to `e` alone, leaving what it holds as
    /// it is.
    pub fn visit_for_loop(&self, e: Expr) -> (r: Expr)
        requires
            self.scope != Scope::Other,
        ensures
            r@ == for_loop_visit(e@, self.scope),
    {
        match e {
            Expr::ForLoop { attrs, label, pat, iter, body } => for_loop_exec(
                attrs,
                label,
                pat,
                *iter,
                body,
                self.scope,
            ),
            other => other,
        }
    }
}

/// The view of the block form of an async body of flavor `cx`: the body
/// rewritten in the flavor's scope, inside a coroutine.
pub open spec fn spec_expand_block(capture: bool, body: Seq<ExprView>, cx: Context) -> ExprView {
    block_coroutine(seq![], cx, capture, rewrite_all(body, cx.spec_scope()))
}

/// Expands an `async` block as a stream of flavor `cx`.
pub fn expand_block(capture: bool, body: Vec<Expr>, cx: Context) -> (r: Expr)
    ensures
        r@ == spec_expand_block(capture, view_all(body), cx),
{
    let body = rewrite_block(body, Scope::from(cx));
    Expr::Coroutine { attrs: Vec::new(), cx, capture, error: None, boxed: false, body }
}

/// `true` when `e` holds no `for` loop, no marked `async` block and no block
/// macro: nothing that the rewrite would expand apart from `.await` and
/// `yield`.
pub open spec fn suspension_only(e: ExprView) -> bool
    decreases e,
{
    match e {
        ExprView::ForLoop { .. } => false,
        ExprView::Await(b) => suspension_only(*b),
        ExprView::Yield(v) => match v {
            Some(x) => suspension_only(*x),
            None => true,
        },
        ExprView::Async { attrs, body, .. } => !has_stream_marker(attrs) && forall|i: int|
            0 <= i < body.len() ==> suspension_only(#[trigger] body[i]),
        ExprView::Closure { body, .. } => suspension_only(*body),
        ExprView::Macro { path, .. } => !is_block_macro(path),
        ExprView::Let { init, .. } => match init {
            Some(x) => suspension_only(*x),
            None => true,
        },
        ExprView::Node { children, .. } => forall|i: int|
            0 <= i < children.len() ==> suspension_only(#[trigger] children[i]),
        _ => true,
    }
}

/// A `for` loop without the `#[for_await]` marker comes out of the loop rule
/// exactly as it went in, in every scope.
pub proof fn lemma_unmarked_for_loop_unchanged(
    attrs: Seq<Attr>,
    label: Option<String>,
    pat: Pat,
    iter: ExprView,
    body: Seq<ExprView>,
    s: Scope,
)
    requires
        first_ident(attrs, "for_await"@, 0) is None,
    ensures
        for_loop_rule(attrs, label, pat, iter, body, s) == (ExprView::ForLoop {
            attrs,
            label,
            pat,
            iter: Box::new(iter),
            body,
        }),
{
}

/// The `#[for_await]` rule consumes its marker: applied a second time, in
/// the same scope, it changes nothing.
pub proof fn lemma_for_loop_idempotent(e: ExprView, s: Scope)
    ensures
        for_loop_visit(for_loop_visit(e, s), s) == for_loop_visit(e, s),
{
}

/// Outside the stream scopes (in a plain closure, in an `async` block),
/// `.await` and `yield` are left as they are: a tree that holds nothing else
/// to expand comes out of the rewrite unchanged.
pub proof fn lemma_scope_gating(e: ExprView, s: Scope)
    requires
        !s.spec_is_stream(),
        s != Scope::Other,
        suspension_only(e),
    ensures
        rewrite(e, s) == e,
    decreases e,
{
    let s2 = enter(e, s);
    assert(!s2.spec_is_stream() && s2 != Scope::Other);
    match e {
        ExprView::Await(b) => {
            lemma_scope_gating(*b, s2);
        },
        ExprView::Yield(v) => {
            if let Some(x) = v {
                lemma_scope_gating(*x, s2);
            }
        },
        ExprView::Async { attrs, capture, body } => {
            assert forall|i: int| 0 <= i < body.len() implies rewrite(body[i], s2) == body[i] by {
                lemma_scope_gating(body[i], s2);
            }
            assert(rewrite_all(body, s2) =~= body);
        },
        ExprView::Closure { is_async, head, body } => {
            lemma_scope_gating(*body, s2);
        },
        ExprView::Let { pat, init } => {
            if let Some(x) = init {
                lemma_scope_gating(*x, s2);
            }
        },
        ExprView::Node { head, children } => {
            assert forall|i: int| 0 <= i < children.len() implies rewrite(children[i], s2)
                == children[i] by {
                lemma_scope_gating(children[i], s2);
            }
            assert(rewrite_all(children, s2) =~= children);
        },
        _ => {},
    }
}

} // verus!
