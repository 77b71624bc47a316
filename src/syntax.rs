//! The syntax tree that the engine reads and writes: the shapes of expression
//! that the rewrite cares about, with everything else carried as opaque text
//! around its subexpressions.
use vstd::prelude::*;

use crate::scope::Context;

verus! {

/// One token of an attribute's argument list.
#[derive(Clone, Debug)]
pub enum Tok {
    /// An identifier or keyword.
    Ident(String),
    /// A single punctuation character.
    Punct(char),
    /// A literal, or a delimited group, as source text.
    Other(String),
}

/// An outer attribute: the segments of its path, whether it is a bare path
/// (`#[name]`) rather than a list or a name-value form, and its source text.
#[derive(Clone, Debug)]
pub struct Attr {
    pub path: Vec<String>,
    pub path_only: bool,
    pub text: String,
}

/// A pattern: a plain binding, or anything else as source text.
#[derive(Clone, Debug)]
pub enum Pat {
    Ident { by_ref: bool, mutability: bool, name: String },
    Other(String),
}

/// An expression or statement.
#[derive(Debug)]
pub enum Expr {
    /// `#[attrs] 'label: for pat in iter { body }`
    ForLoop {
        attrs: Vec<Attr>,
        label: Option<String>,
        pat: Pat,
        iter: Box<Expr>,
        body: Vec<Expr>,
    },
    /// `base.await`
    Await(Box<Expr>),
    /// `yield` or `yield value`
    Yield(Option<Box<Expr>>),
    /// `#[attrs] async move? { body }`
    Async { attrs: Vec<Attr>, capture: bool, body: Vec<Expr> },
    /// `async? |..| body`; `head` is its text up to the body.
    Closure { is_async: bool, head: String, body: Box<Expr> },
    /// `path!(tokens)`; `body` holds the tokens read as statements where they
    /// form a block.
    Macro { attrs: Vec<Attr>, path: Vec<String>, tokens: String, body: Vec<Expr> },
    /// `let pat = init;`
    Let { pat: Pat, init: Option<Box<Expr>> },
    /// Any other expression: its text, with its subexpressions in order.
    Node { head: String, children: Vec<Expr> },
    /// A nested item (function, impl, ...): never walked.
    Item(String),
    /// `()`
    Unit,
    /// `{ let mut __pinned = iter; let mut __pinned = pin(&mut __pinned); 'label: loop { body } }`
    PinnedLoop { label: Option<String>, iter: Box<Expr>, body: Vec<Expr> },
    /// In a future: `match next(&mut __pinned).await { Some(e) => e, None => break }`
    NextOrBreak,
    /// In a stream: poll `__pinned` with the resume context; on `Ready(Some(e))`
    /// give `e`, on `Ready(None)` break, on `Pending` yield `Pending` and continue.
    PollNextOrPending,
    /// In a stream: pin `base` and poll it with the resume context until it is
    /// ready, yielding `Pending` in between.
    PollAwait(Box<Expr>),
    /// `__task_context = yield Poll::Ready(value)`
    ResumeYield(Box<Expr>),
    /// `from_coroutine(static move? |mut __task_context| -> ret { body; tail })`,
    /// in `Box::pin(..)` when `boxed`.
    Coroutine {
        attrs: Vec<Attr>,
        cx: Context,
        capture: bool,
        error: Option<Vec<Tok>>,
        boxed: bool,
        body: Vec<Expr>,
    },
    /// A compile error carrying its message, standing where the faulty
    /// expression stood.
    CompileError(String),
}

/// Where a diagnostic points.
#[derive(Clone, Copy, Debug, PartialEq, Eq, Structural)]
pub enum Site {
    /// The attribute as a whole.
    Input,
    /// The token at this index of the attribute's arguments.
    Arg(usize),
    /// The attribute at this index of the item's attributes.
    Attr(usize),
    /// The `fn` keyword.
    FnToken,
    /// The `const` keyword.
    ConstToken,
    /// The `...` of a variadic function.
    Variadic,
    /// The declared return type.
    ReturnType,
}

/// A diagnostic: a message that the compiler reports at the tokens `at`
/// names.
#[derive(Clone, Debug)]
pub struct Error {
    pub message: String,
    pub at: Site,
}

/// The mathematical value of an [`Expr`]: the same tree, with sequences in
/// place of vectors.
pub enum ExprView {
    ForLoop {
        attrs: Seq<Attr>,
        label: Option<String>,
        pat: Pat,
        iter: Box<ExprView>,
        body: Seq<ExprView>,
    },
    Await(Box<ExprView>),
    Yield(Option<Box<ExprView>>),
    Async { attrs: Seq<Attr>, capture: bool, body: Seq<ExprView> },
    Closure { is_async: bool, head: String, body: Box<ExprView> },
    Macro { attrs: Seq<Attr>, path: Seq<String>, tokens: String, body: Seq<ExprView> },
    Let { pat: Pat, init: Option<Box<ExprView>> },
    Node { head: String, children: Seq<ExprView> },
    Item(String),
    Unit,
    PinnedLoop { label: Option<String>, iter: Box<ExprView>, body: Seq<ExprView> },
    NextOrBreak,
    PollNextOrPending,
    PollAwait(Box<ExprView>),
    ResumeYield(Box<ExprView>),
    Coroutine {
        attrs: Seq<Attr>,
        cx: Context,
        capture: bool,
        error: Option<Seq<Tok>>,
        boxed: bool,
        body: Seq<ExprView>,
    },
    CompileError(Seq<char>),
}

/// The views of a vector's elements, in order.
pub open spec fn view_all(v: Vec<Expr>) -> Seq<ExprView>
    decreases v,
{
    Seq::new(
        v@.len(),
        |i: int|
            if 0 <= i < v@.len() {
                view_expr(v@[i])
            } else {
                ExprView::Unit
            },
    )
}

pub open spec fn view_expr(e: Expr) -> ExprView
    decreases e,
{
    match e {
        Expr::ForLoop { attrs, label, pat, iter, body } => ExprView::ForLoop {
            attrs: attrs@,
            label,
            pat,
            iter: Box::new(view_expr(*iter)),
            body: view_all(body),
        },
        Expr::Await(b) => ExprView::Await(Box::new(view_expr(*b))),
        Expr::Yield(v) => ExprView::Yield(
            match v {
                Some(x) => Some(Box::new(view_expr(*x))),
                None => None,
            },
        ),
        Expr::Async { attrs, capture, body } => ExprView::Async {
            attrs: attrs@,
            capture,
            body: view_all(body),
        },
        Expr::Closure { is_async, head, body } => ExprView::Closure {
            is_async,
            head,
            body: Box::new(view_expr(*body)),
        },
        Expr::Macro { attrs, path, tokens, body } => ExprView::Macro {
            attrs: attrs@,
            path: path@,
            tokens,
            body: view_all(body),
        },
        Expr::Let { pat, init } => ExprView::Let {
            pat,
            init: match init {
                Some(x) => Some(Box::new(view_expr(*x))),
                None => None,
            },
        },
        Expr::Node { head, children } => ExprView::Node { head, children: view_all(children) },
        Expr::Item(t) => ExprView::Item(t),
        Expr::Unit => ExprView::Unit,
        Expr::PinnedLoop { label, iter, body } => ExprView::PinnedLoop {
            label,
            iter: Box::new(view_expr(*iter)),
            body: view_all(body),
        },
        Expr::NextOrBreak => ExprView::NextOrBreak,
        Expr::PollNextOrPending => ExprView::PollNextOrPending,
        Expr::PollAwait(b) => ExprView::PollAwait(Box::new(view_expr(*b))),
        Expr::ResumeYield(b) => ExprView::ResumeYield(Box::new(view_expr(*b))),
        Expr::Coroutine { attrs, cx, capture, error, boxed, body } => ExprView::Coroutine {
            attrs: attrs@,
            cx,
            capture,
            error: match error {
                Some(t) => Some(t@),
                None => None,
            },
            boxed,
            body: view_all(body),
        },
        Expr::CompileError(m) => ExprView::CompileError(m@),
    }
}

impl View for Expr {
    type V = ExprView;

    open spec fn view(&self) -> ExprView {
        view_expr(*self)
    }
}

} // verus!
