//! Function signatures: types with their lifetimes, parameters, generics, and
//! the structural checks that a decorated function must pass.
use vstd::prelude::*;
use vstd::string::*;

use crate::attrs::{first_ident, is_ident, spec_is_ident, str_eq};
use crate::names::{decimal, numbered};
use crate::scope::Context;
use crate::syntax::{view_all, Attr, Error, Expr, ExprView, Pat, Site};

verus! {

/// A type, as far as its lifetimes go.
#[derive(Debug)]
pub enum Ty {
    /// `&'lifetime mut? elem`; `None` when the lifetime is elided.
    Ref { lifetime: Option<String>, mutability: bool, elem: Box<Ty> },
    /// `path<args>`
    Path { path: String, args: Vec<Ty> },
    /// A lifetime in a generic argument list, such as the `'a` of `Foo<'a>`.
    Lifetime(String),
    /// `(elems)`; the unit type when empty.
    Tuple(Vec<Ty>),
    /// Any other type: its text, with the types inside it in order.
    Other { text: String, children: Vec<Ty> },
}

/// The mathematical value of a [`Ty`].
pub enum TyView {
    Ref { lifetime: Option<Seq<char>>, mutability: bool, elem: Box<TyView> },
    Path { path: String, args: Seq<TyView> },
    Lifetime(Seq<char>),
    Tuple(Seq<TyView>),
    Other { text: String, children: Seq<TyView> },
}

pub open spec fn view_tys(v: Vec<Ty>) -> Seq<TyView>
    decreases v,
{
    Seq::new(
        v@.len(),
        |i: int|
            if 0 <= i < v@.len() {
                view_ty(v@[i])
            } else {
                TyView::Tuple(seq![])
            },
    )
}

pub open spec fn view_ty(t: Ty) -> TyView
    decreases t,
{
    match t {
        Ty::Ref { lifetime, mutability, elem } => TyView::Ref {
            lifetime: match lifetime {
                Some(l) => Some(l@),
                None => None,
            },
            mutability,
            elem: Box::new(view_ty(*elem)),
        },
        Ty::Path { path, args } => TyView::Path { path, args: view_tys(args) },
        Ty::Lifetime(l) => TyView::Lifetime(l@),
        Ty::Tuple(elems) => TyView::Tuple(view_tys(elems)),
        Ty::Other { text, children } => TyView::Other { text, children: view_tys(children) },
    }
}

impl View for Ty {
    type V = TyView;

    open spec fn view(&self) -> TyView {
        view_ty(*self)
    }
}

/// A generic parameter: a lifetime by name, or a type or const parameter as
/// text.
#[derive(Debug)]
pub enum GenericParam {
    Lifetime(String),
    Type(String),
    Const(String),
}

/// A parameter of a function.
#[derive(Debug)]
pub enum FnArg {
    /// `self`, `&'lifetime mut? self` or `self: ty`; `reference` is
    /// `Some(lifetime)` for the reference forms.
    Receiver { reference: Option<Option<String>>, mutability: bool, ty: Ty },
    /// `pat: ty`
    Typed { pat: Pat, ty: Ty },
}

pub enum FnArgView {
    Receiver { reference: Option<Option<Seq<char>>>, mutability: bool, ty: TyView },
    Typed { pat: Pat, ty: TyView },
}

pub open spec fn view_arg(a: FnArg) -> FnArgView {
    match a {
        FnArg::Receiver { reference, mutability, ty } => FnArgView::Receiver {
            reference: match reference {
                Some(Some(l)) => Some(Some(l@)),
                Some(None) => Some(None),
                None => None,
            },
            mutability,
            ty: ty@,
        },
        FnArg::Typed { pat, ty } => FnArgView::Typed { pat, ty: ty@ },
    }
}

pub open spec fn view_args(v: Seq<FnArg>) -> Seq<FnArgView> {
    Seq::new(v.len(), |i: int| view_arg(v[i]))
}

/// A function signature.
#[derive(Debug)]
pub struct Signature {
    pub constness: bool,
    pub asyncness: bool,
    pub unsafety: bool,
    pub abi: Option<String>,
    pub ident: String,
    pub generics: Vec<GenericParam>,
    pub inputs: Vec<FnArg>,
    pub variadic: bool,
    /// The declared return type, if any.
    pub output: Option<Ty>,
    pub where_clause: Option<String>,
    /// The lifetimes that `for<..>` binds in the bounds of the generic
    /// parameters and in the `where` clause.
    pub bound_lifetimes: Vec<String>,
}

/// A decorated function: its attributes, visibility, signature and body;
/// `semi` for a trait method declared without a body.
#[derive(Debug)]
pub struct FnSig {
    pub attrs: Vec<Attr>,
    pub vis: String,
    pub sig: Signature,
    pub block: Vec<Expr>,
    pub semi: bool,
}

/// The index of the first attribute that is the bare marker `name`.
fn find(attrs: &Vec<Attr>, name: &str) -> (r: Option<usize>)
    ensures
        match (r, first_ident(attrs@, name@, 0)) {
            (Some(i), Some(j)) => i == j,
            (None, None) => true,
            _ => false,
        },
{
    let mut i: usize = 0;
    while i < attrs.len()
        invariant
            i <= attrs@.len(),
            first_ident(attrs@, name@, 0) == first_ident(attrs@, name@, i as int),
        decreases attrs.len() - i,
    {
        if is_ident(&attrs[i].path, name) {
            return Some(i);
        }
        i = i + 1;
    }
    None
}

/// `true` when the declared return type is absent or `()`.
pub open spec fn returns_unit(output: Option<TyView>) -> bool {
    match output {
        None => true,
        Some(TyView::Tuple(elems)) => elems.len() == 0,
        Some(_) => false,
    }
}

/// The checks on a decorated item, in order: the first that fails gives the
/// message. `sig` is absent for an `async` block.
pub open spec fn spec_validate(
    sig: Option<(bool, bool, bool, Option<TyView>)>,
    attrs: Seq<Attr>,
    cx: Context,
) -> Result<(), (Seq<char>, Site)> {
    let (duplicate, another) = match cx {
        Context::Stream => ("stream"@, "try_stream"@),
        Context::TryStream => ("try_stream"@, "stream"@),
    };
    match sig {
        Some((asyncness, constness, variadic, _)) if !asyncness => Err(
            ("async stream must be declared as async"@, Site::FnToken),
        ),
        Some((asyncness, constness, variadic, _)) if constness => Err(
            ("async stream may not be const"@, Site::ConstToken),
        ),
        Some((asyncness, constness, variadic, _)) if variadic => Err(
            ("async stream may not be variadic"@, Site::Variadic),
        ),
        Some((asyncness, constness, variadic, output)) if !returns_unit(output) => Err(
            ("async stream must return the unit type"@, Site::ReturnType),
        ),
        _ => match (first_ident(attrs, duplicate, 0), first_ident(attrs, another, 0)) {
            (Some(i), _) => Err(("duplicate #["@ + duplicate + "] attribute"@, Site::Attr(i as usize))),
            (None, Some(i)) => Err(
                (
                    "#[stream] and #[try_stream] may not be used at the same time"@,
                    Site::Attr(i as usize),
                ),
            ),
            (None, None) => Ok(()),
        },
    }
}

/// The parts of a signature that the checks read.
pub open spec fn sig_facts(sig: Signature) -> (bool, bool, bool, Option<TyView>) {
    (
        sig.asyncness,
        sig.constness,
        sig.variadic,
        match sig.output {
            Some(t) => Some(t@),
            None => None,
        },
    )
}

fn is_unit_output(output: &Option<Ty>) -> (r: bool)
    ensures
        r == returns_unit(
            match *output {
                Some(t) => Some(t@),
                None => None,
            },
        ),
{
    match output {
        None => true,
        Some(t) => match t {
            Ty::Tuple(elems) => {
                assert(view_ty(*t) == TyView::Tuple(view_tys(*elems)));
                assert(view_tys(*elems).len() == elems@.len());
                elems.len() == 0
            },
            _ => {
                assert(!(view_ty(*t) is Tuple));
                false
            },
        },
    }
}

/// Checks a decorated function (`sig`) or `async` block (no `sig`) before
/// any rewriting.
pub fn validate_signature(sig: Option<&Signature>, attrs: &Vec<Attr>, cx: Context) -> (r: Result<
    (),
    Error,
>)
    ensures
        match (
            r,
            spec_validate(
                match sig {
                    Some(s) => Some(sig_facts(*s)),
                    None => None,
                },
                attrs@,
                cx,
            ),
        ) {
            (Ok(()), Ok(())) => true,
            (Err(e), Err((m, at))) => e.message@ == m && e.at == at,
            _ => false,
        },
{
    if let Some(sig) = sig {
        if !sig.asyncness {
            return Err(Error { message: String::from_str("async stream must be declared as async"), at: Site::FnToken });
        }
        if sig.constness {
            return Err(Error { message: String::from_str("async stream may not be const"), at: Site::ConstToken });
        }
        if sig.variadic {
            return Err(Error { message: String::from_str("async stream may not be variadic"), at: Site::Variadic });
        }
        if !is_unit_output(&sig.output) {
            return Err(Error { message: String::from_str("async stream must return the unit type"), at: Site::ReturnType });
        }
    }
    let (duplicate, another) = match cx {
        Context::Stream => ("stream", "try_stream"),
        Context::TryStream => ("try_stream", "stream"),
    };
    if let Some(i) = find(attrs, duplicate) {
        let mut m = String::from_str("duplicate #[");
        m.append(duplicate);
        m.append("] attribute");
        Err(Error { message: m, at: Site::Attr(i) })
    } else if let Some(i) = find(attrs, another) {
        Err(
            Error {
                message: String::from_str("#[stream] and #[try_stream] may not be used at the same time"),
                at: Site::Attr(i),
            },
        )
    } else {
        Ok(())
    }
}

/// `true` when a parameter with this pattern cannot be bound by the
/// coroutine directly: a `ref` binding other than `self`.
pub open spec fn needs_rebinding(pat: Pat) -> bool {
    match pat {
        Pat::Ident { by_ref, name, .. } => by_ref && name@ != "self"@,
        Pat::Other(_) => false,
    }
}

/// The name of the plain parameter that stands for parameter `i`.
pub open spec fn arg_name(i: int) -> Seq<char> {
    "__arg"@ + decimal(i as nat)
}

/// The positions, in order, of the parameters among `inputs[..n]` that need
/// rebinding.
pub open spec fn rebound(inputs: Seq<FnArgView>, n: int) -> Seq<int>
    decreases n,
{
    if n <= 0 {
        seq![]
    } else {
        let rest = rebound(inputs, n - 1);
        match inputs[n - 1] {
            FnArgView::Typed { pat, .. } => if needs_rebinding(pat) {
                rest.push(n - 1)
            } else {
                rest
            },
            _ => rest,
        }
    }
}

/// Parameter `a` at position `i` after desugaring, as `r`.
pub open spec fn desugared_arg(a: FnArgView, i: int, r: FnArgView) -> bool {
    match a {
        FnArgView::Typed { pat, ty } => if needs_rebinding(pat) {
            match r {
                FnArgView::Typed { pat: Pat::Ident { by_ref, mutability, name }, ty: rty } => !by_ref
                    && mutability && name@ == arg_name(i) && rty == ty,
                _ => false,
            }
        } else {
            r == a
        },
        _ => r == a,
    }
}

/// `let pat = __argI;` for the parameter at position `i`.
pub open spec fn rebinding_stmt(a: FnArgView, i: int, st: ExprView) -> bool {
    match (a, st) {
        (FnArgView::Typed { pat, .. }, ExprView::Let { pat: lpat, init: Some(init) }) => lpat
            == pat && match *init {
            ExprView::Node { head, children } => head@ == arg_name(i) && children.len() == 0,
            _ => false,
        },
        _ => false,
    }
}

/// Replaces each `ref` parameter with a plain `mut __argN` one, and returns
/// the statements that bind the replaced patterns from them, in parameter
/// order, to stand first in the body.
pub fn expand_async_body(inputs: Vec<FnArg>) -> (r: (Vec<FnArg>, Vec<Expr>))
    ensures
        r.0@.len() == inputs@.len(),
        forall|i: int|
            0 <= i < inputs@.len() ==> desugared_arg(
                view_arg(inputs@[i]),
                i,
                view_arg(#[trigger] r.0@[i]),
            ),
        r.1@.len() == rebound(view_args(inputs@), inputs@.len() as int).len(),
        forall|j: int|
            0 <= j < r.1@.len() ==> 0 <= #[trigger] rebound(view_args(inputs@), inputs@.len() as int)[j]
                < inputs@.len(),
        forall|j: int|
            0 <= j < r.1@.len() ==> rebinding_stmt(
                view_arg(inputs@[rebound(view_args(inputs@), inputs@.len() as int)[j]]),
                rebound(view_args(inputs@), inputs@.len() as int)[j],
                #[trigger] view_all(r.1)[j],
            ),
{
    let ghost orig = inputs@;
    let ghost ov = view_args(inputs@);
    let total = inputs.len();
    let mut inputs = inputs;
    let mut arguments: Vec<FnArg> = Vec::new();
    let mut statements: Vec<Expr> = Vec::new();
    let mut i: usize = 0;
    while inputs.len() > 0
        invariant
            ov == view_args(orig),
            orig.len() == total,
            i == arguments@.len(),
            i + inputs@.len() == orig.len(),
            forall|j: int| 0 <= j < inputs@.len() ==> #[trigger] inputs@[j] == orig[i + j],
            forall|j: int|
                0 <= j < i ==> desugared_arg(view_arg(orig[j]), j, view_arg(#[trigger] arguments@[j])),
            statements@.len() == rebound(ov, i as int).len(),
            forall|j: int|
                0 <= j < statements@.len() ==> rebinding_stmt(
                    view_arg(orig[rebound(ov, i as int)[j]]),
                    rebound(ov, i as int)[j],
                    #[trigger] view_all(statements)[j],
                ),
            forall|j: int| 0 <= j < rebound(ov, i as int).len() ==> 0 <= #[trigger] rebound(ov, i as int)[j] < i,
        decreases inputs@.len(),
    {
        let a = inputs.remove(0);
        assert(a == orig[i as int]);
        assert(ov[i as int] == view_arg(a));
        let ghost old_stmts = statements;
        let ghost prev = rebound(ov, i as int);
        match a {
            FnArg::Typed { pat, ty } => {
                let rebind = match &pat {
                    Pat::Ident { by_ref, name, .. } => *by_ref && !str_eq(name.as_str(), "self"),
                    Pat::Other(_) => false,
                };
                if rebind {
                    let name = numbered("__arg", i);
                    let head = numbered("__arg", i);
                    let ghost gpat = pat;
                    let ghost ghead = head;
                    let children: Vec<Expr> = Vec::new();
                    assert(view_all(children).len() == 0);
                    let ghost gchildren = children;
                    let node = Expr::Node { head, children };
                    let ghost gnode = node;
                    assert(crate::syntax::view_expr(gnode) == ExprView::Node {
                        head: ghead,
                        children: view_all(gchildren),
                    });
                    let st = Expr::Let { pat, init: Some(Box::new(node)) };
                    assert(crate::syntax::view_expr(st) == ExprView::Let {
                        pat: gpat,
                        init: Some(Box::new(crate::syntax::view_expr(gnode))),
                    });
                    assert(rebinding_stmt(view_arg(orig[i as int]), i as int, crate::syntax::view_expr(st)));
                    statements.push(st);
                    arguments.push(
                        FnArg::Typed {
                            pat: Pat::Ident { by_ref: false, mutability: true, name },
                            ty,
                        },
                    );
                    proof {
                        assert(rebound(ov, i + 1) == prev.push(i as int));
                        assert forall|j: int| 0 <= j < statements@.len() implies rebinding_stmt(
                            view_arg(orig[rebound(ov, i + 1)[j]]),
                            rebound(ov, i + 1)[j],
                            #[trigger] view_all(statements)[j],
                        ) by {
                            if j < old_stmts@.len() {
                                assert(view_all(statements)[j] == view_all(old_stmts)[j]);
                            } else {
                                assert(j == old_stmts@.len());
                                assert(statements@[j] == st);
                            }
                        }
                    }
                } else {
                    arguments.push(FnArg::Typed { pat, ty });
                    proof {
                        assert(rebound(ov, i + 1) == prev);
                        assert forall|j: int| 0 <= j < statements@.len() implies rebinding_stmt(
                            view_arg(orig[rebound(ov, i + 1)[j]]),
                            rebound(ov, i + 1)[j],
                            #[trigger] view_all(statements)[j],
                        ) by {
                            assert(view_all(statements)[j] == view_all(old_stmts)[j]);
                        }
                    }
                }
            },
            other => {
                arguments.push(other);
                proof {
                    assert(rebound(ov, i + 1) == prev);
                    assert forall|j: int| 0 <= j < statements@.len() implies rebinding_stmt(
                        view_arg(orig[rebound(ov, i + 1)[j]]),
                        rebound(ov, i + 1)[j],
                        #[trigger] view_all(statements)[j],
                    ) by {
                        assert(view_all(statements)[j] == view_all(old_stmts)[j]);
                    }
                }
            },
        }
        i = i + 1;
    }
    (arguments, statements)
}

} // verus!
