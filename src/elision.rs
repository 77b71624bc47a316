//! Lifetime resynthesis: every elided (`&T`) or placeholder (`'_`) lifetime in
//! a function's parameters gets a fresh name, declared among the generics, so
//! that the returned stream type can name every lifetime it borrows.
use vstd::prelude::*;
use vstd::string::*;

use crate::args::push_char;
use crate::attrs::str_eq;
use crate::names::{decimal, lemma_decimal_injective, numbered};
use crate::signature::{view_arg, view_args, view_ty, view_tys, FnArg, FnArgView, GenericParam, Ty, TyView};

verus! {

/// The placeholder lifetime `'_`.
pub open spec fn placeholder() -> Seq<char> {
    "'_"@
}

/// The `n`-th fresh lifetime under `prefix`.
pub open spec fn fresh(prefix: Seq<char>, n: nat) -> Seq<char> {
    prefix + decimal(n)
}

/// `t` with its elided and placeholder lifetimes named, numbered from `n`
/// in order of occurrence; and the next number.
pub open spec fn unelide_ty(t: TyView, prefix: Seq<char>, n: nat) -> (TyView, nat)
    decreases t,
{
    match t {
        TyView::Ref { lifetime, mutability, elem } => {
            let named = lifetime is None || lifetime == Some(placeholder());
            let l2 = if named {
                Some(fresh(prefix, n))
            } else {
                lifetime
            };
            let n1 = if named {
                n + 1
            } else {
                n
            };
            let (e2, n2) = unelide_ty(*elem, prefix, n1);
            (TyView::Ref { lifetime: l2, mutability, elem: Box::new(e2) }, n2)
        },
        TyView::Path { path, args } => {
            let (a2, n2) = unelide_tys(args, prefix, n);
            (TyView::Path { path, args: a2 }, n2)
        },
        TyView::Lifetime(l) => if l == placeholder() {
            (TyView::Lifetime(fresh(prefix, n)), n + 1)
        } else {
            (t, n)
        },
        TyView::Tuple(elems) => {
            let (e2, n2) = unelide_tys(elems, prefix, n);
            (TyView::Tuple(e2), n2)
        },
        TyView::Other { text, children } => {
            let (c2, n2) = unelide_tys(children, prefix, n);
            (TyView::Other { text, children: c2 }, n2)
        },
    }
}

/// Each of `ts` in turn, the numbering running on from one to the next.
pub open spec fn unelide_tys(ts: Seq<TyView>, prefix: Seq<char>, n: nat) -> (Seq<TyView>, nat)
    decreases ts,
{
    if ts.len() == 0 {
        (seq![], n)
    } else {
        let (a, n1) = unelide_tys(ts.drop_last(), prefix, n);
        let (b, n2) = unelide_ty(ts.last(), prefix, n1);
        (a.push(b), n2)
    }
}

/// One parameter: the lifetime of a `&self` receiver, or the lifetimes in
/// the type of any other.
pub open spec fn unelide_arg(a: FnArgView, prefix: Seq<char>, n: nat) -> (FnArgView, nat) {
    match a {
        FnArgView::Receiver { reference, mutability, ty } => match reference {
            Some(l) => if l is None || l == Some(placeholder()) {
                (FnArgView::Receiver { reference: Some(Some(fresh(prefix, n))), mutability, ty }, n + 1)
            } else {
                (a, n)
            },
            None => {
                let (t2, n2) = unelide_ty(ty, prefix, n);
                (FnArgView::Receiver { reference, mutability, ty: t2 }, n2)
            },
        },
        FnArgView::Typed { pat, ty } => {
            let (t2, n2) = unelide_ty(ty, prefix, n);
            (FnArgView::Typed { pat, ty: t2 }, n2)
        },
    }
}

/// All parameters in order.
pub open spec fn unelide_args(args: Seq<FnArgView>, prefix: Seq<char>, n: nat) -> (Seq<FnArgView>, nat)
    decreases args.len(),
{
    if args.len() == 0 {
        (seq![], n)
    } else {
        let (a, n1) = unelide_args(args.drop_last(), prefix, n);
        let (b, n2) = unelide_arg(args.last(), prefix, n1);
        (a.push(b), n2)
    }
}

/// Renames the elided lifetimes of `t`, numbering from `*count`.
fn unelide_ty_exec(t: Ty, prefix: &str, count: &mut usize) -> (r: Ty)
    requires
        *old(count) + unelide_ty(t@, prefix@, *old(count) as nat).1 - *old(count) <= usize::MAX,
    ensures
        (r@, *final(count) as nat) == unelide_ty(t@, prefix@, *old(count) as nat),
    decreases t,
{
    proof {
        lemma_unelide_ty_grows(t@, prefix@, *count as nat);
    }
    match t {
        Ty::Ref { lifetime, mutability, elem } => {
            let named = match &lifetime {
                None => true,
                Some(l) => str_eq(l.as_str(), "'_"),
            };
            proof {
                lemma_unelide_ty_grows(view_ty(*elem), prefix@, *count as nat + 1);
            }
            let lifetime = if named {
                let l = numbered(prefix, *count);
                *count = *count + 1;
                Some(l)
            } else {
                lifetime
            };
            let elem = unelide_ty_exec(*elem, prefix, count);
            Ty::Ref { lifetime, mutability, elem: Box::new(elem) }
        },
        Ty::Path { path, args } => {
            let args = unelide_tys_exec(args, prefix, count);
            Ty::Path { path, args }
        },
        Ty::Lifetime(l) => {
            if str_eq(l.as_str(), "'_") {
                let l = numbered(prefix, *count);
                *count = *count + 1;
                Ty::Lifetime(l)
            } else {
                Ty::Lifetime(l)
            }
        },
        Ty::Tuple(elems) => {
            let elems = unelide_tys_exec(elems, prefix, count);
            Ty::Tuple(elems)
        },
        Ty::Other { text, children } => {
            let children = unelide_tys_exec(children, prefix, count);
            Ty::Other { text, children }
        },
    }
}

/// Renames the elided lifetimes of each of `v` in turn.
#[verifier::loop_isolation(false)]
fn unelide_tys_exec(v: Vec<Ty>, prefix: &str, count: &mut usize) -> (r: Vec<Ty>)
    requires
        *old(count) + unelide_tys(view_tys(v), prefix@, *old(count) as nat).1 - *old(count)
            <= usize::MAX,
    ensures
        (view_tys(r), *final(count) as nat) == unelide_tys(view_tys(v), prefix@, *old(count) as nat),
    decreases v,
{
    let ghost orig = v;
    let ghost n0 = *count as nat;
    let mut v = v;
    let mut out: Vec<Ty> = Vec::new();
    proof {
        assert(view_tys(orig).subrange(0, 0) =~= seq![]);
        lemma_unelide_tys_prefix_grows(view_tys(orig), prefix@, n0, 0);
    }
    while v.len() > 0
        invariant
            out@.len() + v@.len() == orig@.len(),
            forall|j: int| 0 <= j < v@.len() ==> #[trigger] v@[j] == orig@[out@.len() + j],
            (view_tys(out), *count as nat) == unelide_tys(
                view_tys(orig).subrange(0, out@.len() as int),
                prefix@,
                n0,
            ),
            n0 + unelide_tys(view_tys(orig), prefix@, n0).1 - n0 <= usize::MAX,
        decreases v@.len(),
    {
        let x = v.remove(0);
        let ghost k = out@.len() as int;
        proof {
            assert(x == orig@[k]);
            assert(decreases_to!(orig => orig@));
            assert(decreases_to!(orig@ => orig@[k]));
            let vs = view_tys(orig);
            assert(vs.subrange(0, k + 1).drop_last() =~= vs.subrange(0, k));
            assert(vs.subrange(0, k + 1).last() == view_ty(x));
            lemma_unelide_tys_prefix_grows(vs, prefix@, n0, k + 1);
            lemma_unelide_ty_grows(view_ty(x), prefix@, *count as nat);
        }
        let y = unelide_ty_exec(x, prefix, count);
        let ghost old_out = out;
        out.push(y);
        proof {
            assert(view_tys(out) =~= view_tys(old_out).push(view_ty(y)));
        }
    }
    proof {
        assert(view_tys(orig).subrange(0, orig@.len() as int) =~= view_tys(orig));
    }
    out
}

/// The numbering never runs backwards.
proof fn lemma_unelide_ty_grows(t: TyView, prefix: Seq<char>, n: nat)
    ensures
        unelide_ty(t, prefix, n).1 >= n,
    decreases t,
{
    match t {
        TyView::Ref { lifetime, mutability, elem } => {
            let named = lifetime is None || lifetime == Some(placeholder());
            lemma_unelide_ty_grows(*elem, prefix, if named { n + 1 } else { n });
        },
        TyView::Path { path, args } => lemma_unelide_tys_grows(args, prefix, n),
        TyView::Lifetime(l) => {},
        TyView::Tuple(elems) => lemma_unelide_tys_grows(elems, prefix, n),
        TyView::Other { text, children } => lemma_unelide_tys_grows(children, prefix, n),
    }
}

proof fn lemma_unelide_tys_grows(ts: Seq<TyView>, prefix: Seq<char>, n: nat)
    ensures
        unelide_tys(ts, prefix, n).1 >= n,
    decreases ts,
{
    if ts.len() > 0 {
        lemma_unelide_tys_grows(ts.drop_last(), prefix, n);
        let n1 = unelide_tys(ts.drop_last(), prefix, n).1;
        lemma_unelide_ty_grows(ts.last(), prefix, n1);
    }
}

/// Numbering a prefix of a sequence gets no further than numbering all of it.
proof fn lemma_unelide_tys_prefix_grows(ts: Seq<TyView>, prefix: Seq<char>, n: nat, k: int)
    requires
        0 <= k <= ts.len(),
    ensures
        n <= unelide_tys(ts.subrange(0, k), prefix, n).1 <= unelide_tys(ts, prefix, n).1,
    decreases ts.len() - k,
{
    lemma_unelide_tys_grows(ts.subrange(0, k), prefix, n);
    if k < ts.len() {
        lemma_unelide_tys_prefix_grows(ts, prefix, n, k + 1);
        let s = ts.subrange(0, k + 1);
        assert(s.drop_last() =~= ts.subrange(0, k));
        lemma_unelide_ty_grows(s.last(), prefix, unelide_tys(ts.subrange(0, k), prefix, n).1);
    } else {
        assert(ts.subrange(0, k) =~= ts);
    }
}

/// Renames the elided lifetimes of one parameter.
fn unelide_arg_exec(a: FnArg, prefix: &str, count: &mut usize) -> (r: FnArg)
    requires
        *old(count) + unelide_arg(view_arg(a), prefix@, *old(count) as nat).1 - *old(count)
            <= usize::MAX,
    ensures
        (view_arg(r), *final(count) as nat) == unelide_arg(view_arg(a), prefix@, *old(count) as nat),
{
    match a {
        FnArg::Receiver { reference, mutability, ty } => match reference {
            Some(l) => {
                let named = match &l {
                    None => true,
                    Some(name) => str_eq(name.as_str(), "'_"),
                };
                if named {
                    let name = numbered(prefix, *count);
                    *count = *count + 1;
                    FnArg::Receiver { reference: Some(Some(name)), mutability, ty }
                } else {
                    FnArg::Receiver { reference: Some(l), mutability, ty }
                }
            },
            None => {
                let ty = unelide_ty_exec(ty, prefix, count);
                FnArg::Receiver { reference: None, mutability, ty }
            },
        },
        FnArg::Typed { pat, ty } => {
            let ty = unelide_ty_exec(ty, prefix, count);
            FnArg::Typed { pat, ty }
        },
    }
}

proof fn lemma_unelide_arg_grows(a: FnArgView, prefix: Seq<char>, n: nat)
    ensures
        unelide_arg(a, prefix, n).1 >= n,
{
    match a {
        FnArgView::Receiver { reference, mutability, ty } => {
            if reference is None {
                lemma_unelide_ty_grows(ty, prefix, n);
            }
        },
        FnArgView::Typed { pat, ty } => lemma_unelide_ty_grows(ty, prefix, n),
    }
}

proof fn lemma_unelide_args_grows(args: Seq<FnArgView>, prefix: Seq<char>, n: nat)
    ensures
        unelide_args(args, prefix, n).1 >= n,
    decreases args.len(),
{
    if args.len() > 0 {
        lemma_unelide_args_grows(args.drop_last(), prefix, n);
        let n1 = unelide_args(args.drop_last(), prefix, n).1;
        lemma_unelide_arg_grows(args.last(), prefix, n1);
    }
}

proof fn lemma_unelide_args_prefix_grows(args: Seq<FnArgView>, prefix: Seq<char>, n: nat, k: int)
    requires
        0 <= k <= args.len(),
    ensures
        n <= unelide_args(args.subrange(0, k), prefix, n).1 <= unelide_args(args, prefix, n).1,
    decreases args.len() - k,
{
    lemma_unelide_args_grows(args.subrange(0, k), prefix, n);
    if k < args.len() {
        lemma_unelide_args_prefix_grows(args, prefix, n, k + 1);
        let s = args.subrange(0, k + 1);
        assert(s.drop_last() =~= args.subrange(0, k));
        lemma_unelide_arg_grows(s.last(), prefix, unelide_args(args.subrange(0, k), prefix, n).1);
    } else {
        assert(args.subrange(0, k) =~= args);
    }
}

/// Renames the elided lifetimes of every parameter, in order, numbering
/// from zero; returns how many names were made.
fn unelide_args_exec(args: &mut Vec<FnArg>, prefix: &str) -> (r: usize)
    requires
        unelide_args(view_args(old(args)@), prefix@, 0).1 <= usize::MAX,
    ensures
        (view_args(final(args)@), r as nat) == unelide_args(view_args(old(args)@), prefix@, 0),
{
    let ghost orig = view_args(args@);
    let ghost total = orig.len();
    let mut out: Vec<FnArg> = Vec::new();
    let mut count: usize = 0;
    proof {
        assert(orig.subrange(0, 0) =~= seq![]);
    }
    while args.len() > 0
        invariant
            orig.len() == total,
            out@.len() + args@.len() == total,
            forall|j: int| 0 <= j < args@.len() ==> view_arg(#[trigger] args@[j]) == orig[out@.len() + j],
            (view_args(out@), count as nat) == unelide_args(orig.subrange(0, out@.len() as int), prefix@, 0),
            unelide_args(orig, prefix@, 0).1 <= usize::MAX,
        decreases args@.len(),
    {
        let a = args.remove(0);
        let ghost k = out@.len() as int;
        proof {
            assert(view_arg(a) == orig[k]);
            assert(orig.subrange(0, k + 1).drop_last() =~= orig.subrange(0, k));
            assert(orig.subrange(0, k + 1).last() == view_arg(a));
            lemma_unelide_args_prefix_grows(orig, prefix@, 0, k + 1);
            lemma_unelide_arg_grows(view_arg(a), prefix@, count as nat);
        }
        let b = unelide_arg_exec(a, prefix, &mut count);
        let ghost old_out = out@;
        out.push(b);
        proof {
            assert(view_args(out@) =~= view_args(old_out).push(view_arg(b)));
        }
    }
    proof {
        assert(orig.subrange(0, total as int) =~= orig);
    }
    *args = out;
    count
}

/// `true` when `p` begins `s`.
pub open spec fn has_prefix(s: Seq<char>, p: Seq<char>) -> bool {
    p.len() <= s.len() && s.subrange(0, p.len() as int) == p
}

fn starts_with(s: &str, p: &str) -> (r: bool)
    ensures
        r == has_prefix(s@, p@),
{
    let n = p.unicode_len();
    if n > s.unicode_len() {
        return false;
    }
    let mut i: usize = 0;
    while i < n
        invariant
            n == p@.len(),
            n <= s@.len(),
            i <= n,
            s@.subrange(0, i as int) == p@.subrange(0, i as int),
        decreases n - i,
    {
        if s.get_char(i) != p.get_char(i) {
            assert(s@.subrange(0, n as int)[i as int] != p@[i as int]);
            return false;
        }
        assert(s@.subrange(0, i + 1) =~= s@.subrange(0, i as int).push(s@[i as int]));
        assert(p@.subrange(0, i + 1) =~= p@.subrange(0, i as int).push(p@[i as int]));
        i = i + 1;
    }
    assert(p@.subrange(0, n as int) =~= p@);
    true
}

/// The views of some names.
pub open spec fn names_view(v: Seq<String>) -> Seq<Seq<char>> {
    Seq::new(v.len(), |i: int| v[i]@)
}

/// `true` when some lifetime parameter of `g`, or some lifetime bound by a
/// `for<..>` in `b`, has a name that begins with `p`.
pub open spec fn collides(g: Seq<GenericParam>, b: Seq<Seq<char>>, p: Seq<char>) -> bool {
    (exists|i: int|
        0 <= i < g.len() && (#[trigger] g[i] matches GenericParam::Lifetime(l) && has_prefix(l@, p)))
        || (exists|i: int| 0 <= i < b.len() && has_prefix(#[trigger] b[i], p))
}

/// The length of the longest lifetime parameter name.
pub open spec fn max_len(g: Seq<GenericParam>) -> nat
    decreases g.len(),
{
    if g.len() == 0 {
        0
    } else {
        let m = max_len(g.drop_last());
        match g.last() {
            GenericParam::Lifetime(l) => if l@.len() > m {
                l@.len()
            } else {
                m
            },
            _ => m,
        }
    }
}

/// The length of the longest of the names.
pub open spec fn max_name_len(b: Seq<Seq<char>>) -> nat
    decreases b.len(),
{
    if b.len() == 0 {
        0
    } else {
        let m = max_name_len(b.drop_last());
        if b.last().len() > m {
            b.last().len()
        } else {
            m
        }
    }
}

proof fn lemma_max_len(g: Seq<GenericParam>, i: int)
    requires
        0 <= i < g.len(),
        g[i] is Lifetime,
    ensures
        g[i]->Lifetime_0@.len() <= max_len(g),
    decreases g.len(),
{
    if i < g.len() - 1 {
        lemma_max_len(g.drop_last(), i);
    }
}

proof fn lemma_max_name_len(b: Seq<Seq<char>>, i: int)
    requires
        0 <= i < b.len(),
    ensures
        b[i].len() <= max_name_len(b),
    decreases b.len(),
{
    if i < b.len() - 1 {
        lemma_max_name_len(b.drop_last(), i);
    }
}

/// A prefix that some name begins with is no longer than every name.
proof fn lemma_collision_bound(g: Seq<GenericParam>, b: Seq<Seq<char>>, p: Seq<char>)
    requires
        collides(g, b, p),
    ensures
        p.len() <= max_len(g) + max_name_len(b),
{
    if exists|i: int|
        0 <= i < g.len() && (#[trigger] g[i] matches GenericParam::Lifetime(l) && has_prefix(l@, p)) {
        let j = choose|j: int|
            0 <= j < g.len() && (#[trigger] g[j] matches GenericParam::Lifetime(l) && has_prefix(
                l@,
                p,
            ));
        lemma_max_len(g, j);
    } else {
        let j = choose|j: int| 0 <= j < b.len() && has_prefix(#[trigger] b[j], p);
        lemma_max_name_len(b, j);
    }
}

/// `p`, lengthened by `_` until no lifetime name begins with it, within
/// `budget` steps.
pub open spec fn prefix_from(g: Seq<GenericParam>, b: Seq<Seq<char>>, p: Seq<char>, budget: nat) -> Seq<
    char,
>
    decreases budget,
{
    if budget == 0 || !collides(g, b, p) {
        p
    } else {
        prefix_from(g, b, p.push('_'), (budget - 1) as nat)
    }
}

/// The prefix of the fresh lifetime names: `'_async`, followed by as few
/// `_` as make it begin no existing lifetime parameter's name, and no name of
/// a lifetime bound by `for<..>` in `b`.
pub open spec fn lifetime_prefix(g: Seq<GenericParam>, b: Seq<Seq<char>>) -> Seq<char> {
    prefix_from(g, b, "'_async"@, max_len(g) + max_name_len(b) + 1)
}

/// `'_async` followed by `k` underscores.
pub open spec fn underscored(k: nat) -> Seq<char>
    decreases k,
{
    if k == 0 {
        "'_async"@
    } else {
        underscored((k - 1) as nat).push('_')
    }
}

/// `true` when some lifetime name, of a parameter or bound by `for<..>`,
/// begins with `name`.
fn any_collision(generics: &Vec<GenericParam>, bound: &Vec<String>, name: &String) -> (r: bool)
    ensures
        r == collides(generics@, names_view(bound@), name@),
{
    let ghost g = generics@;
    let ghost b = names_view(bound@);
    let mut i: usize = 0;
    while i < generics.len()
        invariant
            g == generics@,
            i <= g.len(),
            forall|j: int|
                0 <= j < i ==> !(#[trigger] g[j] matches GenericParam::Lifetime(l) && has_prefix(
                    l@,
                    name@,
                )),
        decreases generics.len() - i,
    {
        match &generics[i] {
            GenericParam::Lifetime(l) => {
                if starts_with(l.as_str(), name.as_str()) {
                    return true;
                }
            },
            _ => {},
        }
        i = i + 1;
    }
    let mut k: usize = 0;
    while k < bound.len()
        invariant
            g == generics@,
            b == names_view(bound@),
            k <= b.len(),
            forall|j: int|
                0 <= j < g.len() ==> !(#[trigger] g[j] matches GenericParam::Lifetime(l) && has_prefix(
                    l@,
                    name@,
                )),
            forall|j: int| 0 <= j < k ==> !has_prefix(#[trigger] b[j], name@),
        decreases bound.len() - k,
    {
        if starts_with(bound[k].as_str(), name.as_str()) {
            assert(has_prefix(b[k as int], name@));
            return true;
        }
        k = k + 1;
    }
    false
}

/// Determines the prefix of all fresh lifetime names: no lifetime parameter
/// of `generics`, and no lifetime in `bound` (those that `for<..>` binds in
/// the bounds and the `where` clause), has a name that begins with it, and it
/// is the shortest such `'_async`, `'_async_`, ...
pub fn determine_lifetime_name(generics: &Vec<GenericParam>, bound: &Vec<String>) -> (r: String)
    ensures
        r@ == lifetime_prefix(generics@, names_view(bound@)),
        !collides(generics@, names_view(bound@), r@),
        exists|k: nat|
            r@ == #[trigger] underscored(k) && forall|j: nat|
                j < k ==> collides(generics@, names_view(bound@), #[trigger] underscored(j)),
        has_prefix(r@, "'_async"@),
{
    let ghost g = generics@;
    let ghost b = names_view(bound@);
    proof {
        reveal_strlit("'_async");
    }
    let mut name = String::from_str("'_async");
    assert(name@.subrange(0, 7) =~= name@);
    let ghost mut budget: nat = max_len(g) + max_name_len(b) + 1;
    let ghost mut k: nat = 0;
    let mut searching = true;
    while searching
        invariant
            g == generics@,
            b == names_view(bound@),
            prefix_from(g, b, name@, budget) == lifetime_prefix(g, b),
            budget + name@.len() == max_len(g) + max_name_len(b) + 1 + 7,
            has_prefix(name@, "'_async"@),
            "'_async"@.len() == 7,
            name@ == underscored(k),
            forall|j: nat| j < k ==> collides(g, b, #[trigger] underscored(j)),
            !searching ==> !collides(g, b, name@),
        decreases budget + (if searching { 1int } else { 0int }),
    {
        if any_collision(generics, bound, &name) {
            proof {
                lemma_collision_bound(g, b, name@);
            }
            let ghost old_name = name@;
            push_char(&mut name, '_');
            proof {
                assert(name@.subrange(0, 7) =~= old_name.subrange(0, 7));
                assert(has_prefix(name@, "'_async"@));
                budget = (budget - 1) as nat;
                k = k + 1;
                assert(underscored(k) == underscored((k - 1) as nat).push('_'));
                assert forall|j: nat| j < k implies collides(g, b, #[trigger] underscored(j)) by {
                    if j == k - 1 {
                        assert(underscored(j) == old_name);
                    }
                }
            }
        } else {
            searching = false;
        }
    }
    name
}

/// How many lifetime parameters `g` declares.
pub open spec fn lifetime_count(g: Seq<GenericParam>) -> nat
    decreases g.len(),
{
    if g.len() == 0 {
        0
    } else {
        lifetime_count(g.drop_last()) + if g.last() is Lifetime {
            1nat
        } else {
            0nat
        }
    }
}

proof fn lemma_lifetime_count_bound(g: Seq<GenericParam>)
    ensures
        lifetime_count(g) <= g.len(),
    decreases g.len(),
{
    if g.len() > 0 {
        lemma_lifetime_count_bound(g.drop_last());
    }
}

fn count_lifetimes(generics: &Vec<GenericParam>) -> (r: usize)
    ensures
        r == lifetime_count(generics@),
{
    let mut n: usize = 0;
    let mut i: usize = 0;
    while i < generics.len()
        invariant
            i <= generics@.len(),
            n == lifetime_count(generics@.subrange(0, i as int)),
            n <= i,
        decreases generics.len() - i,
    {
        assert(generics@.subrange(0, i + 1).drop_last() =~= generics@.subrange(0, i as int));
        if matches!(&generics[i], GenericParam::Lifetime(_)) {
            n = n + 1;
        }
        i = i + 1;
    }
    assert(generics@.subrange(0, i as int) =~= generics@);
    n
}

/// `after` is `before` with the fresh lifetimes `0..n` under `prefix`
/// inserted, in order, at position `k`.
pub open spec fn inserted_fresh(
    before: Seq<GenericParam>,
    after: Seq<GenericParam>,
    k: int,
    prefix: Seq<char>,
    n: nat,
) -> bool {
    &&& after.len() == before.len() + n
    &&& forall|i: int| 0 <= i < k ==> #[trigger] after[i] == before[i]
    &&& forall|i: int|
        0 <= i < n ==> (#[trigger] after[k + i] matches GenericParam::Lifetime(l) && l@ == fresh(
            prefix,
            i as nat,
        ))
    &&& forall|i: int| k <= i < before.len() ==> after[i + n] == #[trigger] before[i]
}

/// Declares the fresh lifetimes `0..n` right after the `k` existing ones.
fn insert_fresh(generics: &mut Vec<GenericParam>, k: usize, prefix: &str, n: usize)
    requires
        k <= old(generics)@.len(),
    ensures
        inserted_fresh(old(generics)@, final(generics)@, k as int, prefix@, n as nat),
{
    let ghost before = generics@;
    let mut i: usize = 0;
    while i < n
        invariant
            k <= before.len(),
            i <= n,
            inserted_fresh(before, generics@, k as int, prefix@, i as nat),
        decreases n - i,
    {
        let ghost prev = generics@;
        let len = generics.len();
        assert(k + i <= len);
        generics.insert(k + i, GenericParam::Lifetime(numbered(prefix, i)));
        proof {
            assert forall|j: int| k <= j < before.len() implies generics@[j + i + 1] == #[trigger] before[j] by {
                assert(prev[j + i] == before[j]);
            }
        }
        i = i + 1;
    }
}

/// Names every elided and placeholder lifetime in the parameters with a
/// fresh lifetime, numbered in order of occurrence, and declares the fresh
/// lifetimes right after the existing lifetime parameters. `bound` holds the
/// lifetimes that `for<..>` binds in the bounds and the `where` clause.
pub fn unelide_lifetimes(generics: &mut Vec<GenericParam>, bound: &Vec<String>, args: &mut Vec<FnArg>)
    requires
        elided_in_args(view_args(old(args)@)) <= usize::MAX,
    ensures
        ({
            let prefix = lifetime_prefix(old(generics)@, names_view(bound@));
            let (a2, n) = unelide_args(view_args(old(args)@), prefix, 0);
            &&& view_args(final(args)@) == a2
            &&& inserted_fresh(
                old(generics)@,
                final(generics)@,
                lifetime_count(old(generics)@) as int,
                prefix,
                n,
            )
        }),
{
    let k = count_lifetimes(generics);
    let prefix = determine_lifetime_name(generics, bound);
    proof {
        reveal_strlit("'_async");
        lemma_unelide_args_count(view_args(args@), prefix@, 0);
        lemma_lifetime_count_bound(generics@);
    }
    let n = unelide_args_exec(args, prefix.as_str());
    insert_fresh(generics, k, prefix.as_str(), n);
}

/// How many elided or placeholder lifetimes `t` holds.
pub open spec fn elided_ty(t: TyView) -> nat
    decreases t,
{
    match t {
        TyView::Ref { lifetime, elem, .. } => elided_ty(*elem) + if lifetime is None || lifetime
            == Some(placeholder()) {
            1nat
        } else {
            0nat
        },
        TyView::Path { args, .. } => elided_tys(args),
        TyView::Lifetime(l) => if l == placeholder() {
            1
        } else {
            0
        },
        TyView::Tuple(elems) => elided_tys(elems),
        TyView::Other { children, .. } => elided_tys(children),
    }
}

pub open spec fn elided_tys(ts: Seq<TyView>) -> nat
    decreases ts,
{
    if ts.len() == 0 {
        0
    } else {
        elided_tys(ts.drop_last()) + elided_ty(ts.last())
    }
}

pub open spec fn elided_arg(a: FnArgView) -> nat {
    match a {
        FnArgView::Receiver { reference, ty, .. } => match reference {
            Some(l) => if l is None || l == Some(placeholder()) {
                1
            } else {
                0
            },
            None => elided_ty(ty),
        },
        FnArgView::Typed { ty, .. } => elided_ty(ty),
    }
}

/// How many elided or placeholder lifetimes the parameters hold.
pub open spec fn elided_in_args(args: Seq<FnArgView>) -> nat
    decreases args.len(),
{
    if args.len() == 0 {
        0
    } else {
        elided_in_args(args.drop_last()) + elided_arg(args.last())
    }
}

/// `true` when no lifetime in `t` is elided or a placeholder.
pub open spec fn named_ty(t: TyView) -> bool
    decreases t,
{
    match t {
        TyView::Ref { lifetime, elem, .. } => named_ty(*elem) && match lifetime {
            Some(l) => l != placeholder(),
            None => false,
        },
        TyView::Path { args, .. } => forall|i: int| 0 <= i < args.len() ==> named_ty(#[trigger] args[i]),
        TyView::Lifetime(l) => l != placeholder(),
        TyView::Tuple(elems) => forall|i: int| 0 <= i < elems.len() ==> named_ty(#[trigger] elems[i]),
        TyView::Other { children, .. } => forall|i: int|
            0 <= i < children.len() ==> named_ty(#[trigger] children[i]),
    }
}

pub open spec fn named_arg(a: FnArgView) -> bool {
    match a {
        FnArgView::Receiver { reference, ty, .. } => match reference {
            Some(l) => match l {
                Some(name) => name != placeholder(),
                None => false,
            },
            None => named_ty(ty),
        },
        FnArgView::Typed { ty, .. } => named_ty(ty),
    }
}

proof fn lemma_fresh_named(prefix: Seq<char>, n: nat)
    requires
        prefix.len() > 2,
    ensures
        fresh(prefix, n) != placeholder(),
{
    reveal_strlit("'_");
    assert(fresh(prefix, n).len() > 2);
}

proof fn lemma_unelide_ty_count(t: TyView, prefix: Seq<char>, n: nat)
    requires
        prefix.len() > 2,
    ensures
        unelide_ty(t, prefix, n).1 == n + elided_ty(t),
        named_ty(unelide_ty(t, prefix, n).0),
    decreases t,
{
    lemma_fresh_named(prefix, n);
    match t {
        TyView::Ref { lifetime, mutability, elem } => {
            let named = lifetime is None || lifetime == Some(placeholder());
            lemma_unelide_ty_count(*elem, prefix, if named { n + 1 } else { n });
        },
        TyView::Path { path, args } => lemma_unelide_tys_count(args, prefix, n),
        TyView::Lifetime(l) => {},
        TyView::Tuple(elems) => lemma_unelide_tys_count(elems, prefix, n),
        TyView::Other { text, children } => lemma_unelide_tys_count(children, prefix, n),
    }
}

proof fn lemma_unelide_tys_count(ts: Seq<TyView>, prefix: Seq<char>, n: nat)
    requires
        prefix.len() > 2,
    ensures
        unelide_tys(ts, prefix, n).1 == n + elided_tys(ts),
        unelide_tys(ts, prefix, n).0.len() == ts.len(),
        forall|i: int|
            0 <= i < ts.len() ==> named_ty(#[trigger] unelide_tys(ts, prefix, n).0[i]),
    decreases ts,
{
    if ts.len() > 0 {
        lemma_unelide_tys_count(ts.drop_last(), prefix, n);
        let n1 = unelide_tys(ts.drop_last(), prefix, n).1;
        lemma_unelide_ty_count(ts.last(), prefix, n1);
        let r = unelide_tys(ts, prefix, n).0;
        let a = unelide_tys(ts.drop_last(), prefix, n).0;
        assert forall|i: int| 0 <= i < ts.len() implies named_ty(#[trigger] r[i]) by {
            if i < ts.len() - 1 {
                assert(r[i] == a[i]);
            }
        }
    }
}

proof fn lemma_unelide_args_count(args: Seq<FnArgView>, prefix: Seq<char>, n: nat)
    requires
        prefix.len() > 2,
    ensures
        unelide_args(args, prefix, n).1 == n + elided_in_args(args),
        unelide_args(args, prefix, n).0.len() == args.len(),
        forall|i: int|
            0 <= i < args.len() ==> named_arg(#[trigger] unelide_args(args, prefix, n).0[i]),
    decreases args.len(),
{
    if args.len() > 0 {
        lemma_unelide_args_count(args.drop_last(), prefix, n);
        let n1 = unelide_args(args.drop_last(), prefix, n).1;
        let last = args.last();
        lemma_fresh_named(prefix, n1);
        match last {
            FnArgView::Receiver { reference, mutability, ty } => {
                if reference is None {
                    lemma_unelide_ty_count(ty, prefix, n1);
                }
            },
            FnArgView::Typed { pat, ty } => lemma_unelide_ty_count(ty, prefix, n1),
        }
        let r = unelide_args(args, prefix, n).0;
        let a = unelide_args(args.drop_last(), prefix, n).0;
        assert forall|i: int| 0 <= i < args.len() implies named_arg(#[trigger] r[i]) by {
            if i < args.len() - 1 {
                assert(r[i] == a[i]);
            }
        }
    }
}

/// The named lifetimes that `t` mentions.
pub open spec fn lifetimes_ty(t: TyView) -> Set<Seq<char>>
    decreases t,
{
    match t {
        TyView::Ref { lifetime, elem, .. } => lifetimes_ty(*elem) + match lifetime {
            Some(l) => if l != placeholder() {
                set![l]
            } else {
                Set::empty()
            },
            None => Set::empty(),
        },
        TyView::Path { args, .. } => lifetimes_tys(args),
        TyView::Lifetime(l) => if l != placeholder() {
            set![l]
        } else {
            Set::empty()
        },
        TyView::Tuple(elems) => lifetimes_tys(elems),
        TyView::Other { children, .. } => lifetimes_tys(children),
    }
}

pub open spec fn lifetimes_tys(ts: Seq<TyView>) -> Set<Seq<char>>
    decreases ts,
{
    if ts.len() == 0 {
        Set::empty()
    } else {
        lifetimes_tys(ts.drop_last()) + lifetimes_ty(ts.last())
    }
}

/// The named lifetimes that a parameter mentions.
pub open spec fn lifetimes_arg(a: FnArgView) -> Set<Seq<char>> {
    match a {
        FnArgView::Receiver { reference, ty, .. } => match reference {
            Some(Some(l)) => if l != placeholder() {
                set![l]
            } else {
                Set::empty()
            },
            Some(None) => Set::empty(),
            None => lifetimes_ty(ty),
        },
        FnArgView::Typed { ty, .. } => lifetimes_ty(ty),
    }
}

pub open spec fn lifetimes_args(args: Seq<FnArgView>) -> Set<Seq<char>>
    decreases args.len(),
{
    if args.len() == 0 {
        Set::empty()
    } else {
        lifetimes_args(args.drop_last()) + lifetimes_arg(args.last())
    }
}

/// `l` was there before, or is one of the fresh names numbered `lo..hi`.
pub open spec fn old_or_fresh(l: Seq<char>, before: Set<Seq<char>>, prefix: Seq<char>, lo: nat, hi: nat) -> bool {
    before.contains(l) || exists|i: nat| lo <= i < hi && l == #[trigger] fresh(prefix, i)
}

proof fn lemma_lifetimes_ty(t: TyView, prefix: Seq<char>, n: nat)
    ensures
        forall|l: Seq<char>|
            #[trigger] lifetimes_ty(unelide_ty(t, prefix, n).0).contains(l) ==> old_or_fresh(
                l,
                lifetimes_ty(t),
                prefix,
                n,
                unelide_ty(t, prefix, n).1,
            ),
    decreases t,
{
    lemma_unelide_ty_grows(t, prefix, n);
    let (r, m) = unelide_ty(t, prefix, n);
    match t {
        TyView::Ref { lifetime, mutability, elem } => {
            let named = lifetime is None || lifetime == Some(placeholder());
            let n1 = if named {
                n + 1
            } else {
                n
            };
            lemma_lifetimes_ty(*elem, prefix, n1);
            lemma_unelide_ty_grows(*elem, prefix, n1);
            let e2 = unelide_ty(*elem, prefix, n1).0;
            assert forall|l: Seq<char>| #[trigger] lifetimes_ty(r).contains(l) implies old_or_fresh(
                l,
                lifetimes_ty(t),
                prefix,
                n,
                m,
            ) by {
                if lifetimes_ty(e2).contains(l) {
                    if !lifetimes_ty(*elem).contains(l) {
                        let i = choose|i: nat| n1 <= i < m && l == #[trigger] fresh(prefix, i);
                        assert(n <= i < m && l == fresh(prefix, i));
                    }
                } else if named {
                    assert(l == fresh(prefix, n));
                } else {
                    assert(lifetime == Some(l));
                    assert(lifetimes_ty(t) == lifetimes_ty(*elem) + set![l]);
                    assert(lifetimes_ty(t).contains(l));
                }
            }
        },
        TyView::Path { path, args } => {
            lemma_lifetimes_tys(args, prefix, n);
            assert(r == TyView::Path { path, args: unelide_tys(args, prefix, n).0 });
            assert(lifetimes_ty(t) == lifetimes_tys(args));
            assert(m == unelide_tys(args, prefix, n).1);
            assert(lifetimes_ty(r) == lifetimes_tys(unelide_tys(args, prefix, n).0));
        },
        TyView::Lifetime(l) => {
            assert forall|x: Seq<char>| #[trigger] lifetimes_ty(r).contains(x) implies old_or_fresh(
                x,
                lifetimes_ty(t),
                prefix,
                n,
                m,
            ) by {
                if l == placeholder() {
                    assert(x == fresh(prefix, n));
                }
            }
        },
        TyView::Tuple(elems) => {
            lemma_lifetimes_tys(elems, prefix, n);
            assert(r == TyView::Tuple(unelide_tys(elems, prefix, n).0));
            assert(lifetimes_ty(t) == lifetimes_tys(elems));
            assert(m == unelide_tys(elems, prefix, n).1);
            assert(lifetimes_ty(r) == lifetimes_tys(unelide_tys(elems, prefix, n).0));
        },
        TyView::Other { text, children } => {
            lemma_lifetimes_tys(children, prefix, n);
            assert(r == TyView::Other { text, children: unelide_tys(children, prefix, n).0 });
            assert(lifetimes_ty(t) == lifetimes_tys(children));
            assert(m == unelide_tys(children, prefix, n).1);
            assert(lifetimes_ty(r) == lifetimes_tys(unelide_tys(children, prefix, n).0));
        },
    }
}

proof fn lemma_lifetimes_tys(ts: Seq<TyView>, prefix: Seq<char>, n: nat)
    ensures
        forall|l: Seq<char>|
            #[trigger] lifetimes_tys(unelide_tys(ts, prefix, n).0).contains(l) ==> old_or_fresh(
                l,
                lifetimes_tys(ts),
                prefix,
                n,
                unelide_tys(ts, prefix, n).1,
            ),
    decreases ts,
{
    if ts.len() > 0 {
        let (a, n1) = unelide_tys(ts.drop_last(), prefix, n);
        let (b, n2) = unelide_ty(ts.last(), prefix, n1);
        lemma_lifetimes_tys(ts.drop_last(), prefix, n);
        lemma_lifetimes_ty(ts.last(), prefix, n1);
        lemma_unelide_tys_grows(ts.drop_last(), prefix, n);
        lemma_unelide_ty_grows(ts.last(), prefix, n1);
        assert(a.push(b).drop_last() =~= a);
        assert(a.push(b).last() == b);
        assert forall|l: Seq<char>| #[trigger] lifetimes_tys(a.push(b)).contains(l) implies old_or_fresh(
            l,
            lifetimes_tys(ts),
            prefix,
            n,
            n2,
        ) by {
            if lifetimes_tys(a).contains(l) {
                if !lifetimes_tys(ts.drop_last()).contains(l) {
                    let i = choose|i: nat| n <= i < n1 && l == #[trigger] fresh(prefix, i);
                    assert(n <= i < n2 && l == fresh(prefix, i));
                }
            } else {
                assert(lifetimes_ty(b).contains(l));
                if !lifetimes_ty(ts.last()).contains(l) {
                    let i = choose|i: nat| n1 <= i < n2 && l == #[trigger] fresh(prefix, i);
                    assert(n <= i < n2 && l == fresh(prefix, i));
                }
            }
        }
    }
}

proof fn lemma_lifetimes_arg(a: FnArgView, prefix: Seq<char>, n: nat)
    ensures
        forall|l: Seq<char>|
            #[trigger] lifetimes_arg(unelide_arg(a, prefix, n).0).contains(l) ==> old_or_fresh(
                l,
                lifetimes_arg(a),
                prefix,
                n,
                unelide_arg(a, prefix, n).1,
            ),
{
    let (r, m) = unelide_arg(a, prefix, n);
    match a {
        FnArgView::Receiver { reference, mutability, ty } => {
            if reference is None {
                lemma_lifetimes_ty(ty, prefix, n);
            } else {
                assert forall|l: Seq<char>| #[trigger] lifetimes_arg(r).contains(l) implies old_or_fresh(
                    l,
                    lifetimes_arg(a),
                    prefix,
                    n,
                    m,
                ) by {
                    let lt = reference->0;
                    if lt is None || lt == Some(placeholder()) {
                        assert(l == fresh(prefix, n));
                    }
                }
            }
        },
        FnArgView::Typed { pat, ty } => lemma_lifetimes_ty(ty, prefix, n),
    }
}

proof fn lemma_lifetimes_args(args: Seq<FnArgView>, prefix: Seq<char>, n: nat)
    ensures
        forall|l: Seq<char>|
            #[trigger] lifetimes_args(unelide_args(args, prefix, n).0).contains(l) ==> old_or_fresh(
                l,
                lifetimes_args(args),
                prefix,
                n,
                unelide_args(args, prefix, n).1,
            ),
    decreases args.len(),
{
    if args.len() > 0 {
        let (a, n1) = unelide_args(args.drop_last(), prefix, n);
        let (b, n2) = unelide_arg(args.last(), prefix, n1);
        lemma_lifetimes_args(args.drop_last(), prefix, n);
        lemma_lifetimes_arg(args.last(), prefix, n1);
        lemma_unelide_args_grows(args.drop_last(), prefix, n);
        lemma_unelide_arg_grows(args.last(), prefix, n1);
        assert(a.push(b).drop_last() =~= a);
        assert(a.push(b).last() == b);
        assert forall|l: Seq<char>| #[trigger] lifetimes_args(a.push(b)).contains(l) implies old_or_fresh(
            l,
            lifetimes_args(args),
            prefix,
            n,
            n2,
        ) by {
            if lifetimes_args(a).contains(l) {
                if !lifetimes_args(args.drop_last()).contains(l) {
                    let i = choose|i: nat| n <= i < n1 && l == #[trigger] fresh(prefix, i);
                    assert(n <= i < n2 && l == fresh(prefix, i));
                }
            } else {
                assert(lifetimes_arg(b).contains(l));
                if !lifetimes_arg(args.last()).contains(l) {
                    let i = choose|i: nat| n1 <= i < n2 && l == #[trigger] fresh(prefix, i);
                    assert(n <= i < n2 && l == fresh(prefix, i));
                }
            }
        }
    }
}

proof fn lemma_prefix_from(g: Seq<GenericParam>, b: Seq<Seq<char>>, p: Seq<char>, budget: nat)
    requires
        budget + p.len() >= max_len(g) + max_name_len(b) + 1,
    ensures
        !collides(g, b, prefix_from(g, b, p, budget)),
        has_prefix(prefix_from(g, b, p, budget), p),
    decreases budget,
{
    if collides(g, b, p) {
        lemma_collision_bound(g, b, p);
    }
    if budget == 0 || !collides(g, b, p) {
        assert(p.subrange(0, p.len() as int) =~= p);
    } else {
        lemma_prefix_from(g, b, p.push('_'), (budget - 1) as nat);
        let r = prefix_from(g, b, p, budget);
        assert(r.subrange(0, p.len() as int) =~= r.subrange(0, p.len() + 1int).subrange(
            0,
            p.len() as int,
        ));
        assert(p.push('_').subrange(0, p.len() as int) =~= p);
    }
}

/// Lifetime resynthesis is total. For any generics and parameters: as many
/// lifetimes are declared as the parameters hold elided or placeholder
/// lifetimes; the fresh names differ from one another; none of them is the
/// name of an existing lifetime parameter or of a lifetime bound by
/// `for<..>` (in `bound`), nor do those names begin with the fresh names'
/// prefix; afterwards every lifetime in the parameters is named; and each
/// named lifetime there was already named before, or is one of the fresh
/// ones.
pub proof fn lemma_unelide_totality(
    generics: Seq<GenericParam>,
    bound: Seq<Seq<char>>,
    args: Seq<FnArgView>,
)
    ensures
        ({
            let prefix = lifetime_prefix(generics, bound);
            let (a2, n) = unelide_args(args, prefix, 0);
            &&& n == elided_in_args(args)
            &&& a2.len() == args.len()
            &&& forall|i: int| 0 <= i < a2.len() ==> named_arg(#[trigger] a2[i])
            &&& forall|i: nat, j: int|
                i < n && 0 <= j < generics.len() && generics[j] is Lifetime ==> #[trigger] generics[j]->Lifetime_0@
                    != #[trigger] fresh(prefix, i)
            &&& forall|i: nat, j: nat| i < n && j < n && i != j ==> #[trigger] fresh(prefix, i)
                != #[trigger] fresh(prefix, j)
            &&& forall|j: int| 0 <= j < bound.len() ==> !has_prefix(#[trigger] bound[j], prefix)
            &&& forall|i: nat, j: int|
                i < n && 0 <= j < bound.len() ==> #[trigger] bound[j] != #[trigger] fresh(prefix, i)
            &&& forall|l: Seq<char>|
                #[trigger] lifetimes_args(a2).contains(l) ==> old_or_fresh(
                    l,
                    lifetimes_args(args),
                    prefix,
                    0,
                    n,
                )
        }),
{
    lemma_lifetimes_args(args, lifetime_prefix(generics, bound), 0);
    reveal_strlit("'_async");
    let prefix = lifetime_prefix(generics, bound);
    lemma_prefix_from(generics, bound, "'_async"@, max_len(generics) + max_name_len(bound) + 1);
    lemma_unelide_args_count(args, prefix, 0);
    assert forall|i: nat, j: int|
        0 <= j < generics.len() && generics[j] is Lifetime implies #[trigger] generics[j]->Lifetime_0@
        != #[trigger] fresh(prefix, i) by {
        let f = fresh(prefix, i);
        assert(f.subrange(0, prefix.len() as int) =~= prefix);
        if generics[j]->Lifetime_0@ == f {
            assert(generics[j] matches GenericParam::Lifetime(l) && has_prefix(l@, prefix));
        }
    }
    assert forall|i: nat, j: nat| i != j implies #[trigger] fresh(prefix, i) != #[trigger] fresh(
        prefix,
        j,
    ) by {
        if fresh(prefix, i) == fresh(prefix, j) {
            let fi = fresh(prefix, i);
            let fj = fresh(prefix, j);
            assert(decimal(i) =~= fi.subrange(prefix.len() as int, fi.len() as int));
            assert(decimal(j) =~= fj.subrange(prefix.len() as int, fj.len() as int));
            lemma_decimal_injective(i, j);
        }
    }
    assert forall|i: nat, j: int| 0 <= j < bound.len() implies #[trigger] bound[j] != #[trigger] fresh(
        prefix,
        i,
    ) by {
        let f = fresh(prefix, i);
        assert(f.subrange(0, prefix.len() as int) =~= prefix);
        if bound[j] == f {
            assert(has_prefix(bound[j], prefix));
        }
    }
}

} // verus!
