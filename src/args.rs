//! The argument lists of the `stream` and `try_stream` attributes:
//! `item = <type>` or `ok = <type>, error = <type>`, with at most one of the
//! modifiers `boxed` and `boxed_local`, separated by commas.
use vstd::prelude::*;
use vstd::string::*;

use crate::attrs::str_eq;
use crate::syntax::{Error, Site, Tok};

verus! {

/// How the stream is returned: as an opaque `impl Stream`, or as a pinned box
/// of a trait object, with a `Send` bound when `send`.
#[derive(Clone, Copy, Debug, PartialEq, Eq, Structural)]
pub enum ReturnTypeKind {
    Default,
    Boxed { send: bool },
}

impl ReturnTypeKind {
    pub fn is_boxed(self) -> (r: bool)
        ensures
            r == (self is Boxed),
    {
        matches!(self, ReturnTypeKind::Boxed { .. })
    }
}

/// Appends one character.
/// Relies on `String::push`, which appends the character at the end.
#[verifier::external_body]
pub(crate) fn push_char(s: &mut String, c: char)
    ensures
        final(s)@ == old(s)@.push(c),
{
    s.push(c)
}

/// The source text of a token.
pub open spec fn tok_text(t: Tok) -> Seq<char> {
    match t {
        Tok::Ident(s) => s@,
        Tok::Punct(c) => seq![c],
        Tok::Other(s) => s@,
    }
}

/// Tokens as text, separated by single spaces.
pub open spec fn render(s: Seq<Tok>) -> Seq<char>
    decreases s.len(),
{
    if s.len() == 0 {
        seq![]
    } else if s.len() == 1 {
        tok_text(s[0])
    } else {
        render(s.drop_last()) + " "@ + tok_text(s.last())
    }
}

/// Renders `toks[from..]`.
pub fn render_from(toks: &Vec<Tok>, from: usize) -> (r: String)
    requires
        from <= toks@.len(),
    ensures
        r@ == render(toks@.subrange(from as int, toks@.len() as int)),
{
    let mut out = String::new();
    let mut i = from;
    while i < toks.len()
        invariant
            from <= i <= toks@.len(),
            out@ == render(toks@.subrange(from as int, i as int)),
        decreases toks.len() - i,
    {
        proof {
            let s = toks@.subrange(from as int, i + 1);
            assert(s.drop_last() =~= toks@.subrange(from as int, i as int));
            assert(s.last() == toks@[i as int]);
        }
        if i > from {
            out.append(" ");
        }
        match &toks[i] {
            Tok::Ident(s) => out.append(s.as_str()),
            Tok::Punct(c) => push_char(&mut out, *c),
            Tok::Other(s) => out.append(s.as_str()),
        }
        i = i + 1;
    }
    out
}

/// A copy of a token.
pub fn copy_tok(t: &Tok) -> (r: Tok)
    ensures
        r == *t,
{
    match t {
        Tok::Ident(s) => Tok::Ident(s.clone()),
        Tok::Punct(c) => Tok::Punct(*c),
        Tok::Other(s) => Tok::Other(s.clone()),
    }
}

/// A copy of `toks[from..to]`.
pub fn copy_range(toks: &Vec<Tok>, from: usize, to: usize) -> (r: Vec<Tok>)
    requires
        from <= to <= toks@.len(),
    ensures
        r@ == toks@.subrange(from as int, to as int),
{
    let mut out: Vec<Tok> = Vec::new();
    let mut i = from;
    while i < to
        invariant
            from <= i <= to <= toks@.len(),
            out@ == toks@.subrange(from as int, i as int),
        decreases to - i,
    {
        out.push(copy_tok(&toks[i]));
        assert(out@ =~= toks@.subrange(from as int, i + 1));
        i = i + 1;
    }
    out
}

pub open spec fn is_punct(t: Tok, c: char) -> bool {
    t == Tok::Punct(c)
}

pub open spec fn is_word(t: Tok, w: Seq<char>) -> bool {
    match t {
        Tok::Ident(s) => s@ == w,
        _ => false,
    }
}

/// Where a type that starts at `i` (at angle-bracket depth `depth`) ends: at
/// the first comma outside angle brackets, or at the end. The `>` of `->`
/// closes nothing.
pub open spec fn type_end_from(toks: Seq<Tok>, i: int, depth: nat) -> int
    decreases toks.len() - i,
{
    if i < 0 || i >= toks.len() {
        toks.len() as int
    } else if is_punct(toks[i], ',') && depth == 0 {
        i
    } else if is_punct(toks[i], '<') {
        type_end_from(toks, i + 1, depth + 1)
    } else if is_punct(toks[i], '>') && depth > 0 && !(i > 0 && is_punct(toks[i - 1], '-')) {
        type_end_from(toks, i + 1, (depth - 1) as nat)
    } else {
        type_end_from(toks, i + 1, depth)
    }
}

proof fn lemma_type_end_bounds(toks: Seq<Tok>, i: int, depth: nat)
    requires
        0 <= i <= toks.len(),
    ensures
        i <= type_end_from(toks, i, depth) <= toks.len(),
    decreases toks.len() - i,
{
    if i < toks.len() {
        if is_punct(toks[i], ',') && depth == 0 {
        } else if is_punct(toks[i], '<') {
            lemma_type_end_bounds(toks, i + 1, depth + 1);
        } else if is_punct(toks[i], '>') && depth > 0 && !(i > 0 && is_punct(toks[i - 1], '-')) {
            lemma_type_end_bounds(toks, i + 1, (depth - 1) as nat);
        } else {
            lemma_type_end_bounds(toks, i + 1, depth);
        }
    }
}

/// Where the type that starts at `from` ends.
pub fn type_end(toks: &Vec<Tok>, from: usize) -> (r: usize)
    requires
        from <= toks@.len(),
    ensures
        r == type_end_from(toks@, from as int, 0),
{
    let mut i = from;
    let mut depth: usize = 0;
    proof {
        lemma_type_end_bounds(toks@, from as int, 0);
    }
    while i < toks.len()
        invariant
            from <= i <= toks@.len(),
            depth <= i - from,
            type_end_from(toks@, i as int, depth as nat) == type_end_from(toks@, from as int, 0),
        decreases toks.len() - i,
    {
        match &toks[i] {
            Tok::Punct(c) => {
                if *c == ',' && depth == 0 {
                    return i;
                } else if *c == '<' {
                    depth = depth + 1;
                } else if *c == '>' && depth > 0 && !(i > 0 && matches!(&toks[i - 1], Tok::Punct(p) if *p == '-')) {
                    depth = depth - 1;
                }
            },
            _ => {},
        }
        i = i + 1;
    }
    i
}

/// What has been read of an argument list: the value of each key, if given,
/// and the return type kind.
pub struct ArgState {
    pub values: Seq<Option<Seq<Tok>>>,
    pub boxed: ReturnTypeKind,
}

/// The index of the first key without a value.
pub open spec fn first_missing(values: Seq<Option<Seq<Tok>>>, from: int) -> Option<int>
    decreases values.len() - from,
{
    if from < 0 || from >= values.len() {
        None
    } else if values[from] is None {
        Some(from)
    } else {
        first_missing(values, from + 1)
    }
}

/// The index of the key that token `t` names.
pub open spec fn key_index(keys: Seq<Seq<char>>, t: Tok, from: int) -> Option<int>
    decreases keys.len() - from,
{
    if from < 0 || from >= keys.len() {
        None
    } else if is_word(t, keys[from]) {
        Some(from)
    } else {
        key_index(keys, t, from + 1)
    }
}

pub open spec fn expected_message(key: Seq<char>) -> Seq<char> {
    "expected `"@ + key + "`"@
}

pub open spec fn duplicate_boxed_message() -> Seq<char> {
    "duplicate `boxed` argument"@
}

pub open spec fn duplicate_boxed_local_message() -> Seq<char> {
    "duplicate `boxed_local` argument"@
}

pub open spec fn boxed_conflict_message() -> Seq<char> {
    "`boxed` and `boxed_local` may not be used at the same time"@
}

/// The value `= <type>` of key `name` whose token stands just before `p`:
/// how many tokens it takes after the name's, and the type.
pub open spec fn spec_value(toks: Seq<Tok>, name: Seq<char>, p: int, has_prev: bool) -> Result<
    (nat, Seq<Tok>),
    (Seq<char>, Site),
> {
    if p >= toks.len() {
        Err(("expected `"@ + name + " = <type>`, found `"@ + name + "`"@, Site::Arg((p - 1) as usize)))
    } else if !is_punct(toks[p], '=') {
        Err(("expected `=`"@, Site::Arg(p as usize)))
    } else if p + 1 >= toks.len() {
        Err(("expected `"@ + name + " = <type>`, found `"@ + name + " =`"@, Site::Arg(p as usize)))
    } else {
        let e = type_end_from(toks, p + 1, 0);
        spec_value_given(
            toks,
            name,
            p,
            e,
            is_type_of(type_text(toks.subrange(p + 1, e))),
            has_prev,
        )
    }
}

/// The value of key `name` once its extent `p + 1 .. e` is known, and
/// whether those tokens form one type.
pub open spec fn spec_value_given(
    toks: Seq<Tok>,
    name: Seq<char>,
    p: int,
    e: int,
    is_ty: bool,
    has_prev: bool,
) -> Result<(nat, Seq<Tok>), (Seq<char>, Site)> {
    if e <= p + 1 || !is_ty {
        Err(("expected type"@, Site::Arg((p + 1) as usize)))
    } else if has_prev {
        Err(("duplicate `"@ + name + "` argument"@, Site::Arg((p - 1) as usize)))
    } else {
        Ok(((e - p) as nat, toks.subrange(p + 1, e)))
    }
}

/// Whether the text is one type, as syn reads types.
pub uninterp spec fn is_type_of(s: Seq<char>) -> bool;

/// Relies on `syn::parse_str::<syn::Type>`: it succeeds when the whole text
/// is one type, and the answer depends on the text alone.
#[verifier::external_body]
fn is_type(s: &str) -> (r: bool)
    ensures
        r == is_type_of(s@),
{
    syn::parse_str::<syn::Type>(s).is_ok()
}

/// `true` when no space goes between `a` and the token `b` after it: two
/// punctuation characters (as in `->` or `::`), or a lifetime's quote and its
/// name.
pub open spec fn joins(a: Tok, b: Tok) -> bool {
    a is Punct && (b is Punct || a == Tok::Punct('\''))
}

/// Tokens as the source text of a type.
pub open spec fn type_text(s: Seq<Tok>) -> Seq<char>
    decreases s.len(),
{
    if s.len() == 0 {
        seq![]
    } else if s.len() == 1 {
        tok_text(s[0])
    } else {
        type_text(s.drop_last()) + (if joins(s[s.len() - 2], s.last()) {
            seq![]
        } else {
            " "@
        }) + tok_text(s.last())
    }
}

/// Renders `toks[from..to]` as the source text of a type.
pub fn render_type(toks: &Vec<Tok>, from: usize, to: usize) -> (r: String)
    requires
        from <= to <= toks@.len(),
    ensures
        r@ == type_text(toks@.subrange(from as int, to as int)),
{
    let mut out = String::new();
    let mut i = from;
    while i < to
        invariant
            from <= i <= to <= toks@.len(),
            out@ == type_text(toks@.subrange(from as int, i as int)),
        decreases to - i,
    {
        proof {
            let s = toks@.subrange(from as int, i + 1);
            assert(s.drop_last() =~= toks@.subrange(from as int, i as int));
            assert(s.last() == toks@[i as int]);
            if i > from {
                assert(s[s.len() - 2] == toks@[i - 1]);
            }
        }
        if i > from {
            let joined = match (&toks[i - 1], &toks[i]) {
                (Tok::Punct(_), Tok::Punct(_)) => true,
                (Tok::Punct(a), _) => *a == '\'',
                _ => false,
            };
            if !joined {
                out.append(" ");
            }
        }
        match &toks[i] {
            Tok::Ident(s) => out.append(s.as_str()),
            Tok::Punct(c) => push_char(&mut out, *c),
            Tok::Other(s) => out.append(s.as_str()),
        }
        i = i + 1;
    }
    out
}

/// The value of key `name`, whose `=` stands at `p`, once its extent
/// `p + 1 .. e` is known and `is_ty` tells whether those tokens form one
/// type: how many tokens it takes after the name's, and the type.
pub fn value_given(
    toks: &Vec<Tok>,
    name: &str,
    p: usize,
    e: usize,
    is_ty: bool,
    has_prev: bool,
) -> (r: Result<(usize, Vec<Tok>), Error>)
    requires
        1 <= p,
        p + 1 <= e <= toks@.len(),
    ensures
        match (r, spec_value_given(toks@, name@, p as int, e as int, is_ty, has_prev)) {
            (Ok((n, ty)), Ok((m, sty))) => n == m && ty@ == sty && p + n <= toks@.len(),
            (Err(err), Err((m, at))) => err.message@ == m && err.at == at,
            _ => false,
        },
{
    if e <= p + 1 || !is_ty {
        return Err(message_error("expected type", Site::Arg(p + 1)));
    }
    if has_prev {
        let mut m = String::from_str("duplicate `");
        m.append(name);
        m.append("` argument");
        return Err(Error { message: m, at: Site::Arg(p - 1) });
    }
    Ok((e - p, copy_range(toks, p + 1, e)))
}

/// One entry of the list, starting at `pos`: how many tokens it takes beyond
/// its first, and the state after it.
pub open spec fn spec_entry(toks: Seq<Tok>, keys: Seq<Seq<char>>, pos: int, st: ArgState) -> Result<
    (nat, ArgState),
    (Seq<char>, Site),
> {
    let at = Site::Arg(pos as usize);
    let t = toks[pos];
    if is_word(t, "boxed"@) {
        match st.boxed {
            ReturnTypeKind::Default => Ok(
                (0, ArgState { values: st.values, boxed: ReturnTypeKind::Boxed { send: true } }),
            ),
            ReturnTypeKind::Boxed { send } => if send {
                Err((duplicate_boxed_message(), at))
            } else {
                Err((boxed_conflict_message(), at))
            },
        }
    } else if is_word(t, "boxed_local"@) {
        match st.boxed {
            ReturnTypeKind::Default => Ok(
                (0, ArgState { values: st.values, boxed: ReturnTypeKind::Boxed { send: false } }),
            ),
            ReturnTypeKind::Boxed { send } => if send {
                Err((boxed_conflict_message(), at))
            } else {
                Err((duplicate_boxed_local_message(), at))
            },
        }
    } else {
        match key_index(keys, t, 0) {
            Some(k) => match spec_value(toks, keys[k], pos + 1, st.values[k] is Some) {
                Err(m) => Err(m),
                Ok((n, ty)) => Ok(
                    (n, ArgState { values: st.values.update(k, Some(ty)), boxed: st.boxed }),
                ),
            },
            None => match first_missing(st.values, 0) {
                Some(k) => Err((expected_message(keys[k]), at)),
                None => Err(("unexpected argument: "@ + render(toks.skip(pos)), at)),
            },
        }
    }
}

/// The end of the list: every key must have a value.
pub open spec fn spec_finish(keys: Seq<Seq<char>>, st: ArgState) -> Result<ArgState, (Seq<char>, Site)> {
    match first_missing(st.values, 0) {
        Some(k) => Err((expected_message(keys[k]), Site::Input)),
        None => Ok(st),
    }
}

/// The list from `pos` on, in state `st`.
pub open spec fn spec_parse_from(
    toks: Seq<Tok>,
    keys: Seq<Seq<char>>,
    pos: int,
    st: ArgState,
) -> Result<ArgState, (Seq<char>, Site)>
    decreases toks.len() - pos,
{
    if pos < 0 || pos >= toks.len() {
        spec_finish(keys, st)
    } else {
        match spec_entry(toks, keys, pos, st) {
            Err(m) => Err(m),
            Ok((n, st2)) => {
                let after = pos + 1 + n;
                if after >= toks.len() {
                    spec_finish(keys, st2)
                } else if !is_punct(toks[after], ',') {
                    Err(("expected `,`"@, Site::Arg(after as usize)))
                } else {
                    spec_parse_from(toks, keys, after + 1, st2)
                }
            },
        }
    }
}

/// The whole list, with the given keys all required.
pub open spec fn spec_parse_args(toks: Seq<Tok>, keys: Seq<Seq<char>>) -> Result<
    ArgState,
    (Seq<char>, Site),
> {
    spec_parse_from(
        toks,
        keys,
        0,
        ArgState { values: Seq::new(keys.len(), |i: int| None), boxed: ReturnTypeKind::Default },
    )
}

pub open spec fn keys_view(keys: Seq<&str>) -> Seq<Seq<char>> {
    Seq::new(keys.len(), |i: int| keys[i]@)
}

pub open spec fn values_view(values: Seq<Option<Vec<Tok>>>) -> Seq<Option<Seq<Tok>>> {
    Seq::new(
        values.len(),
        |i: int|
            match values[i] {
                Some(v) => Some(v@),
                None => None,
            },
    )
}

fn message_error(m: &str, at: Site) -> (r: Error)
    ensures
        r.message@ == m@,
        r.at == at,
{
    Error { message: String::from_str(m), at }
}

fn expected_error(key: &str, at: Site) -> (r: Error)
    ensures
        r.message@ == expected_message(key@),
        r.at == at,
{
    let mut m = String::from_str("expected `");
    m.append(key);
    m.append("`");
    Error { message: m, at }
}

fn find_missing(values: &Vec<Option<Vec<Tok>>>) -> (r: Option<usize>)
    ensures
        match (r, first_missing(values_view(values@), 0)) {
            (Some(i), Some(j)) => i == j && i < values@.len(),
            (None, None) => true,
            _ => false,
        },
{
    let ghost vv = values_view(values@);
    let mut i: usize = 0;
    while i < values.len()
        invariant
            i <= values@.len(),
            vv == values_view(values@),
            first_missing(vv, 0) == first_missing(vv, i as int),
        decreases values.len() - i,
    {
        if values[i].is_none() {
            return Some(i);
        }
        i = i + 1;
    }
    None
}

fn find_key(keys: &Vec<&str>, t: &Tok) -> (r: Option<usize>)
    ensures
        match (r, key_index(keys_view(keys@), *t, 0)) {
            (Some(i), Some(j)) => i == j && i < keys@.len(),
            (None, None) => true,
            _ => false,
        },
{
    let ghost kv = keys_view(keys@);
    let mut i: usize = 0;
    while i < keys.len()
        invariant
            i <= keys@.len(),
            kv == keys_view(keys@),
            key_index(kv, *t, 0) == key_index(kv, *t, i as int),
        decreases keys.len() - i,
    {
        if word_is(t, keys[i]) {
            return Some(i);
        }
        i = i + 1;
    }
    None
}

fn word_is(t: &Tok, w: &str) -> (r: bool)
    ensures
        r == is_word(*t, w@),
{
    match t {
        Tok::Ident(s) => str_eq(s.as_str(), w),
        _ => false,
    }
}

fn is_punct_tok(t: &Tok, c: char) -> (r: bool)
    ensures
        r == is_punct(*t, c),
{
    match t {
        Tok::Punct(d) => *d == c,
        _ => false,
    }
}

/// Reads `= <type>` after the name of key `name`, which stands just before `p`.
fn parse_value(toks: &Vec<Tok>, name: &str, p: usize, has_prev: bool) -> (r: Result<
    (usize, Vec<Tok>),
    Error,
>)
    requires
        1 <= p <= toks@.len(),
    ensures
        match (r, spec_value(toks@, name@, p as int, has_prev)) {
            (Ok((n, ty)), Ok((m, sty))) => n == m && ty@ == sty && p + n <= toks@.len(),
            (Err(e), Err((m, at))) => e.message@ == m && e.at == at,
            _ => false,
        },
{
    if p >= toks.len() {
        let mut m = String::from_str("expected `");
        m.append(name);
        m.append(" = <type>`, found `");
        m.append(name);
        m.append("`");
        return Err(Error { message: m, at: Site::Arg(p - 1) });
    }
    if !is_punct_tok(&toks[p], '=') {
        return Err(message_error("expected `=`", Site::Arg(p)));
    }
    if p + 1 >= toks.len() {
        let mut m = String::from_str("expected `");
        m.append(name);
        m.append(" = <type>`, found `");
        m.append(name);
        m.append(" =`");
        return Err(Error { message: m, at: Site::Arg(p) });
    }
    let e = type_end(toks, p + 1);
    proof {
        lemma_type_end_bounds(toks@, p + 1, 0);
    }
    let text = render_type(toks, p + 1, e);
    let is_ty = is_type(text.as_str());
    value_given(toks, name, p, e, is_ty, has_prev)
}

/// Reads an argument list whose keys are `keys`, each required once.
pub fn parse_args(toks: &Vec<Tok>, keys: &Vec<&str>) -> (r: Result<
    (Vec<Option<Vec<Tok>>>, ReturnTypeKind),
    Error,
>)
    ensures
        match (r, spec_parse_args(toks@, keys_view(keys@))) {
            (Ok((vals, b)), Ok(st)) => values_view(vals@) == st.values && b == st.boxed,
            (Err(e), Err((m, at))) => e.message@ == m && e.at == at,
            _ => false,
        },
{
    let ghost kv = keys_view(keys@);
    let mut values: Vec<Option<Vec<Tok>>> = Vec::new();
    let mut k: usize = 0;
    while k < keys.len()
        invariant
            k <= keys@.len(),
            values@.len() == k,
            forall|j: int| 0 <= j < k ==> values@[j] is None,
        decreases keys.len() - k,
    {
        values.push(None);
        k = k + 1;
    }
    let mut boxed = ReturnTypeKind::Default;
    assert(values_view(values@) =~= Seq::new(kv.len(), |i: int| None::<Seq<Tok>>));
    let mut pos: usize = 0;
    while pos < toks.len()
        invariant
            pos <= toks@.len(),
            kv == keys_view(keys@),
            values@.len() == keys@.len(),
            spec_parse_from(
                toks@,
                kv,
                pos as int,
                ArgState { values: values_view(values@), boxed },
            ) == spec_parse_args(toks@, kv),
        decreases toks.len() - pos,
    {
        let ghost st = ArgState { values: values_view(values@), boxed };
        let n: usize;
        if word_is(&toks[pos], "boxed") {
            match boxed {
                ReturnTypeKind::Default => {
                    boxed = ReturnTypeKind::Boxed { send: true };
                },
                ReturnTypeKind::Boxed { send } => {
                    if send {
                        return Err(message_error("duplicate `boxed` argument", Site::Arg(pos)));
                    } else {
                        return Err(
                            message_error(
                                "`boxed` and `boxed_local` may not be used at the same time",
                                Site::Arg(pos),
                            ),
                        );
                    }
                },
            }
            n = 0;
        } else if word_is(&toks[pos], "boxed_local") {
            match boxed {
                ReturnTypeKind::Default => {
                    boxed = ReturnTypeKind::Boxed { send: false };
                },
                ReturnTypeKind::Boxed { send } => {
                    if send {
                        return Err(
                            message_error(
                                "`boxed` and `boxed_local` may not be used at the same time",
                                Site::Arg(pos),
                            ),
                        );
                    } else {
                        return Err(message_error("duplicate `boxed_local` argument", Site::Arg(pos)));
                    }
                },
            }
            n = 0;
        } else {
            match find_key(keys, &toks[pos]) {
                Some(k) => {
                    match parse_value(toks, keys[k], pos + 1, values[k].is_some()) {
                        Err(e) => {
                            return Err(e);
                        },
                        Ok((m, ty)) => {
                            let ghost old_values = values@;
                            values.set(k, Some(ty));
                            assert(values_view(values@) =~= values_view(old_values).update(
                                k as int,
                                Some(ty@),
                            ));
                            n = m;
                            assert(pos + 1 + n <= toks@.len());
                        },
                    }
                },
                None => {
                    match find_missing(&values) {
                        Some(k) => {
                            return Err(expected_error(keys[k], Site::Arg(pos)));
                        },
                        None => {
                            let mut msg = String::from_str("unexpected argument: ");
                            let rest = render_from(toks, pos);
                            msg.append(rest.as_str());
                            assert(toks@.skip(pos as int) =~= toks@.subrange(
                                pos as int,
                                toks@.len() as int,
                            ));
                            return Err(Error { message: msg, at: Site::Arg(pos) });
                        },
                    }
                },
            }
        }
        assert(spec_entry(toks@, kv, pos as int, st) == Ok::<(nat, ArgState), (Seq<char>, Site)>(
            (n as nat, ArgState { values: values_view(values@), boxed }),
        ));
        let after = pos + 1 + n;
        if after >= toks.len() {
            pos = toks.len();
        } else if !is_punct_tok(&toks[after], ',') {
            return Err(message_error("expected `,`", Site::Arg(after)));
        } else {
            pos = after + 1;
        }
    }
    let ghost st = ArgState { values: values_view(values@), boxed };
    assert(spec_parse_from(toks@, kv, pos as int, st) == spec_finish(kv, st));
    match find_missing(&values) {
        Some(k) => Err(expected_error(keys[k], Site::Input)),
        None => {
            assert(spec_finish(kv, st) == Ok::<ArgState, (Seq<char>, Site)>(st));
            Ok((values, boxed))
        },
    }
}

proof fn lemma_key_index_bound(keys: Seq<Seq<char>>, t: Tok, from: int)
    requires
        0 <= from,
    ensures
        key_index(keys, t, from) matches Some(k) ==> from <= k < keys.len(),
    decreases keys.len() - from,
{
    if from < keys.len() && !is_word(t, keys[from]) {
        lemma_key_index_bound(keys, t, from + 1);
    }
}

/// A successful parse gives every key a value.
proof fn lemma_parse_complete(toks: Seq<Tok>, keys: Seq<Seq<char>>, pos: int, st: ArgState)
    requires
        st.values.len() == keys.len(),
    ensures
        spec_parse_from(toks, keys, pos, st) matches Ok(r) ==> r.values.len() == keys.len()
            && first_missing(r.values, 0) is None,
    decreases toks.len() - pos,
{
    if 0 <= pos < toks.len() {
        lemma_key_index_bound(keys, toks[pos], 0);
        if let Ok((n, st2)) = spec_entry(toks, keys, pos, st) {
            let after = pos + 1 + n;
            if after < toks.len() && is_punct(toks[after], ',') {
                lemma_parse_complete(toks, keys, after + 1, st2);
            }
        }
    }
}

proof fn lemma_no_missing(values: Seq<Option<Seq<Tok>>>, from: int, i: int)
    requires
        0 <= from <= i < values.len(),
        first_missing(values, from) is None,
    ensures
        values[i] is Some,
    decreases i - from,
{
    if from < i {
        lemma_no_missing(values, from + 1, i);
    }
}

/// The keys of an ordinary stream's arguments.
pub open spec fn stream_keys() -> Seq<Seq<char>> {
    seq!["item"@]
}

/// The keys of a fallible stream's arguments.
pub open spec fn try_stream_keys() -> Seq<Seq<char>> {
    seq!["ok"@, "error"@]
}

/// The arguments of `#[stream(..)]`.
#[derive(Debug)]
pub struct StreamArg {
    pub item_ty: Vec<Tok>,
    pub boxed: ReturnTypeKind,
}

impl StreamArg {
    /// Reads `item = <type>`, with at most one of `boxed` and `boxed_local`.
    pub fn parse(toks: &Vec<Tok>) -> (r: Result<StreamArg, Error>)
        ensures
            match (r, spec_parse_args(toks@, stream_keys())) {
                (Ok(a), Ok(st)) => st.values == seq![Some(a.item_ty@)] && a.boxed == st.boxed,
                (Err(e), Err((m, at))) => e.message@ == m && e.at == at,
                _ => false,
            },
    {
        let keys: Vec<&str> = vec!["item"];
        assert(keys_view(keys@) =~= stream_keys());
        proof {
            lemma_parse_complete(
                toks@,
                stream_keys(),
                0,
                ArgState {
                    values: Seq::new(stream_keys().len(), |i: int| None),
                    boxed: ReturnTypeKind::Default,
                },
            );
        }
        match parse_args(toks, &keys) {
            Err(e) => Err(e),
            Ok((values, boxed)) => {
                let mut values = values;
                proof {
                    lemma_no_missing(values_view(values@), 0, 0);
                }
                let item = values.remove(0);
                match item {
                    Some(item_ty) => {
                        assert(values_view(values@.insert(0, Some(item_ty))) =~= seq![Some(item_ty@)]);
                        Ok(StreamArg { item_ty, boxed })
                    },
                    None => Err(message_error("expected `item`", Site::Input)),
                }
            },
        }
    }
}

/// The arguments of `#[try_stream(..)]`.
#[derive(Debug)]
pub struct TryStreamArg {
    pub ok: Vec<Tok>,
    pub error: Vec<Tok>,
    pub boxed: ReturnTypeKind,
}

impl TryStreamArg {
    /// Reads `ok = <type>, error = <type>`, in either order, with at most one
    /// of `boxed` and `boxed_local`.
    pub fn parse(toks: &Vec<Tok>) -> (r: Result<TryStreamArg, Error>)
        ensures
            match (r, spec_parse_args(toks@, try_stream_keys())) {
                (Ok(a), Ok(st)) => st.values == seq![Some(a.ok@), Some(a.error@)] && a.boxed
                    == st.boxed,
                (Err(e), Err((m, at))) => e.message@ == m && e.at == at,
                _ => false,
            },
    {
        let keys: Vec<&str> = vec!["ok", "error"];
        assert(keys_view(keys@) =~= try_stream_keys());
        proof {
            lemma_parse_complete(
                toks@,
                try_stream_keys(),
                0,
                ArgState {
                    values: Seq::new(try_stream_keys().len(), |i: int| None),
                    boxed: ReturnTypeKind::Default,
                },
            );
        }
        match parse_args(toks, &keys) {
            Err(e) => Err(e),
            Ok((values, boxed)) => {
                let mut values = values;
                let ghost vv = values_view(values@);
                proof {
                    lemma_no_missing(vv, 0, 0);
                    lemma_no_missing(vv, 0, 1);
                }
                let error = values.pop();
                let ok = values.pop();
                match (ok, error) {
                    (Some(Some(ok)), Some(Some(error))) => {
                        assert(vv =~= seq![Some(ok@), Some(error@)]);
                        Ok(TryStreamArg { ok, error, boxed })
                    },
                    _ => Err(message_error("expected `ok`", Site::Input)),
                }
            },
        }
    }
}

} // verus!
