//! Looking up marker attributes by name.
use vstd::prelude::*;
use vstd::string::*;

use crate::syntax::{Attr, Error, Site};

verus! {

/// Equality of two strings, character by character.
pub fn str_eq(a: &str, b: &str) -> (r: bool)
    ensures
        r == (a@ == b@),
{
    let n = a.unicode_len();
    if n != b.unicode_len() {
        return false;
    }
    let mut i: usize = 0;
    while i < n
        invariant
            n == a@.len(),
            n == b@.len(),
            i <= n,
            a@.subrange(0, i as int) == b@.subrange(0, i as int),
        decreases n - i,
    {
        if a.get_char(i) != b.get_char(i) {
            assert(a@[i as int] != b@[i as int]);
            return false;
        }
        assert(a@.subrange(0, i + 1) == a@.subrange(0, i as int).push(a@[i as int]));
        assert(b@.subrange(0, i + 1) == b@.subrange(0, i as int).push(b@[i as int]));
        i = i + 1;
    }
    assert(a@ == a@.subrange(0, n as int));
    assert(b@ == b@.subrange(0, n as int));
    true
}

/// `true` when the path is the single identifier `name`.
pub open spec fn spec_is_ident(path: Seq<String>, name: Seq<char>) -> bool {
    path.len() == 1 && path[0]@ == name
}

pub fn is_ident(path: &Vec<String>, name: &str) -> (r: bool)
    ensures
        r == spec_is_ident(path@, name@),
{
    path.len() == 1 && str_eq(path[0].as_str(), name)
}

/// The crate that the markers live in.
pub open spec fn spec_crate_name() -> Seq<char> {
    "futures_async_stream"@
}

/// `true` when the path names the marker `name`, bare or under the crate's
/// name.
pub open spec fn spec_path_eq(path: Seq<String>, name: Seq<char>) -> bool {
    spec_is_ident(path, name) || (path.len() == 2 && path[0]@ == spec_crate_name() && path[1]@
        == name)
}

pub fn path_eq(path: &Vec<String>, name: &str) -> (r: bool)
    ensures
        r == spec_path_eq(path@, name@),
{
    if is_ident(path, name) {
        return true;
    }
    path.len() == 2 && str_eq(path[0].as_str(), "futures_async_stream") && str_eq(
        path[1].as_str(),
        name,
    )
}

/// The first index at or after `from` whose attribute is the bare marker `name`.
pub open spec fn first_ident(attrs: Seq<Attr>, name: Seq<char>, from: int) -> Option<int>
    decreases attrs.len() - from,
{
    if from < 0 || from >= attrs.len() {
        None
    } else if spec_is_ident(attrs[from].path@, name) {
        Some(from)
    } else {
        first_ident(attrs, name, from + 1)
    }
}

/// The message for a marker given twice.
pub open spec fn duplicate_message(name: Seq<char>) -> Seq<char> {
    "duplicate #["@ + name + "] attribute"@
}

/// The message for a marker that carries arguments.
pub open spec fn arguments_message() -> Seq<char> {
    "unexpected token in attribute"@
}

/// Where the bare marker `name` stands among `attrs`: `None` when it is
/// absent; an error when its first occurrence carries arguments, or when it
/// occurs twice.
pub open spec fn spec_position_exact(attrs: Seq<Attr>, name: Seq<char>) -> Result<
    Option<int>,
    Seq<char>,
> {
    match first_ident(attrs, name, 0) {
        None => Ok(None),
        Some(i) => if !attrs[i].path_only {
            Err(arguments_message())
        } else if first_ident(attrs, name, i + 1) is Some {
            Err(duplicate_message(name))
        } else {
            Ok(Some(i))
        },
    }
}

/// The index of the attribute that a failed lookup of `name` points at: the
/// first occurrence when it carries arguments, else the second.
pub open spec fn position_site(attrs: Seq<Attr>, name: Seq<char>) -> int {
    let i = first_ident(attrs, name, 0)->0;
    if !attrs[i].path_only {
        i
    } else {
        first_ident(attrs, name, i + 1)->0
    }
}

/// As [`position_site`], for a marker that may be written under the crate's
/// name.
pub open spec fn marker_site(attrs: Seq<Attr>, name: Seq<char>) -> int {
    let i = first_marker(attrs, name, 0)->0;
    if !attrs[i].path_only {
        i
    } else {
        first_marker(attrs, name, i + 1)->0
    }
}

/// The message for a marker given twice.
pub fn duplicate_error(name: &str, at: Site) -> (r: Error)
    ensures
        r.message@ == duplicate_message(name@),
        r.at == at,
{
    let mut m = String::from_str("duplicate #[");
    m.append(name);
    m.append("] attribute");
    Error { message: m, at }
}

/// Where the bare marker `name` stands among `attrs`.
pub fn position_exact(attrs: &Vec<Attr>, name: &str) -> (r: Result<Option<usize>, Error>)
    ensures
        match (r, spec_position_exact(attrs@, name@)) {
            (Ok(Some(i)), Ok(Some(j))) => i == j,
            (Ok(None), Ok(None)) => true,
            (Err(e), Err(m)) => e.message@ == m && e.at == Site::Attr(
                position_site(attrs@, name@) as usize,
            ),
            _ => false,
        },
{
    let mut prev: Option<usize> = None;
    let mut i: usize = 0;
    while i < attrs.len()
        invariant
            i <= attrs.len(),
            match prev {
                None => first_ident(attrs@, name@, 0) == first_ident(attrs@, name@, i as int),
                Some(p) => {
                    &&& first_ident(attrs@, name@, 0) == Some(p as int)
                    &&& p < i
                    &&& attrs@[p as int].path_only
                    &&& first_ident(attrs@, name@, p + 1) == first_ident(attrs@, name@, i as int)
                },
            },
        decreases attrs.len() - i,
    {
        if is_ident(&attrs[i].path, name) {
            match prev {
                Some(_) => {
                    return Err(duplicate_error(name, Site::Attr(i)));
                },
                None => {
                    if !attrs[i].path_only {
                        return Err(
                            Error {
                                message: String::from_str("unexpected token in attribute"),
                                at: Site::Attr(i),
                            },
                        );
                    }
                    prev = Some(i);
                },
            }
        }
        i = i + 1;
    }
    Ok(prev)
}

/// The first index at or after `from` whose attribute names the marker
/// `name`, bare or under the crate's name.
pub open spec fn first_marker(attrs: Seq<Attr>, name: Seq<char>, from: int) -> Option<int>
    decreases attrs.len() - from,
{
    if from < 0 || from >= attrs.len() {
        None
    } else if spec_path_eq(attrs[from].path@, name) {
        Some(from)
    } else {
        first_marker(attrs, name, from + 1)
    }
}

/// As [`spec_position_exact`], for a marker that may also be written under
/// the crate's name.
pub open spec fn spec_position_marker(attrs: Seq<Attr>, name: Seq<char>) -> Result<
    Option<int>,
    Seq<char>,
> {
    match first_marker(attrs, name, 0) {
        None => Ok(None),
        Some(i) => if !attrs[i].path_only {
            Err(arguments_message())
        } else if first_marker(attrs, name, i + 1) is Some {
            Err(duplicate_message(name))
        } else {
            Ok(Some(i))
        },
    }
}

/// Where the marker `name`, bare or under the crate's name, stands among
/// `attrs`.
pub fn position_marker(attrs: &Vec<Attr>, name: &str) -> (r: Result<Option<usize>, Error>)
    ensures
        match (r, spec_position_marker(attrs@, name@)) {
            (Ok(Some(i)), Ok(Some(j))) => i == j,
            (Ok(None), Ok(None)) => true,
            (Err(e), Err(m)) => e.message@ == m && e.at == Site::Attr(
                marker_site(attrs@, name@) as usize,
            ),
            _ => false,
        },
{
    let mut prev: Option<usize> = None;
    let mut i: usize = 0;
    while i < attrs.len()
        invariant
            i <= attrs.len(),
            match prev {
                None => first_marker(attrs@, name@, 0) == first_marker(attrs@, name@, i as int),
                Some(p) => {
                    &&& first_marker(attrs@, name@, 0) == Some(p as int)
                    &&& p < i
                    &&& attrs@[p as int].path_only
                    &&& first_marker(attrs@, name@, p + 1) == first_marker(attrs@, name@, i as int)
                },
            },
        decreases attrs.len() - i,
    {
        if path_eq(&attrs[i].path, name) {
            match prev {
                Some(_) => {
                    return Err(duplicate_error(name, Site::Attr(i)));
                },
                None => {
                    if !attrs[i].path_only {
                        return Err(
                            Error {
                                message: String::from_str("unexpected token in attribute"),
                                at: Site::Attr(i),
                            },
                        );
                    }
                    prev = Some(i);
                },
            }
        }
        i = i + 1;
    }
    Ok(prev)
}

} // verus!
