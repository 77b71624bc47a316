//! Which kind of coroutine encloses a point of the syntax tree.
use vstd::prelude::*;

verus! {

/// The flavor of a decorated item: an ordinary stream or a fallible one.
#[derive(Clone, Copy, Debug, PartialEq, Eq, Structural)]
pub enum Context {
    Stream,
    TryStream,
}

impl Context {
    /// The attribute keyword of this flavor.
    pub open spec fn spec_name(self) -> Seq<char> {
        match self {
            Context::Stream => "stream"@,
            Context::TryStream => "try_stream"@,
        }
    }

    pub fn as_str(self) -> (r: &'static str)
        ensures
            r@ == self.spec_name(),
    {
        match self {
            Context::Stream => {
                proof {
                    reveal_strlit("stream");
                }
                "stream"
            },
            Context::TryStream => {
                proof {
                    reveal_strlit("try_stream");
                }
                "try_stream"
            },
        }
    }

    /// The scope that the body of an item of this flavor is rewritten in.
    pub open spec fn spec_scope(self) -> Scope {
        match self {
            Context::Stream => Scope::Stream,
            Context::TryStream => Scope::TryStream,
        }
    }

    pub fn scope(self) -> (r: Scope)
        ensures
            r == self.spec_scope(),
    {
        match self {
            Context::Stream => Scope::Stream,
            Context::TryStream => Scope::TryStream,
        }
    }
}

/// The scope in which `#[for_await]`, `.await` or `yield` stands; the kind of
/// coroutine depends on it.
#[derive(Clone, Copy, Debug, PartialEq, Eq, Structural)]
pub enum Scope {
    /// `async fn`, `async {}` or `async ||`.
    Future,
    /// The body of the `#[stream]` item being expanded.
    Stream,
    /// The body of the `#[try_stream]` item being expanded.
    TryStream,
    /// `||`, `move ||` or `static move ||`: no suspension may happen here.
    Closure,
    /// A nested `#[stream]` or `#[try_stream]` unit, expanded on its own.
    Other,
}

impl Scope {
    pub open spec fn spec_is_stream(self) -> bool {
        self == Scope::Stream || self == Scope::TryStream
    }

    pub fn is_stream(self) -> (r: bool)
        ensures
            r == self.spec_is_stream(),
    {
        matches!(self, Scope::Stream | Scope::TryStream)
    }
}

impl From<Context> for Scope {
    fn from(cx: Context) -> (r: Scope) {
        cx.scope()
    }
}

impl vstd::std_specs::convert::FromSpecImpl<Context> for Scope {
    open spec fn obeys_from_spec() -> bool {
        true
    }

    open spec fn from_spec(cx: Context) -> Scope {
        cx.spec_scope()
    }
}

impl Default for Scope {
    fn default() -> (r: Scope)
        ensures
            r == Scope::Future,
    {
        Scope::Future
    }
}

} // verus!
