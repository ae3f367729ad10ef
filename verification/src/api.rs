//! The value types a registered procedure exchanges with the transport
//! layer.  The routing itself lives with the HTTP adapter; the library
//! holds only the data it hands back and the pairing of a handler with
//! its input and output types.

use vstd::prelude::*;

verus! {

/// The response body of the sample procedures.
#[derive(Debug, Clone, PartialEq)]
pub struct Output {
    pub field: String,
}

impl DeepView for Output {
    type V = Seq<char>;

    open spec fn deep_view(&self) -> Seq<char> {
        self.field@
    }
}

impl Output {
    /// An output carrying the given string.
    pub fn new(field: String) -> (r: Self)
        ensures
            r.deep_view() == field@,
    {
        Output { field }
    }
}

/// A handler function paired, at the type level, with the input it
/// validates and the output it produces.  The HTTP adapter unwraps it to
/// drive the actual dispatch.
pub struct ApiHandler<F, In, Out> {
    inner: F,
    _marker: core::marker::PhantomData<(In, Out)>,
}

impl<F, In, Out> ApiHandler<F, In, Out> {
    /// The wrapped handler function.
    pub closed spec fn spec_inner(&self) -> F {
        self.inner
    }

    /// Wraps a handler function.
    pub fn new(inner: F) -> (r: Self)
        ensures
            r.spec_inner() == inner,
    {
        ApiHandler { inner, _marker: core::marker::PhantomData }
    }

    /// Unwraps the handler function.
    pub fn into_inner(self) -> (r: F)
        ensures
            r == self.spec_inner(),
    {
        self.inner
    }
}

} // verus!
