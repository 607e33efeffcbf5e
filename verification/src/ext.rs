//! The [`ResultExt`] extension trait: annotating the error of a `Result`.

use crate::error::Error;
use std::borrow::Cow;
use vstd::prelude::*;

verus! {

/// What `annotate` gives back: `Ok` values pass through unchanged, and an
/// `Err(e)` becomes `Err` of an [`Error`] whose context borrows `msg` and whose
/// source is `e`.
pub open spec fn annotated<T, E>(r: Result<T, E>, msg: &'static str) -> Result<T, Error<E>> {
    match r {
        Ok(v) => Ok(v),
        Err(e) => Err(Error { context: Cow::Borrowed(msg), source: e }),
    }
}

/// Annotating an `Ok` value leaves it unchanged.
pub proof fn lemma_annotate_ok_passthrough<T, E>(v: T, msg: &'static str)
    ensures
        annotated(Ok::<T, E>(v), msg) == Ok::<T, Error<E>>(v),
{
}

/// Annotating an error keeps it, untouched and fully typed, under the new
/// context: taking the source back out gives the original error.
pub proof fn lemma_annotate_keeps_source<T, E>(e: E, msg: &'static str)
    ensures
        annotated(Err::<T, E>(e), msg) matches Err(w) && w.source == e && w.context@ == msg@,
{
}

/// Annotating twice nests the errors: the last annotation is the outermost
/// context, the first one the inner context, and the original error sits
/// inside both.
pub proof fn lemma_annotate_twice_nests<T, E>(e: E, first: &'static str, second: &'static str)
    ensures
        annotated(annotated(Err::<T, E>(e), first), second) matches Err(w) && w.context@
            == second@ && w.source.context@ == first@ && w.source.source == e,
{
}

/// Adds context to `Result<T, E>`.
pub trait ResultExt<T, E>: Sized {
    /// The `Result` that is being annotated.
    spec fn outcome(&self) -> Result<T, E>;

    /// Wraps `Err(e)` with a static context string; `Ok` passes through.
    fn annotate(self, msg: &'static str) -> (res: Result<T, Error<E>>)
        ensures
            res == annotated(self.outcome(), msg),
    ;

    /// Wraps `Err(e)` with a context string built on demand by `f`; `Ok`
    /// passes through. The closure runs only on the `Err` path.
    fn annotate_with<F>(self, f: F) -> (res: Result<T, Error<E>>) where F: FnOnce() -> String
        requires
            self.outcome() is Err ==> f.requires(()),
        ensures
            self.outcome() matches Ok(v) ==> res == Ok::<T, Error<E>>(v),
            self.outcome() matches Err(e) ==> {
                &&& res matches Err(w)
                &&& w.source == e
                &&& w.context matches Cow::Owned(s)
                &&& f.ensures((), s)
            },
    ;
}

impl<T, E> ResultExt<T, E> for Result<T, E> {
    open spec fn outcome(&self) -> Result<T, E> {
        *self
    }

    fn annotate(self, msg: &'static str) -> (res: Result<T, Error<E>>) {
        match self {
            Ok(v) => Ok(v),
            Err(e) => Err(Error::new(msg, e)),
        }
    }

    fn annotate_with<F>(self, f: F) -> (res: Result<T, Error<E>>) where F: FnOnce() -> String {
        match self {
            Ok(v) => Ok(v),
            Err(e) => Err(Error::new_owned(f(), e)),
        }
    }
}

} // verus!
