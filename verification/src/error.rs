//! The [`Error<E>`] wrapper: a context string paired with a typed error.

use std::borrow::Cow;
use vstd::prelude::*;
use vstd::std_specs::cmp::PartialEqSpec;

verus! {

/// An error that pairs a concrete error value with a context string.
///
/// The context is a `Cow<'static, str>`: borrowed when built from a static
/// string (no allocation), owned when built from a `String`.
#[derive(Debug)]
pub struct Error<E> {
    /// Context describing the failed operation.
    pub context: Cow<'static, str>,
    /// The wrapped error value.
    pub source: E,
}

/// The text an error shows: its context, a colon and a space, then the text
/// of the wrapped error.
pub open spec fn display_text(context: Seq<char>, source_text: Seq<char>) -> Seq<char> {
    context + seq![':', ' '] + source_text
}

/// An error's text starts with its whole context, then a colon and a space,
/// and ends with the whole text of the wrapped error; nothing else is in it.
pub proof fn lemma_display_text_layout(context: Seq<char>, source_text: Seq<char>)
    ensures
        display_text(context, source_text).len() == context.len() + 2 + source_text.len(),
        display_text(context, source_text).subrange(0, context.len() as int) == context,
        display_text(context, source_text)[context.len() as int] == ':',
        display_text(context, source_text)[context.len() as int + 1] == ' ',
        display_text(context, source_text).skip(context.len() as int + 2) == source_text,
{
    let t = display_text(context, source_text);
    assert(t.subrange(0, context.len() as int) =~= context);
    assert(t.skip(context.len() as int + 2) =~= source_text);
}

/// The text of a chain of nested errors: the contexts in `contexts`, from the
/// outermost inward, each followed by `": "`, then the text of the root error.
pub open spec fn chain_text(contexts: Seq<Seq<char>>, root: Seq<char>) -> Seq<char>
    decreases contexts.len(),
{
    if contexts.len() == 0 {
        root
    } else {
        display_text(contexts[0], chain_text(contexts.drop_first(), root))
    }
}

/// Where the `i`-th context of a chain starts in [`chain_text`]: the lengths
/// of the contexts before it, each with its two separator characters.
pub open spec fn context_offset(contexts: Seq<Seq<char>>, i: int) -> int
    decreases i,
{
    if i <= 0 {
        0
    } else {
        context_offset(contexts, i - 1) + contexts[i - 1].len() + 2
    }
}

/// Wrapping the text of a chain in one more error puts the new context in
/// front: the outermost annotation is shown first.
pub proof fn lemma_wrap_prepends_context(
    context: Seq<char>,
    inner: Seq<Seq<char>>,
    root: Seq<char>,
)
    ensures
        display_text(context, chain_text(inner, root)) == chain_text(seq![context] + inner, root),
{
    let cs = seq![context] + inner;
    assert(cs.drop_first() =~= inner);
    assert(cs[0] == context);
}

/// The offsets of a chain, seen from its second context on, are those of the
/// chain without its first context, shifted by the first context and its
/// separator.
proof fn lemma_offset_shift(contexts: Seq<Seq<char>>, i: int)
    requires
        1 <= i <= contexts.len(),
    ensures
        context_offset(contexts, i) == contexts[0].len() + 2 + context_offset(
            contexts.drop_first(),
            i - 1,
        ),
    decreases i,
{
    let rest = contexts.drop_first();
    if i > 1 {
        lemma_offset_shift(contexts, i - 1);
        assert(rest[i - 2] == contexts[i - 1]);
        assert(context_offset(rest, i - 1) == context_offset(rest, i - 2) + rest[i - 2].len() + 2);
    } else {
        assert(context_offset(rest, 0) == 0);
        assert(context_offset(contexts, 0) == 0);
    }
    assert(context_offset(contexts, i) == context_offset(contexts, i - 1) + contexts[i - 1].len() + 2);
}

/// Offsets grow along the chain.
proof fn lemma_offset_monotone(contexts: Seq<Seq<char>>, i: int, j: int)
    requires
        0 <= i <= j,
    ensures
        context_offset(contexts, i) <= context_offset(contexts, j),
    decreases j - i,
{
    if i < j {
        lemma_offset_monotone(contexts, i, j - 1);
    }
}

/// In the text of a chain, each context stands at its offset, and the next
/// context starts two characters after it ends: the contexts appear in order,
/// outermost first, each followed by `": "`; the root error's text closes the
/// chain.
pub proof fn lemma_chain_layout(contexts: Seq<Seq<char>>, root: Seq<char>)
    ensures
        chain_text(contexts, root).len() == context_offset(contexts, contexts.len() as int)
            + root.len(),
        chain_text(contexts, root).skip(context_offset(contexts, contexts.len() as int)) == root,
        forall|i: int|
            0 <= i < contexts.len() ==> {
                &&& #[trigger] chain_text(contexts, root).subrange(
                    context_offset(contexts, i),
                    context_offset(contexts, i) + contexts[i].len(),
                ) == contexts[i]
                &&& chain_text(contexts, root).subrange(
                    context_offset(contexts, i) + contexts[i].len(),
                    context_offset(contexts, i + 1),
                ) == seq![':', ' ']
            },
    decreases contexts.len(),
{
    if contexts.len() > 0 {
        let rest = contexts.drop_first();
        lemma_chain_layout(rest, root);
        let t = chain_text(contexts, root);
        let tr = chain_text(rest, root);
        let h: int = contexts[0].len() as int + 2;
        assert(t == display_text(contexts[0], tr));
        assert(t =~= contexts[0] + seq![':', ' '] + tr);
        lemma_offset_shift(contexts, contexts.len() as int);
        assert(rest.len() == contexts.len() - 1);
        lemma_offset_monotone(rest, 0, rest.len() as int);
        assert(t.skip(context_offset(contexts, contexts.len() as int)) =~= tr.skip(
            context_offset(rest, rest.len() as int),
        ));
        assert forall|i: int| 0 <= i < contexts.len() implies {
            &&& #[trigger] t.subrange(
                context_offset(contexts, i),
                context_offset(contexts, i) + contexts[i].len(),
            ) == contexts[i]
            &&& t.subrange(
                context_offset(contexts, i) + contexts[i].len(),
                context_offset(contexts, i + 1),
            ) == seq![':', ' ']
        } by {
            if i == 0 {
                assert(t.subrange(0, contexts[0].len() as int) =~= contexts[0]);
                assert(t.subrange(contexts[0].len() as int, h) =~= seq![':', ' ']);
            } else {
                lemma_offset_shift(contexts, i);
                lemma_offset_shift(contexts, i + 1);
                lemma_offset_monotone(rest, i, rest.len() as int);
                lemma_offset_monotone(rest, 0, i - 1);
                assert(rest[i - 1] == contexts[i]);
                let a = context_offset(rest, i - 1);
                let b = context_offset(rest, i);
                assert(b == a + rest[i - 1].len() + 2);
                assert(b <= tr.len());
                assert(t.subrange(h + a, h + a + contexts[i].len()) =~= tr.subrange(
                    a,
                    a + rest[i - 1].len(),
                ));
                assert(t.subrange(h + a + contexts[i].len(), h + b) =~= tr.subrange(
                    a + rest[i - 1].len(),
                    b,
                ));
            }
        }
    }
}

/// Equality of two strings by content.
///
/// Calls `<str as PartialEq>::eq`, which std documents as comparing the two
/// strings' contents; the contract claims the result is `true` exactly when
/// the two character sequences are equal.
#[verifier::external_body]
fn str_eq(a: &str, b: &str) -> (res: bool)
    ensures
        res == (a@ == b@),
{
    a == b
}

impl<E> Error<E> {
    /// Creates an error with a static context string; the context is borrowed,
    /// so nothing is allocated.
    pub fn new(context: &'static str, source: E) -> (res: Self)
        ensures
            res.context == Cow::<'static, str>::Borrowed(context),
            res.context@ == context@,
            res.source == source,
    {
        Error { context: Cow::Borrowed(context), source }
    }

    /// Creates an error with an owned context string.
    pub fn new_owned(context: String, source: E) -> (res: Self)
        ensures
            res.context == Cow::<'static, str>::Owned(context),
            res.context@ == context@,
            res.source == source,
    {
        Error { context: Cow::Owned(context), source }
    }

    /// Returns the stored context string.
    pub fn context(&self) -> (res: &str)
        ensures
            res@ == self.context@,
    {
        match &self.context {
            Cow::Borrowed(s) => s,
            Cow::Owned(s) => s.as_str(),
        }
    }

    /// Consumes the wrapper and returns the original error.
    pub fn into_source(self) -> (res: E)
        ensures
            res == self.source,
    {
        self.source
    }

    /// Maps the wrapped error to another type and keeps the same context.
    pub fn map<F, E2>(self, f: F) -> (res: Error<E2>) where F: FnOnce(E) -> E2
        requires
            f.requires((self.source,)),
        ensures
            res.context == self.context,
            f.ensures((self.source,), res.source),
    {
        Error { context: self.context, source: f(self.source) }
    }

    /// The error's text, given the text of the wrapped error: the context,
    /// then `": "`, then `source_text`.
    ///
    /// For a nested `Error<Error<E>>`, pass the inner error's text as
    /// `source_text`; the contexts then read from the outermost inward.
    pub fn display_with(&self, source_text: &str) -> (res: String)
        ensures
            res@ == display_text(self.context@, source_text@),
    {
        let sep = ": ";
        proof {
            reveal_strlit(": ");
        }
        let mut text = String::from_str(self.context());
        text.append(sep);
        text.append(source_text);
        text
    }
}

impl<E: Clone> Clone for Error<E> {
    /// Clones both the context string and the wrapped error.
    fn clone(&self) -> (res: Self)
        ensures
            res.context == self.context,
            cloned::<E>(self.source, res.source),
    {
        let context = match &self.context {
            Cow::Borrowed(s) => Cow::Borrowed(*s),
            Cow::Owned(s) => Cow::Owned(s.clone()),
        };
        Error { context, source: self.source.clone() }
    }
}

impl<E: PartialEq> PartialEq for Error<E> {
    /// Two errors are equal when their context strings have the same content
    /// and their wrapped errors are equal.
    fn eq(&self, other: &Self) -> (res: bool)
        ensures
            <E as PartialEqSpec>::obeys_eq_spec() ==> (res <==> (self.context@ == other.context@
                && self.source.eq_spec(&other.source))),
    {
        str_eq(self.context(), other.context()) && self.source == other.source
    }
}

impl<E: PartialEq> vstd::std_specs::cmp::PartialEqSpecImpl for Error<E> {
    open spec fn obeys_eq_spec() -> bool {
        <E as PartialEqSpec>::obeys_eq_spec()
    }

    open spec fn eq_spec(&self, other: &Self) -> bool {
        self.context@ == other.context@ && self.source.eq_spec(&other.source)
    }
}

impl<E: Eq> Eq for Error<E> {
}

/// Two errors are equal exactly when their contexts have the same characters,
/// all of them, and their wrapped errors are equal.
pub proof fn lemma_eq_exact<E: PartialEq>(a: Error<E>, b: Error<E>)
    ensures
        a.eq_spec(&b) <==> (a.context@ == b.context@ && a.source.eq_spec(&b.source)),
{
}

/// Errors whose contexts differ anywhere (in any character or in length) are
/// never equal, whatever they wrap.
pub proof fn lemma_eq_distinguishes_contexts<E: PartialEq>(a: Error<E>, b: Error<E>)
    requires
        a.context@ != b.context@,
    ensures
        !a.eq_spec(&b),
{
}

/// Equal errors have equal contexts and equal wrapped errors.
pub proof fn lemma_eq_implies_parts_equal<E: PartialEq>(a: Error<E>, b: Error<E>)
    requires
        a.eq_spec(&b),
    ensures
        a.context@ == b.context@,
        a.context@.len() == b.context@.len(),
        forall|i: int| 0 <= i < a.context@.len() ==> a.context@[i] == b.context@[i],
        a.source.eq_spec(&b.source),
{
}

/// Equality looks at the content of the context only: a borrowed and an owned
/// context with the same characters make equal errors.
pub proof fn lemma_eq_ignores_context_storage<E: PartialEq>(
    borrowed: &'static str,
    owned: String,
    source: E,
)
    requires
        borrowed@ == owned@,
        source.eq_spec(&source),
    ensures
        (Error { context: Cow::Borrowed(borrowed), source }).eq_spec(
            &Error { context: Cow::Owned(owned), source },
        ),
{
}

/// Equality of errors is reflexive wherever equality of the wrapped errors is.
pub proof fn lemma_eq_reflexive<E: PartialEq>(e: Error<E>)
    requires
        e.source.eq_spec(&e.source),
    ensures
        e.eq_spec(&e),
{
}

/// Equality of errors is symmetric wherever equality of the wrapped errors is.
pub proof fn lemma_eq_symmetric<E: PartialEq>(a: Error<E>, b: Error<E>)
    requires
        a.source.eq_spec(&b.source) == b.source.eq_spec(&a.source),
    ensures
        a.eq_spec(&b) == b.eq_spec(&a),
{
}

} // verus!
