//! Small helpers shared by the attribute handlers.

use vstd::prelude::*;

use vstd::std_specs::iter::IteratorSpec;

use crate::env_attr::Args;

verus! {

/// Whether every item is `Ok`.
pub open spec fn all_ok<T, E>(items: Seq<Result<T, E>>) -> bool {
    forall|i: int| 0 <= i < items.len() ==> (#[trigger] items[i]) is Ok
}

/// Pulls items from `it` until it runs out or gives an error: collects the values, or
/// gives back the first error. No item after the first error is pulled, so `it` is
/// left just past it.
#[verifier::loop_isolation(false)]
pub fn try_collect_from<I, T, E>(it: &mut I) -> (res: Result<Vec<T>, E>)
    where
        I: Iterator<Item = Result<T, E>>,
    requires
        (*old(it)).obeys_prophetic_iter_laws(),
        (*old(it)).decrease() is Some,
    ensures
        res is Ok <==> all_ok((*old(it)).remaining()),
        res matches Ok(values) ==> {
            &&& values@.len() == (*old(it)).remaining().len()
            &&& forall|i: int| 0 <= i < values@.len() ==> (*old(it)).remaining()[i] == Ok::<T, E>(#[trigger] values@[i])
            &&& (*final(it)).remaining().len() == 0
        },
        res matches Err(e) ==> exists|i: int| {
            &&& 0 <= i < (*old(it)).remaining().len()
            &&& (*old(it)).remaining()[i] == Err::<T, E>(e)
            &&& all_ok((*old(it)).remaining().take(i))
            &&& (*final(it)).remaining() == (*old(it)).remaining().skip(i + 1)
        },
{
    let ghost orig = (*it).remaining();
    let mut out: Vec<T> = Vec::new();
    loop
        invariant
            (*it).obeys_prophetic_iter_laws(),
            (*it).decrease() is Some,
            out@.len() <= orig.len(),
            (*it).remaining() == orig.skip(out@.len() as int),
            forall|i: int| 0 <= i < out@.len() ==> orig[i] == Ok::<T, E>(#[trigger] out@[i]),
        decreases (*it).decrease()->0,
    {
        let ghost k = out@.len() as int;
        match it.next() {
            None => {
                assert forall|i: int| 0 <= i < orig.len() implies (#[trigger] orig[i]) is Ok by {
                    assert(orig[i] == Ok::<T, E>(out@[i]));
                }
                return Ok(out);
            },
            Some(Ok(value)) => {
                assert(orig.skip(k).drop_first() =~= orig.skip(k + 1));
                out.push(value);
            },
            Some(Err(e)) => {
                assert(orig.skip(k).drop_first() =~= orig.skip(k + 1));
                assert forall|i: int| 0 <= i < orig.take(k).len() implies (#[trigger] orig.take(k)[i]) is Ok by {
                    assert(orig.take(k)[i] == orig[i]);
                    assert(orig[i] == Ok::<T, E>(out@[i]));
                }
                assert(!all_ok(orig)) by {
                    if all_ok(orig) {
                        assert(orig[k] is Ok);
                    }
                }
                assert((*it).remaining() == orig.skip(k + 1));
                return Err(e);
            },
        }
    }
}

/// Collects the values of the results that `it` gives, or gives back the first error;
/// no item after the first error is pulled.
pub fn try_collect<I, T, E>(it: I) -> (res: Result<Vec<T>, E>)
    where
        I: Iterator<Item = Result<T, E>>,
    requires
        it.obeys_prophetic_iter_laws(),
        it.decrease() is Some,
    ensures
        res is Ok <==> all_ok(it.remaining()),
        res matches Ok(values) ==> values@.len() == it.remaining().len() && forall|i: int|
            0 <= i < values@.len() ==> it.remaining()[i] == Ok::<T, E>(#[trigger] values@[i]),
        res matches Err(e) ==> exists|i: int|
            0 <= i < it.remaining().len() && it.remaining()[i] == Err::<T, E>(e) && all_ok(it.remaining().take(i)),
{
    let mut it = it;
    try_collect_from(&mut it)
}

/// The arguments that apply to a function: its own, when it has an `env` attribute,
/// else those of the enclosing impl block.
pub fn resolved_args<'a>(parent: &'a Args, fn_args: &'a Option<Args>) -> (res: &'a Args)
    ensures
        fn_args matches Some(own) ==> res == own,
        fn_args is None ==> res == parent,
{
    match fn_args {
        Some(own) => own,
        None => parent,
    }
}

/// A directive written where it has no meaning, such as `@supercede` on a free function.
pub struct Disallowed {
    pub directive: String,
    pub context: String,
}

impl Disallowed {
    /// The text of the error: `@<directive> is not allowed in <context> attributes.`
    pub fn message(&self) -> (res: String)
        ensures
            res@ == "@"@ + self.directive@ + " is not allowed in "@ + self.context@ + " attributes."@,
    {
        let mut res = "@".to_owned();
        res.append(&self.directive);
        res.append(" is not allowed in ");
        res.append(&self.context);
        res.append(" attributes.");
        res
    }
}

/// Refuses `value` when `has_directive` finds the directive in it.
pub fn disallow<T, F: Fn(&T) -> bool>(directive: &str, context: &str, value: &T, has_directive: F) -> (res: Result<(), Disallowed>)
    requires
        has_directive.requires((value,)),
    ensures
        res is Err ==> has_directive.ensures((value,), true),
        res is Ok ==> has_directive.ensures((value,), false),
        res matches Err(e) ==> e.directive@ == directive@ && e.context@ == context@,
{
    if has_directive(value) {
        Err(Disallowed { directive: directive.to_owned(), context: context.to_owned() })
    } else {
        Ok(())
    }
}

} // verus!
