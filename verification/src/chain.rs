//! The failure chain: `anyhow::Error`, and what attaching a frame does to it.

use vstd::prelude::*;

verus! {

/// `anyhow::Error`: a failure together with the chain of its causes. It is
/// opaque here; all that is said of one is said through [`frames`].
#[verifier::external_type_specification]
#[verifier::external_body]
pub struct ExError(anyhow::Error);

/// The messages of a failure's frames, outermost first and root cause last:
/// what `anyhow::Error::chain` yields, each item written out by its
/// `Display`.
pub uninterp spec fn frames(e: anyhow::Error) -> Seq<Seq<char>>;

/// Whether a call of `producer` may return a string that reads `text`.
pub open spec fn yields<F: FnOnce() -> String>(producer: F, text: Seq<char>) -> bool {
    exists|m: String| call_ensures(producer, (), m) && m@ == text
}

/// `anyhow::Context::context` on a `Result` whose error is `anyhow::Error`.
///
/// Believed of it: a success is handed back as it is; a failure comes back
/// with `message` as a new outermost frame and the old frames, in their
/// order, beneath it.
#[verifier::external_body]
pub(crate) fn result_context<T>(value: Result<T, anyhow::Error>, message: String) -> (r: Result<
    T,
    anyhow::Error,
>)
    ensures
        value is Ok ==> r is Ok && r->Ok_0 == value->Ok_0,
        value is Err ==> r is Err && frames(r->Err_0) == seq![message@] + frames(value->Err_0),
{
    anyhow::Context::context(value, message)
}

/// `anyhow::Context::with_context` on a `Result` whose error is
/// `anyhow::Error`.
///
/// Believed of it: a success is handed back as it is and `message` is not
/// called, so that nothing is asked of `message` then; on a failure
/// `message` is called, and what it returns becomes the new outermost frame
/// above the old ones.
#[verifier::external_body]
pub(crate) fn result_with_context<T, F>(value: Result<T, anyhow::Error>, message: F) -> (r: Result<
    T,
    anyhow::Error,
>) where F: FnOnce() -> String
    requires
        value is Err ==> call_requires(message, ()),
    ensures
        value is Ok ==> r is Ok && r->Ok_0 == value->Ok_0,
        value is Err ==> r is Err && yields(message, frames(r->Err_0).first()),
        value is Err ==> frames(r->Err_0) == seq![frames(r->Err_0).first()] + frames(value->Err_0),
{
    anyhow::Context::with_context(value, message)
}

/// `anyhow::Context::context` on an `Option`.
///
/// Believed of it: a present value comes back as a success; an absent one
/// becomes a failure whose only frame is `message`.
#[verifier::external_body]
pub(crate) fn option_context<T>(value: Option<T>, message: String) -> (r: Result<T, anyhow::Error>)
    ensures
        value is Some ==> r is Ok && r->Ok_0 == value->0,
        value is None ==> r is Err && frames(r->Err_0) == seq![message@],
{
    anyhow::Context::context(value, message)
}

/// `anyhow::Context::with_context` on an `Option`.
///
/// Believed of it: a present value comes back as a success and `message` is
/// not called, so that nothing is asked of `message` then; for an absent one
/// `message` is called, and what it returns is the only frame of the failure.
#[verifier::external_body]
pub(crate) fn option_with_context<T, F>(value: Option<T>, message: F) -> (r: Result<
    T,
    anyhow::Error,
>) where F: FnOnce() -> String
    requires
        value is None ==> call_requires(message, ()),
    ensures
        value is Some ==> r is Ok && r->Ok_0 == value->0,
        value is None ==> r is Err && yields(message, frames(r->Err_0).first()),
        value is None ==> frames(r->Err_0) == seq![frames(r->Err_0).first()],
{
    anyhow::Context::with_context(value, message)
}

} // verus!
