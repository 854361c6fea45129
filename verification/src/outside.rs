//! The boundary to the crates this library lives with: `failure`, which
//! carries chained errors, `sentry`, which turns one failure of a chain
//! into an exception, and `sugar`, which drops the success value of a
//! result.
//!
//! Every function here is trusted: Verus believes its contract and does not
//! read its body. The contracts claim only what the sources of those crates
//! show for every value. A `failure::Error` and a `sentry` exception are
//! opaque to the verifier; what the library reads of them it reads through
//! these functions, as plain values. Two things have a name of their own,
//! because they belong to the value and to nothing else: how long the chain
//! of an error is, and what an exception holds.

use sentry::integrations::failure::exception_from_single_fail;
use sugar::SResultExt;
use vstd::prelude::*;
use crate::record::record_parts_view;

verus! {

/// `failure::Error`, carried through verified code as an opaque value.
#[verifier::external_type_specification]
#[verifier::external_body]
pub struct ExError(failure::Error);

/// `sentry::protocol::Exception`, carried through verified code as an
/// opaque value.
#[verifier::external_type_specification]
#[verifier::external_body]
pub struct ExException(sentry::protocol::Exception);

/// The number of failures in the chain of a `failure::Error`: the error's
/// own failure, its cause, the cause of that, down to the root cause. The
/// chain is part of the error's value and does not change while the error
/// lives.
pub uninterp spec fn chain_depth(err: failure::Error) -> nat;

/// What a `sentry::protocol::Exception` holds, as far as this library reads
/// it: its `ty`, its `value`, and of each frame of its `stacktrace` the
/// fields `abs_path`, `function`, `lineno` and `colno`, in frame order.
pub uninterp spec fn exception_content(exception: sentry::protocol::Exception) -> (
    Seq<char>,
    Option<Seq<char>>,
    Option<Seq<(Option<Seq<char>>, Option<Seq<char>>, Option<u64>, Option<u64>)>>,
);

/// `failure::Error::iter_chain`, counted: the number of failures in the
/// chain of `err`, which is at least one, since the iterator starts at the
/// error's own failure and yields it before it follows any cause. A chain
/// whose causes lead back to one of its own failures has no end, and the
/// count does not return on it; `failure` asks of every cause that it is a
/// different failure.
#[verifier::external_body]
pub(crate) fn chain_length(err: &failure::Error) -> (length: usize)
    ensures
        length == chain_depth(*err),
        length >= 1,
{
    err.iter_chain().count()
}

/// Takes the failure at position `index` of `failure::Error::iter_chain`
/// and hands it, with the backtrace that `failure::Fail::backtrace` reports
/// for it, to `sentry::integrations::failure::exception_from_single_fail`.
///
/// The only claim is on which positions there is a failure: on those
/// before the end of the chain, and on no other. What the exception holds
/// depends on the failure's own `Display` and `Debug` and on how its
/// backtrace resolves, and nothing is claimed of it. The conversion reads
/// line numbers out of the backtrace's text and does not return where one
/// of them does not fit in 64 bits.
#[verifier::external_body]
pub(crate) fn exception_at(err: &failure::Error, index: usize) -> (exception: Option<
    sentry::protocol::Exception,
>)
    ensures
        exception is Some <==> index < chain_depth(*err),
{
    match err.iter_chain().nth(index) {
        Some(cause) => Some(exception_from_single_fail(cause, cause.backtrace())),
        None => None,
    }
}

/// Takes a `sentry::protocol::Exception` apart: its `ty`, its `value`, and
/// of each frame of its `stacktrace` the fields `abs_path`, `function`,
/// `lineno` and `colno`, in frame order. The fields are moved out as they
/// are: the parts are what the exception held.
#[verifier::external_body]
pub(crate) fn exception_parts(exception: sentry::protocol::Exception) -> (parts: (
    String,
    Option<String>,
    Option<Vec<(Option<String>, Option<String>, Option<u64>, Option<u64>)>>,
))
    ensures
        record_parts_view(parts) == exception_content(exception),
{
    let frames = match exception.stacktrace {
        Some(trace) => Some(
            trace.frames.into_iter().map(|f| (f.abs_path, f.function, f.lineno, f.colno)).collect(),
        ),
        None => None,
    };
    (exception.ty, exception.value, frames)
}

/// `sugar::SResultExt::drop_value`: maps the success value of a result to
/// `()` and leaves an error as it is.
#[verifier::external_body]
pub(crate) fn drop_value<T>(result: Result<T, failure::Error>) -> (dropped: Result<
    (),
    failure::Error,
>)
    ensures
        result is Ok ==> dropped is Ok,
        result is Err ==> dropped is Err && dropped->Err_0 == result->Err_0,
{
    result.drop_value()
}

/// `failure::err_msg`: an error made from a message. Nothing is claimed of
/// the error: whether it carries a backtrace depends on the process it
/// is made in.
#[verifier::external_body]
pub(crate) fn message_error(message: &'static str) -> (err: failure::Error) {
    failure::err_msg(message)
}

} // verus!
