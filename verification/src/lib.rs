//! An error-annotation and crash-reporting pipeline.
//!
//! A chain of causally linked failures is classified, flattened into an
//! ordered list of records, freed of repeated stack traces, trimmed to
//! application frames, and turned into two reports: a text block for the
//! local log, wrapper first, and a structured event for a remote backend,
//! root cause first. The library computes both reports; emitting them is
//! left to the caller.

use vstd::prelude::*;

pub mod chain;
pub mod dedup;
pub mod errors;
pub mod filter;
pub mod key;
pub mod outside;
pub mod record;
pub mod sink;
pub mod text;

use crate::outside::message_error;

verus! {

/// A step that always succeeds.
fn b() -> (outcome: Result<(), failure::Error>)
    ensures
        outcome is Ok,
{
    Ok(())
}

/// A step that always succeeds.
fn c() -> (outcome: Result<(), failure::Error>)
    ensures
        outcome is Ok,
{
    Ok(())
}

/// A step that always fails, with the message `xxx`.
fn e_c() -> (outcome: Result<(), failure::Error>)
    ensures
        outcome is Err,
{
    Err(message_error("xxx"))
}

/// The sample call graph: two steps that succeed, the step whose outcome is
/// `opened`, and steps that fail. It returns at the first failure, so it
/// hands back the error of `opened` if there is one, and otherwise fails
/// with an error of its own, whatever `my_arg` is.
pub fn my_function(my_arg: usize, opened: Result<(), failure::Error>) -> (outcome: Result<
    (),
    failure::Error,
>)
    ensures
        outcome is Err,
        opened is Err ==> outcome == opened,
{
    b()?;
    c()?;
    opened?;
    if my_arg == 0 {
        e_c()?;
    }
    e_c()?;
    Ok(())
}

} // verus!
