use vstd::prelude::*;
use std::time::Instant;
use crate::dto::{EmptyResponse, ErrorResponse, SimpleResponse};

verus! {

#[verifier::external_type_specification]
#[verifier::external_body]
pub struct ExInstant(Instant);

/// Reads the clock with `std::time::Instant::now`. Trusted; nothing is
/// claimed of the moment that comes back.
#[verifier::external_body]
pub(crate) fn clock_now() -> (now: Instant) {
    Instant::now()
}

/// The milliseconds that `std::time::Instant::elapsed` reports since `start`.
/// Trusted; nothing is claimed of the number that comes back.
#[verifier::external_body]
pub(crate) fn elapsed_millis(start: &Instant) -> (millis: u128) {
    start.elapsed().as_millis()
}

/// What is known of a command while it runs: when it began, its name, and a
/// description of its arguments where it has one.
pub struct CommandInfo {
    pub start: Instant,
    pub name: String,
    pub arg_info: Option<String>,
}

impl CommandInfo {
    /// A command named `name` that begins now.
    pub fn start(name: String) -> (info: Self)
        ensures
            info.name == name,
            info.arg_info.is_none(),
    {
        CommandInfo { start: clock_now(), name, arg_info: None }
    }

    /// A command named `name`, described by `arg_info`, that begins now.
    pub fn start_with_args(name: String, arg_info: String) -> (info: Self)
        ensures
            info.name == name,
            info.arg_info == Some(arg_info),
    {
        CommandInfo { start: clock_now(), name, arg_info: Some(arg_info) }
    }
}

/// The answer to a command that yields data: the data on success, the cause
/// as a message on failure.
pub fn respond<T>(outcome: Result<T, String>, info: CommandInfo) -> (response: Result<
    SimpleResponse<T>,
    ErrorResponse,
>)
    ensures
        match outcome {
            Ok(data) => response matches Ok(answer) && answer.data == data
                && answer.meta.describes(true, info),
            Err(msg) => response matches Err(failure) && failure.msg == msg
                && failure.meta.describes(false, info),
        },
{
    match outcome {
        Ok(data) => Ok(SimpleResponse::create(data, info)),
        Err(msg) => Err(ErrorResponse::create(msg, info)),
    }
}

/// The answer to a command that yields no data.
pub fn respond_empty(outcome: Result<(), String>, info: CommandInfo) -> (response: Result<
    EmptyResponse,
    ErrorResponse,
>)
    ensures
        match outcome {
            Ok(_) => response matches Ok(answer) && answer.meta.describes(true, info),
            Err(msg) => response matches Err(failure) && failure.msg == msg
                && failure.meta.describes(false, info),
        },
{
    match outcome {
        Ok(_) => Ok(EmptyResponse::create(info)),
        Err(msg) => Err(ErrorResponse::create(msg, info)),
    }
}

} // verus!
