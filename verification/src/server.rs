use crate::calculator::answer;
use crate::calculator::value_after;
use crate::calculator::Calculator;
use crate::errors::CalculatorErrors;
use crate::errors::ErrorKind;
use crate::operation::request_of;
use crate::operation::Operation;
use crate::response::reply_to;
use crate::response::Reply;
use crate::response::Response;
use std::str::FromStr;
use vstd::prelude::*;

verus! {

/// What a connection handed to its handler.
#[derive(Debug, PartialEq, Eq)]
pub enum Input {
    /// A line, without its newline.
    Line(String),
    /// The read failed.
    Unreadable,
    /// The client closed the stream.
    End,
}

/// What the handler of a connection does next.
#[derive(Debug, PartialEq, Eq)]
pub enum Action {
    /// Take the lock on the shared calculator and apply the operation.
    Apply(Operation),
    /// Send the response, then await the next line.
    Send(Response),
    /// Report the error locally, then await the next line.
    Report(CalculatorErrors),
    /// Stop handling the connection.
    Close,
}

/// The mathematical value of an [`Action`].
pub ghost enum Decision {
    Apply(Operation),
    Send(Reply),
    Report(ErrorKind),
    Close,
}

impl View for Action {
    type V = Decision;

    open spec fn view(&self) -> Decision {
        match self {
            Action::Apply(op) => Decision::Apply(*op),
            Action::Send(response) => Decision::Send(response@),
            Action::Report(e) => Decision::Report(e@),
            Action::Close => Decision::Close,
        }
    }
}

/// The reply to a request that reached the lock: the calculator's answer
/// where the lock was taken and the calculator held `value`, a lock failure
/// where it was not.
pub open spec fn reply_under_lock(op: Operation, held: Option<u8>) -> Reply {
    match held {
        Some(value) => reply_to(answer(value, op)),
        None => Reply::Error(ErrorKind::LockFailure),
    }
}

/// Decides what follows an input: a line that parses is applied under the
/// lock; one that does not is answered with its error at once; a failed read
/// is reported and skipped; the end of the stream closes the connection.
pub fn handle_input(input: &Input) -> (action: Action)
    ensures
        action@ == match *input {
            Input::Line(line) => match request_of(line@) {
                Ok(op) => Decision::Apply(op),
                Err(e) => Decision::Send(Reply::Error(e)),
            },
            Input::Unreadable => Decision::Report(ErrorKind::ReadLineFailure),
            Input::End => Decision::Close,
        },
{
    match input {
        Input::Line(line) => match Operation::from_str(line.as_str()) {
            Ok(op) => Action::Apply(op),
            Err(e) => Action::Send(Response::Error(e)),
        },
        Input::Unreadable => Action::Report(CalculatorErrors::ReadLineFailure),
        Input::End => Action::Close,
    }
}

/// Answers a request once the lock was asked for: with the calculator in
/// hand the operation is applied and its answer reported; without it
/// nothing is applied and a lock failure is reported.
pub fn handle_locked(op: Operation, lock: Option<&mut Calculator>) -> (response: Response)
    ensures
        match lock {
            Some(calculator) => {
                &&& response@ == reply_under_lock(op, Some(calculator@))
                &&& final(calculator)@ == value_after(calculator@, op)
            },
            None => response@ == reply_under_lock(op, None),
        },
{
    match lock {
        Some(calculator) => Response::from_answer(calculator.apply(op)),
        None => Response::Error(CalculatorErrors::LockFailure),
    }
}

/// Serves one request line on a calculator held exclusively: a line that
/// parses is applied, and the calculator's answer returned; one that does
/// not is rejected with its error, and the calculator is left as it was.
pub fn handle_op(line: &str, calculator: &mut Calculator) -> (result: Result<
    Option<u8>,
    CalculatorErrors,
>)
    ensures
        match request_of(line@) {
            Ok(op) => {
                &&& result == answer(old(calculator)@, op)
                &&& final(calculator)@ == value_after(old(calculator)@, op)
            },
            Err(e) => {
                &&& result matches Err(x) && x@ == e
                &&& final(calculator)@ == old(calculator)@
            },
        },
{
    match Operation::from_str(line) {
        Ok(op) => calculator.apply(op),
        Err(e) => Err(e),
    }
}

} // verus!
