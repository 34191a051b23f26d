//! What running a program gives back.

use vstd::prelude::*;

verus! {

/// A program that ran and exited with success.
#[derive(Debug)]
pub struct SpawnResult {
    pub code: i32,
    pub stdout: String,
    pub stderr: String,
}

/// A program that could not start, or that exited with failure.
#[derive(Debug)]
pub struct SpawnError {
    pub code: Option<i32>,
    pub stdout: String,
    pub stderr: String,
    pub message: String,
}

/// The exit code that a run gives: the program's own, or 1 when it had none.
pub open spec fn spec_exit_code(outcome: Result<SpawnResult, SpawnError>) -> i32 {
    match outcome {
        Ok(res) => res.code,
        Err(e) => match e.code {
            Some(c) => c,
            None => 1,
        },
    }
}

/// The exit code that a run gives: the program's own, or 1 when it had none.
pub fn exit_code(outcome: &Result<SpawnResult, SpawnError>) -> (r: i32)
    ensures
        r == spec_exit_code(*outcome),
{
    match outcome {
        Ok(res) => res.code,
        Err(e) => match e.code {
            Some(c) => c,
            None => 1,
        },
    }
}

} // verus!
