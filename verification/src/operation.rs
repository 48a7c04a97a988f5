//! Operations of an action: what was done, when, and with what status.
//! Times are given by the caller: wall clock timestamps in milliseconds and
//! a monotonic clock in milliseconds.

use vstd::prelude::*;
use crate::process::{output_to_string, spec_output_text};

verus! {

/// The status of an action or operation.
#[derive(Clone, Copy, Debug, PartialEq, Eq, Structural)]
pub enum ActionStatus {
    Aborted,
    Cached,
    CachedFromRemote,
    Failed,
    FailedAndAbort,
    Invalid,
    Passed,
    Running,
    Skipped,
}

/// Output captured from a process.
#[derive(Clone, Debug, PartialEq, Eq)]
pub struct OperationMetaOutput {
    pub exit_code: Option<i32>,
    pub stderr: Option<String>,
    pub stdout: Option<String>,
}

impl OperationMetaOutput {
    pub fn new() -> (o: OperationMetaOutput)
        ensures
            o.exit_code is None && o.stderr is None && o.stdout is None,
    {
        OperationMetaOutput { exit_code: None, stderr: None, stdout: None }
    }

    pub fn set_stderr(&mut self, output: String)
        ensures
            final(self).stderr == Some(output),
            final(self).stdout == old(self).stdout,
            final(self).exit_code == old(self).exit_code,
    {
        self.stderr = Some(output);
    }

    pub fn set_stdout(&mut self, output: String)
        ensures
            final(self).stdout == Some(output),
            final(self).stderr == old(self).stderr,
            final(self).exit_code == old(self).exit_code,
    {
        self.stdout = Some(output);
    }
}

/// What an operation does.
#[derive(Clone, Debug, PartialEq, Eq)]
pub enum OperationMeta {
    ArchiveCreation,
    HashGeneration(Option<String>),
    MutexAcquisition,
    NoOperation,
    OutputHydration(OperationMetaOutput),
    TaskExecution(OperationMetaOutput),
}

/// An operation and its timing.
#[derive(Clone, Debug, PartialEq, Eq)]
pub struct Operation {
    /// How long it took, in milliseconds, once finished.
    pub duration: Option<u64>,
    /// When it finished (wall clock, milliseconds).
    pub finished_at: Option<i64>,
    pub meta: OperationMeta,
    /// When it started (wall clock, milliseconds).
    pub started_at: i64,
    /// The monotonic clock when it started, for the duration.
    pub start_time: Option<u64>,
    pub status: ActionStatus,
}

/// The captured output of an operation that has one.
pub open spec fn spec_output(meta: OperationMeta) -> Option<OperationMetaOutput> {
    match meta {
        OperationMeta::OutputHydration(o) => Some(o),
        OperationMeta::TaskExecution(o) => Some(o),
        _ => None,
    }
}

/// A failed status.
pub open spec fn spec_has_failed(s: ActionStatus) -> bool {
    s == ActionStatus::Failed || s == ActionStatus::FailedAndAbort
}

/// A passed status, counting cache hits.
pub open spec fn spec_has_passed(s: ActionStatus) -> bool {
    s == ActionStatus::Cached || s == ActionStatus::CachedFromRemote || s == ActionStatus::Passed
}

/// A status of a cache hit.
pub open spec fn spec_is_cached(s: ActionStatus) -> bool {
    s == ActionStatus::Cached || s == ActionStatus::CachedFromRemote
}

pub open spec fn non_empty(o: Option<String>) -> bool {
    o matches Some(s) && s@.len() > 0
}

/// Text decoded from process output, empty when it is not UTF-8.
pub open spec fn decoded_text(bytes: Seq<u8>) -> Seq<char> {
    spec_output_text(bytes)
}

pub open spec fn text_of(o: Option<String>) -> Option<Seq<char>> {
    match o {
        Some(s) => Some(s@),
        None => None,
    }
}

/// The output holds an exit code and the decoded streams.
pub open spec fn recorded(o: OperationMetaOutput, exit_code: Option<i32>, stderr: Seq<u8>, stdout: Seq<u8>) -> bool {
    &&& o.exit_code == exit_code
    &&& text_of(o.stderr) == Some(decoded_text(stderr))
    &&& text_of(o.stdout) == Some(decoded_text(stdout))
}

/// The time elapsed on the monotonic clock (zero if it went back).
pub open spec fn spec_elapsed(start: u64, now: u64) -> u64 {
    if now >= start {
        (now - start) as u64
    } else {
        0
    }
}

impl Operation {
    /// A running operation started now.
    pub fn new(meta: OperationMeta, now: i64, clock: u64) -> (o: Operation)
        ensures
            o.meta == meta,
            o.status == ActionStatus::Running,
            o.started_at == now,
            o.start_time == Some(clock),
            o.duration is None,
            o.finished_at is None,
    {
        Operation { duration: None, finished_at: None, meta, started_at: now, start_time: Some(clock), status: ActionStatus::Running }
    }

    /// An operation that starts and finishes now with a status.
    pub fn new_finished(meta: OperationMeta, status: ActionStatus, now: i64) -> (o: Operation)
        ensures
            o.meta == meta,
            o.status == status,
            o.started_at == now,
            o.finished_at == Some(now),
            o.start_time is None,
            o.duration is None,
    {
        Operation { duration: None, finished_at: Some(now), meta, started_at: now, start_time: None, status }
    }

    /// The captured output, for hydration and task execution.
    pub fn get_output(&self) -> (r: Option<&OperationMetaOutput>)
        ensures
            match r {
                Some(o) => spec_output(self.meta) == Some(*o),
                None => spec_output(self.meta) is None,
            },
    {
        match &self.meta {
            OperationMeta::OutputHydration(output) => Some(output),
            OperationMeta::TaskExecution(output) => Some(output),
            _ => None,
        }
    }

    /// Finishes the operation with a status, now.
    pub fn finish(&mut self, status: ActionStatus, now: i64, clock: u64)
        ensures
            final(self).status == status,
            final(self).finished_at == Some(now),
            final(self).duration == match old(self).start_time {
                Some(start) => Some(spec_elapsed(start, clock)),
                None => old(self).duration,
            },
            final(self).meta == old(self).meta,
            final(self).started_at == old(self).started_at,
            final(self).start_time == old(self).start_time,
    {
        self.finished_at = Some(now);
        self.status = status;
        if let Some(start) = self.start_time {
            let elapsed: u64 = if clock >= start {
                clock - start
            } else {
                0
            };
            self.duration = Some(elapsed);
        }
    }

    /// Finishes the operation from a process that exited with `exit_code`
    /// (`success` when it exited with success); its output is recorded
    /// when the operation captures output.
    pub fn finish_from_output(&mut self, exit_code: Option<i32>, success: bool, stderr: &Vec<u8>, stdout: &Vec<u8>, now: i64, clock: u64)
        ensures
            final(self).status == (if success {
                ActionStatus::Passed
            } else {
                ActionStatus::Failed
            }),
            final(self).finished_at == Some(now),
            spec_output(old(self).meta) is None ==> final(self).meta == old(self).meta,
            spec_output(old(self).meta) is Some ==> (spec_output(final(self).meta) is Some
                && recorded(spec_output(final(self).meta)->0, exit_code, stderr@, stdout@)),
    {
        let err_text = output_to_string(stderr.as_slice());
        let out_text = output_to_string(stdout.as_slice());
        match &mut self.meta {
            OperationMeta::OutputHydration(output) => {
                output.exit_code = exit_code;
                output.set_stderr(err_text);
                output.set_stdout(out_text);
            },
            OperationMeta::TaskExecution(output) => {
                output.exit_code = exit_code;
                output.set_stderr(err_text);
                output.set_stdout(out_text);
            },
            _ => {},
        }
        self.finish(
            if success {
                ActionStatus::Passed
            } else {
                ActionStatus::Failed
            },
            now,
            clock,
        );
    }

    pub fn has_failed(&self) -> (r: bool)
        ensures
            r == spec_has_failed(self.status),
    {
        match self.status {
            ActionStatus::Failed | ActionStatus::FailedAndAbort => true,
            _ => false,
        }
    }

    pub fn has_passed(&self) -> (r: bool)
        ensures
            r == spec_has_passed(self.status),
    {
        match self.status {
            ActionStatus::Cached | ActionStatus::CachedFromRemote | ActionStatus::Passed => true,
            _ => false,
        }
    }

    /// Whether the operation captured some output on either stream.
    pub fn has_output(&self) -> (r: bool)
        ensures
            r == (spec_output(self.meta) matches Some(o) && (non_empty(o.stderr) || non_empty(o.stdout))),
    {
        match self.get_output() {
            Some(output) => {
                let err = match &output.stderr {
                    Some(e) => e.unicode_len() > 0,
                    None => false,
                };
                let out = match &output.stdout {
                    Some(o) => o.unicode_len() > 0,
                    None => false,
                };
                err || out
            },
            None => false,
        }
    }

    pub fn is_cached(&self) -> (r: bool)
        ensures
            r == spec_is_cached(self.status),
    {
        match self.status {
            ActionStatus::Cached | ActionStatus::CachedFromRemote => true,
            _ => false,
        }
    }

    /// Finishes the operation from the outcome of its work: `Ok(check)`
    /// passes when `check` holds and is skipped otherwise; an error fails
    /// it and is handed back.
    pub fn handle_track<E>(self, outcome: Result<bool, E>, now: i64, clock: u64) -> (r: Result<Operation, E>)
        ensures
            match outcome {
                Ok(check) => r matches Ok(op) && op.status == (if check {
                    ActionStatus::Passed
                } else {
                    ActionStatus::Skipped
                }) && op.meta == self.meta && op.finished_at == Some(now),
                Err(e) => r matches Err(e2) && e2 == e,
            },
    {
        let mut op = self;
        match outcome {
            Ok(check) => {
                op.finish(
                    if check {
                        ActionStatus::Passed
                    } else {
                        ActionStatus::Skipped
                    },
                    now,
                    clock,
                );
                Ok(op)
            },
            Err(error) => {
                op.finish(ActionStatus::Failed, now, clock);
                Err(error)
            },
        }
    }
}

} // verus!
