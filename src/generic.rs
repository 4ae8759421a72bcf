//! What every kind of operation offers.
use vstd::prelude::*;
use crate::errors::SubProcError;
use crate::execution::{OsRun, OsRunResult};
use crate::files::ActualFile;

verus! {

/// An operation: a subprocess, a local call, or a chain of them.
pub trait OpInterface {
    /// The label, as the contracts see it.
    spec fn op_label(&self) -> Seq<char>;

    /// What a successful execution of this operation returns.
    spec fn yields(&self, out: &ActualFile) -> bool;

    /// What holds of the operation after a run that returned `r`, compared
    /// with the operation `before` the run.
    spec fn ran(&self, before: &Self, r: &Result<ActualFile, SubProcError>) -> bool;

    /// A short name for the operation, shown to users.
    fn label(&self) -> (r: String)
        ensures
            r@ == self.op_label(),
    ;

    /// Changes the label.
    fn set_label(&mut self, new_label: &str)
        ensures
            final(self).op_label() == new_label@,
    ;

    /// Executes the operation through the executor, from `cwd` (the current
    /// directory when none), and returns the output file(s) written, if any.
    fn execute<E: OsRun>(&mut self, executor: &E, cwd: &Option<String>) -> (r: Result<
        ActualFile,
        SubProcError,
    >)
        ensures
            r matches Ok(f) ==> old(self).yields(&f),
            final(self).ran(old(self), &r),
    ;
}

/// The result of an operation once the executor has run it: the output
/// file(s) when it went well, else the error that matches what went wrong.
pub fn run_outcome(
    tool: &String,
    args: Vec<String>,
    fromdir: Option<String>,
    res: OsRunResult,
    outfile: ActualFile,
) -> (r: Result<ActualFile, SubProcError>)
    ensures
        match res {
            OsRunResult::Good => r == Ok::<ActualFile, SubProcError>(outfile),
            OsRunResult::RunError(e) => r == Err::<ActualFile, SubProcError>(
                SubProcError::ErrorExecuting(*tool, args, e, fromdir),
            ),
            OsRunResult::ExecFailed(e) => r == Err::<ActualFile, SubProcError>(
                SubProcError::ErrorCmdSetup(*tool, args, e, fromdir),
            ),
            OsRunResult::ExecError(c, s) => r == Err::<ActualFile, SubProcError>(
                SubProcError::ErrorRunningCmd(*tool, args, c, fromdir, s),
            ),
            OsRunResult::BadDirectory(p, e) => r == Err::<ActualFile, SubProcError>(
                SubProcError::ErrorBadDirectory(*tool, p, e),
            ),
        },
{
    match res {
        OsRunResult::Good => Ok(outfile),
        OsRunResult::RunError(e) => Err(SubProcError::ErrorExecuting(tool.clone(), args, e, fromdir)),
        OsRunResult::ExecFailed(e) => Err(SubProcError::ErrorCmdSetup(tool.clone(), args, e, fromdir)),
        OsRunResult::ExecError(c, s) => Err(
            SubProcError::ErrorRunningCmd(tool.clone(), args, c, fromdir, s),
        ),
        OsRunResult::BadDirectory(p, e) => Err(SubProcError::ErrorBadDirectory(tool.clone(), p, e)),
    }
}

/// Executes the operation from the current directory.
pub fn execute_here<Op: OpInterface, E: OsRun>(op: &mut Op, executor: &E) -> (r: Result<
    ActualFile,
    SubProcError,
>)
    ensures
        r matches Ok(f) ==> old(op).yields(&f),
        final(op).ran(old(op), &r),
{
    op.execute(executor, &None)
}

} // verus!
