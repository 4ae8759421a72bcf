//! Chains of file-transforming operations: subprocesses and local calls whose
//! output files feed the next operation's input files.
pub mod env;
pub mod errors;
pub mod executable;
pub mod execution;
pub mod files;
pub mod generic;

pub use env::{EnvSpec, EnvStep, SubEnvSpec};
pub use errors::SubProcError;
pub use executable::{ArgsCall, ExeFileSpec, Executable};
pub use execution::{Executor, FileCall, OsRun, OsRunResult, present_entries};
pub use files::{ActualFile, FileArg, FileRef, FileTransformation, FilesPrep, TempFile, setup_file};
pub use generic::{OpInterface, execute_here};
pub mod subproc;
pub use subproc::SubProcOperation;
pub mod function;
pub use function::FunctionOperation;
pub mod chained;
pub use chained::{Activation, ChainedOpRef, ChainedOps};
