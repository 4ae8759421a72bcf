//! The boundary through which operations cause effects: running commands and
//! local calls, searching for files and creating temporary files.
use vstd::prelude::*;
use crate::env::EnvSpec;
use crate::files::{ActualFile, TempFile, ends_with};

verus! {

/// The outcome of running a command or a local call.  Operating-system
/// errors are carried as their text.
#[derive(Debug, PartialEq)]
pub enum OsRunResult {
    Good,
    /// The command could not be started.
    ExecFailed(String),
    /// The command exited unsuccessfully: its exit code, if any, and what it
    /// wrote to its error stream.
    ExecError(Option<i32>, String),
    /// The local call failed.
    RunError(String),
    /// The directory to run in is not usable.
    BadDirectory(String, String),
}

/// A local computation performed as an operation: it is given the directory
/// to work from, the input files and the output file.
pub trait FileCall {
    fn call(&self, dir: &String, inpfiles: &ActualFile, outfile: &ActualFile) -> Result<(), String>;
}

/// Performs the effects that operations ask for.  [Executor] is the built-in
/// choice; an implementation of its own can record, simulate or redirect
/// them.
pub trait OsRun {
    /// Runs the executable with the arguments and environment, from the
    /// directory (the current one when none).
    fn run_executable(
        &self,
        label: &str,
        exe_file: &str,
        args: &Vec<String>,
        exe_env: &EnvSpec,
        fromdir: &Option<String>,
    ) -> OsRunResult;

    /// Calls the local function with the files, from the directory.
    fn run_function(
        &self,
        name: &str,
        call: &std::rc::Rc<Box<dyn FileCall>>,
        inpfiles: &ActualFile,
        outfile: &ActualFile,
        fromdir: &Option<String>,
    ) -> OsRunResult;

    /// The paths of the files that match the glob pattern.
    fn glob_search(&self, globpat: &String) -> Result<Vec<String>, String>;

    /// Creates a temporary file with the suffix.
    fn mk_tempfile(&self, suffix: &String) -> Result<TempFile, String>;
}

/// The built-in executor's modes: run silently, echo each command, print
/// each label, or only echo (a dry run, which creates temporary files but
/// runs nothing and finds no glob matches).
#[derive(Clone, Copy, Debug, PartialEq, Eq, Structural)]
pub enum Executor {
    NormalRun,
    NormalWithEcho,
    NormalWithLabel,
    DryRun,
}

/// Relies on glob::glob: each path that matches the pattern, or None where an
/// entry could not be read; Err when the pattern is invalid.
#[verifier::external_body]
fn glob_entries(pattern: &str) -> (r: Result<Vec<Option<String>>, String>) {
    match glob::glob(pattern) {
        Ok(paths) => Ok(paths.map(|e| e.ok().map(|p| p.to_string_lossy().into_owned())).collect()),
        Err(e) => Err(e.to_string()),
    }
}

/// The entries that are present, in order.
pub open spec fn present(v: Seq<Option<String>>) -> Seq<String>
    decreases v.len(),
{
    if v.len() == 0 {
        seq![]
    } else {
        match v.last() {
            Some(p) => present(v.drop_last()).push(p),
            None => present(v.drop_last()),
        }
    }
}

/// The paths of the entries that could be read, in order.
pub fn present_entries(entries: &Vec<Option<String>>) -> (r: Vec<String>)
    ensures
        r@ == present(entries@),
{
    let mut found: Vec<String> = Vec::new();
    let mut i: usize = 0;
    while i < entries.len()
        invariant
            i <= entries.len(),
            found@ == present(entries@.subrange(0, i as int)),
        decreases entries.len() - i,
    {
        proof {
            assert(entries@.subrange(0, i + 1 as int).drop_last() =~= entries@.subrange(0, i as int));
        }
        match &entries[i] {
            Some(p) => found.push(p.clone()),
            None => {},
        }
        i = i + 1;
    }
    assert(entries@.subrange(0, i as int) =~= entries@);
    found
}

impl Executor {
    /// Whether commands and calls are actually performed.
    pub fn performs(&self) -> (r: bool)
        ensures
            r == !(*self is DryRun),
    {
        !matches!(self, Executor::DryRun)
    }

    /// Whether each command is echoed before it is run.
    pub fn echoes_commands(&self) -> (r: bool)
        ensures
            r == (*self is NormalWithEcho || *self is DryRun),
    {
        matches!(self, Executor::NormalWithEcho | Executor::DryRun)
    }

    /// Whether each operation's label is printed before it is run.
    pub fn echoes_labels(&self) -> (r: bool)
        ensures
            r == (*self is NormalWithLabel),
    {
        matches!(self, Executor::NormalWithLabel)
    }

    /// The readable paths that match the pattern (see [present_entries]);
    /// none in a dry run.
    pub fn glob_search(&self, globpat: &String) -> (r: Result<Vec<String>, String>)
        ensures
            *self is DryRun ==> (r matches Ok(v) && v@.len() == 0),
    {
        match self {
            Executor::DryRun => Ok(Vec::new()),
            _ => match glob_entries(globpat.as_str()) {
                Ok(entries) => Ok(present_entries(&entries)),
                Err(e) => Err(e),
            },
        }
    }

    /// Creates a temporary file with the suffix, in every mode.
    pub fn mk_tempfile(&self, suffix: &String) -> (r: Result<TempFile, String>)
        ensures
            r matches Ok(t) ==> ends_with(t@, suffix@),
    {
        TempFile::create(suffix)
    }
}

} // verus!
