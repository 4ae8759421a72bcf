//! An operation performed by a local function instead of a subprocess.
use vstd::prelude::*;
use crate::errors::{SubProcError, run_error};
use crate::execution::{FileCall, OsRun};
use crate::files::{
    ActualFile,
    FileArg,
    FileTransformation,
    FilesPrep,
    flatten,
    inputs_listed,
    list_resolves,
    resolve_dir,
    resolves,
    setup_file,
};
use crate::generic::{OpInterface, run_outcome};

verus! {

/// A local function run as an operation.  It is given the directory the
/// operation would run from, the input files and the output file; the
/// process's own current directory is not changed.
pub struct FunctionOperation {
    name: String,
    call: std::rc::Rc<Box<dyn FileCall>>,
    files: FileTransformation,
}

impl Clone for FunctionOperation {
    fn clone(&self) -> (r: FunctionOperation)
        ensures
            r.same_except_files(self),
            r.files().same(&self.files()),
    {
        FunctionOperation { name: self.name.clone(), call: self.call.clone(), files: self.files.clone() }
    }
}

impl FunctionOperation {
    pub closed spec fn label_view(&self) -> Seq<char> {
        self.name@
    }

    /// An operation that calls `f`, labelled `n`, with no files yet.
    pub fn calling(n: &str, f: Box<dyn FileCall>) -> (r: FunctionOperation)
        ensures
            r.op_label() == n@,
            r.files().inp_filenames@.len() == 0,
            r.files().out_filename == FileArg::TBD,
            r.files().in_dir is None,
    {
        FunctionOperation {
            name: n.to_owned(),
            call: std::rc::Rc::new(f),
            files: FileTransformation::new(),
        }
    }

    /// Resolves the input files, in order, and the output file: a location is
    /// itself, a temporary file is created through the executor, a glob is
    /// searched through it, and a file still to be determined is no file.
    pub fn setup_files<E: OsRun>(&self, executor: &E) -> (r: Result<
        (ActualFile, ActualFile),
        SubProcError,
    >)
        ensures
            r matches Ok((inps, out)) ==> (exists|per: Seq<Seq<Seq<char>>>|
                #[trigger] inputs_listed(self.files().inp_filenames@, per, inps.paths()))
                && self.yields(&out),
            (forall|k: int|
                0 <= k < self.files().inp_filenames@.len() ==> (#[trigger] self.files().inp_filenames@[k] is Loc
                    || self.files().inp_filenames@[k] is TBD)) && (self.files().out_filename is Loc
                || self.files().out_filename is TBD) ==> r is Ok,
            r matches Err(e) ==> e is ErrorExecuting,
    {
        let inputs = &self.files.inp_filenames;
        let mut inpfiles = ActualFile::NoActualFile;
        let ghost mut per: Seq<Seq<Seq<char>>> = seq![];
        let mut i: usize = 0;
        while i < inputs.len()
            invariant
                i <= inputs.len(),
                inputs@ == self.files.inp_filenames@,
                per.len() == i,
                flatten(per) == inpfiles.paths(),
                forall|k: int| 0 <= k < i ==> list_resolves(#[trigger] inputs@[k], per[k]),
            decreases inputs.len() - i,
        {
            proof {
                if forall|k: int| 0 <= k < inputs@.len() ==> (#[trigger] inputs@[k] is Loc || inputs@[k] is TBD) {
                    assert(inputs@[i as int] is Loc || inputs@[i as int] is TBD);
                }
            }
            let df = match setup_file(executor, &inputs[i], true) {
                Ok(f) => f,
                Err(e) => return Err(e),
            };
            proof {
                let p2 = per.push(df.paths());
                assert(p2.drop_last() =~= per);
                per = p2;
            }
            inpfiles = inpfiles.extend(df);
            i = i + 1;
        }
        assert(inputs_listed(self.files().inp_filenames@, per, inpfiles.paths()));
        let outfile = match setup_file(executor, &self.files.out_filename, true) {
            Ok(f) => f,
            Err(e) => return Err(e),
        };
        Ok((inpfiles, outfile))
    }

    /// Calls the function through the executor from the resolved directory.
    fn run_with_files<E: OsRun>(
        &self,
        executor: &E,
        cwd: &Option<String>,
        inpfiles: ActualFile,
        outfile: ActualFile,
    ) -> (r: Result<ActualFile, SubProcError>)
        ensures
            r matches Ok(f) ==> f == outfile,
            r matches Err(e) ==> !(e is ErrorMissingFile) && run_error(e),
    {
        let fromdir = resolve_dir(cwd, &self.files.in_dir);
        let res = executor.run_function(
            self.name.as_str(),
            &self.call,
            &inpfiles,
            &outfile,
            &fromdir,
        );
        run_outcome(&self.name, Vec::new(), fromdir, res, outfile)
    }
}

impl FilesPrep for FunctionOperation {
    closed spec fn files(&self) -> FileTransformation {
        self.files
    }

    open spec fn same_except_files(&self, o: &Self) -> bool {
        self.label_view() == o.label_view()
    }

    fn set_dir(&mut self, tgtdir: &str) {
        self.files.set_dir(tgtdir);
    }

    fn set_input_file(&mut self, fname: &FileArg) {
        self.files.set_input_file(fname);
    }

    fn add_input_file(&mut self, fname: &FileArg) {
        self.files.add_input_file(fname);
    }

    fn has_input_file(&self) -> (r: bool) {
        self.files.has_input_file()
    }

    fn set_output_file(&mut self, fname: &FileArg) {
        self.files.set_output_file(fname);
    }

    fn has_explicit_output_file(&self) -> (r: bool) {
        self.files.has_explicit_output_file()
    }
}

impl OpInterface for FunctionOperation {
    open spec fn op_label(&self) -> Seq<char> {
        self.label_view()
    }

    /// The output is what the output specification resolves to; one still to
    /// be determined is no file.
    open spec fn yields(&self, out: &ActualFile) -> bool {
        if self.files().out_filename is TBD {
            *out is NoActualFile
        } else {
            resolves(self.files().out_filename, *out)
        }
    }

    /// A run leaves the operation as it was, and a file still to be
    /// determined is no file rather than a missing one.
    open spec fn ran(&self, before: &Self, r: &Result<ActualFile, SubProcError>) -> bool {
        &&& *self == *before
        &&& (*r matches Err(e) ==> run_error(e) && !(e is ErrorMissingFile))
    }

    fn label(&self) -> (r: String) {
        self.name.clone()
    }

    fn set_label(&mut self, new_label: &str) {
        self.name = new_label.to_owned();
    }

    fn execute<E: OsRun>(&mut self, executor: &E, cwd: &Option<String>) -> (r: Result<
        ActualFile,
        SubProcError,
    >) {
        let (inpfiles, outfile) = match self.setup_files(executor) {
            Ok(x) => x,
            Err(e) => return Err(e),
        };
        self.run_with_files(executor, cwd, inpfiles, outfile)
    }
}

} // verus!
