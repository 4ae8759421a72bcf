//! An operation that runs an executable as a subprocess.
use vstd::prelude::*;
use vstd::string::*;
use crate::env::{EnvSpec, add_model, append_model, prepend_model, rebuild, rmv_model};
use crate::errors::{SubProcError, run_error};
use crate::executable::{
    ExeFileSpec,
    Executable,
    comma_joined,
    copy_strings,
    file_args,
    get_base_args,
    get_inpfile,
    get_outfile,
    join_commas,
    same_spec,
};
use crate::execution::OsRun;
use crate::files::{
    ActualFile,
    FileArg,
    FileTransformation,
    FilesPrep,
    flatten,
    list_resolves,
    resolve_dir,
    resolves,
    setup_file,
    texts,
};
use crate::generic::{OpInterface, run_outcome};

verus! {

/// The arguments that the input files contribute, each input specification
/// in turn.
pub open spec fn inputs_args(spec: ExeFileSpec, per: Seq<Seq<Seq<char>>>) -> Seq<Seq<char>>
    decreases per.len(),
{
    if per.len() == 0 {
        seq![]
    } else {
        inputs_args(spec, per.drop_last()) + file_args(spec, per.last())
    }
}

/// Whether the output file is placed on the command line before the input
/// files: only for an output option with appended inputs.
pub open spec fn output_first(inp: ExeFileSpec, out: ExeFileSpec) -> bool {
    out is Option && inp is Append
}

/// The file arguments of a command, in the order they are emitted.
pub open spec fn file_contribution(
    inp: ExeFileSpec,
    out: ExeFileSpec,
    per: Seq<Seq<Seq<char>>>,
    outpaths: Seq<Seq<char>>,
) -> Seq<Seq<char>> {
    if output_first(inp, out) {
        file_args(out, outpaths) + inputs_args(inp, per)
    } else {
        inputs_args(inp, per) + file_args(out, outpaths)
    }
}

/// The input lists stand for the input specifications, in order, and hold
/// the given paths; when the files are used, a location stands for itself.
pub open spec fn inputs_resolved(
    inputs: Seq<FileArg>,
    inspec: ExeFileSpec,
    per: Seq<Seq<Seq<char>>>,
    inpaths: Seq<Seq<char>>,
) -> bool {
    &&& per.len() == inputs.len()
    &&& flatten(per) == inpaths
    &&& !(inspec is NoFileUsed) ==> forall|k: int|
        0 <= k < inputs.len() ==> list_resolves(#[trigger] inputs[k], per[k])
}

/// Every file the executable uses is a location or still to be determined.
pub open spec fn used_files_known(op: SubProcOperation) -> bool {
    &&& !(op.exe().inp_spec() is NoFileUsed) ==> forall|k: int|
        0 <= k < op.files().inp_filenames@.len() ==> (#[trigger] op.files().inp_filenames@[k] is Loc
            || op.files().inp_filenames@[k] is TBD)
    &&& !(op.exe().out_spec() is NoFileUsed) ==> (op.files().out_filename is Loc
        || op.files().out_filename is TBD)
}

/// A command to run as a subprocess: the executable, its arguments, its
/// environment and its files.
pub struct SubProcOperation {
    name: String,
    executable: Executable,
    args: Vec<String>,
    env: EnvSpec,
    files: FileTransformation,
}

impl Clone for SubProcOperation {
    fn clone(&self) -> (r: SubProcOperation)
        ensures
            r.same_except_files(self),
            r.files().same(&self.files()),
    {
        SubProcOperation {
            name: self.name.clone(),
            executable: self.executable.clone(),
            args: copy_strings(&self.args),
            env: self.env.clone(),
            files: self.files.clone(),
        }
    }
}

impl SubProcOperation {
    pub closed spec fn label_view(&self) -> Seq<char> {
        self.name@
    }

    pub closed spec fn exe(&self) -> Executable {
        self.executable
    }

    pub closed spec fn arg_list(&self) -> Seq<Seq<char>> {
        self.args@.map_values(|s: String| s@)
    }

    pub closed spec fn env_view(&self) -> EnvSpec {
        self.env
    }

    /// A command that runs the template's executable with its fixed
    /// arguments, in the inherited environment, with no files yet.
    pub fn new(executing: &Executable) -> (r: SubProcOperation)
        ensures
            r.op_label() == executing.exe_view(),
            r.exe().exe_view() == executing.exe_view(),
            r.exe().base_args_view() == executing.base_args_view(),
            !(executing.inp_spec() is ViaCall) ==> r.exe().inp_spec() == executing.inp_spec(),
            !(executing.out_spec() is ViaCall) ==> r.exe().out_spec() == executing.out_spec(),
            r.arg_list() == executing.base_args_view(),
            r.env_view() == EnvSpec::StdEnv,
            r.files().inp_filenames@.len() == 0,
            r.files().out_filename == FileArg::TBD,
            r.files().in_dir is None,
    {
        SubProcOperation {
            name: executing.exe_path().clone(),
            executable: executing.clone(),
            args: copy_strings(get_base_args(executing)),
            env: EnvSpec::StdEnv,
            files: FileTransformation::new(),
        }
    }

    /// Runs another executable; the label becomes its name.
    pub fn set_executable(&mut self, exe: &str)
        ensures
            final(self).exe().exe_view() == exe@,
            final(self).exe().base_args_view() == old(self).exe().base_args_view(),
            same_spec(old(self).exe().inp_spec(), final(self).exe().inp_spec()),
            same_spec(old(self).exe().out_spec(), final(self).exe().out_spec()),
            final(self).op_label() == exe@,
            final(self).arg_list() == old(self).arg_list(),
            final(self).env_view() == old(self).env_view(),
            final(self).files() == old(self).files(),
    {
        self.executable = self.executable.set_exe(exe);
        self.name = exe.to_owned();
    }

    /// Starts from an empty environment, discarding earlier settings.
    pub fn clear_env(&mut self)
        ensures
            final(self).env_view() == EnvSpec::BlankEnv,
            final(self).arg_list() == old(self).arg_list(),
            final(self).files() == old(self).files(),
    {
        self.env = EnvSpec::BlankEnv;
    }

    /// The environment settings.
    pub(crate) fn get_full_env(&self) -> (r: EnvSpec)
        ensures
            r == self.env_view(),
    {
        self.env.clone()
    }

    /// Replaces the environment settings.
    pub(crate) fn set_full_env(&mut self, new_env: &EnvSpec)
        ensures
            final(self).env_view() == *new_env,
            final(self).arg_list() == old(self).arg_list(),
            final(self).files() == old(self).files(),
    {
        self.env = new_env.clone();
    }

    /// Rebuilds the environment settings over `base_env`.
    pub(crate) fn set_base_env(&mut self, base_env: &EnvSpec)
        ensures
            final(self).env_view()@ == rebuild(old(self).env_view()@.muts, base_env@),
            final(self).arg_list() == old(self).arg_list(),
            final(self).files() == old(self).files(),
    {
        self.env = self.env.set_base(base_env);
    }

    /// Sets the variable for the command, replacing earlier settings of it.
    pub fn set_env(&mut self, var_name: &str, var_value: &str)
        ensures
            final(self).env_view()@ == add_model(old(self).env_view()@, var_name@, var_value@),
            final(self).arg_list() == old(self).arg_list(),
            final(self).files() == old(self).files(),
    {
        self.env = self.env.add(var_name, var_value);
    }

    /// Prepends the value and the separator to the variable.
    pub fn prepend_env(&mut self, var: &str, value: &str, sep: &str)
        ensures
            final(self).env_view()@ == prepend_model(old(self).env_view()@, var@, value@, sep@),
            final(self).arg_list() == old(self).arg_list(),
            final(self).files() == old(self).files(),
    {
        self.env = self.env.prepend(var, value, sep);
    }

    /// Appends the separator and the value to the variable.
    pub fn append_env(&mut self, var: &str, value: &str, sep: &str)
        ensures
            final(self).env_view()@ == append_model(old(self).env_view()@, var@, value@, sep@),
            final(self).arg_list() == old(self).arg_list(),
            final(self).files() == old(self).files(),
    {
        self.env = self.env.append(var, value, sep);
    }

    /// Removes the variable from the command's environment.
    pub fn unset_env(&mut self, var_name: &str)
        ensures
            final(self).env_view()@ == rmv_model(old(self).env_view()@, var_name@),
            final(self).arg_list() == old(self).arg_list(),
            final(self).files() == old(self).files(),
    {
        self.env = self.env.rmv(var_name);
    }

    /// Adds an argument after the arguments so far.
    pub fn push_arg(&mut self, arg: &str)
        ensures
            final(self).arg_list() == old(self).arg_list().push(arg@),
            final(self).exe() == old(self).exe(),
            final(self).env_view() == old(self).env_view(),
            final(self).files() == old(self).files(),
            final(self).op_label() == old(self).op_label(),
    {
        let ghost a0 = self.args@;
        self.args.push(arg.to_owned());
        assert(self.args@.map_values(|s: String| s@) =~= a0.map_values(|s: String| s@).push(arg@));
    }

    /// Whether the output file goes on the command line before the inputs.
    fn emit_output_file_first(&self) -> (r: bool)
        ensures
            r == output_first(self.executable.inp_spec(), self.executable.out_spec()),
    {
        match get_outfile(&self.executable) {
            ExeFileSpec::Option(_) => match get_inpfile(&self.executable) {
                ExeFileSpec::Append => true,
                _ => false,
            },
            _ => false,
        }
    }

    /// Resolves one file specification and adds it to the arguments as
    /// `spec` says.
    fn setup_exe_file<E: OsRun>(
        &self,
        executor: &E,
        args: &mut Vec<String>,
        cwd: &Option<String>,
        spec: &ExeFileSpec,
        candidate: &FileArg,
    ) -> (r: Result<ActualFile, SubProcError>)
        ensures
            *spec is NoFileUsed ==> (r matches Ok(f) && f is NoActualFile && final(args)@ == old(
                args,
            )@),
            !(*spec is NoFileUsed) && *candidate is TBD ==> r == Err::<ActualFile, SubProcError>(
                SubProcError::ErrorMissingFile,
            ),
            !(*spec is NoFileUsed) && !(*spec is ViaCall) && *candidate is Loc ==> r is Ok,
            !(*spec is NoFileUsed) ==> (r matches Ok(f) ==> resolves(*candidate, f)),
            !(*spec is ViaCall) ==> (r matches Ok(f) ==> texts(final(args)@) == texts(old(args)@)
                + file_args(*spec, f.paths())),
            r matches Err(e) ==> (e is ErrorMissingFile || e is ErrorExecuting),
    {
        match spec {
            ExeFileSpec::NoFileUsed => Ok(ActualFile::NoActualFile),
            ExeFileSpec::Append => {
                let sf = match setup_file(executor, candidate, false) {
                    Ok(f) => f,
                    Err(e) => return Err(e),
                };
                let pths = match sf.to_paths(&None) {
                    Ok(p) => p,
                    Err(e) => return Err(e),
                };
                assert(texts(pths@) =~= sf.paths());
                let ghost a0 = texts(args@);
                let mut i: usize = 0;
                while i < pths.len()
                    invariant
                        i <= pths.len(),
                        texts(args@) == a0 + texts(pths@.subrange(0, i as int)),
                    decreases pths.len() - i,
                {
                    let ghost before = args@;
                    args.push(pths[i].clone());
                    proof {
                        assert(texts(args@) =~= texts(before).push(pths@[i as int]@));
                        assert(texts(pths@.subrange(0, i + 1 as int)) =~= texts(
                            pths@.subrange(0, i as int),
                        ).push(pths@[i as int]@));
                    }
                    i = i + 1;
                }
                assert(pths@.subrange(0, i as int) =~= pths@);
                Ok(sf)
            },
            ExeFileSpec::Option(optflag) => {
                let sf = match setup_file(executor, candidate, false) {
                    Ok(f) => f,
                    Err(e) => return Err(e),
                };
                let pths = match sf.to_paths(&None) {
                    Ok(p) => p,
                    Err(e) => return Err(e),
                };
                assert(texts(pths@) =~= sf.paths());
                let fnames = join_commas(&pths);
                let ghost a0 = texts(args@);
                let n = optflag.as_str().unicode_len();
                if n > 0 && optflag.as_str().get_char(n - 1) == '=' {
                    args.push(optflag.clone().concat(fnames.as_str()));
                    assert(texts(args@) =~= a0 + seq![optflag@ + comma_joined(sf.paths())]);
                } else {
                    args.push(optflag.clone());
                    args.push(fnames);
                    assert(texts(args@) =~= a0 + seq![optflag@, comma_joined(sf.paths())]);
                }
                Ok(sf)
            },
            ExeFileSpec::ViaCall(userfun) => {
                let sf = match setup_file(executor, candidate, false) {
                    Ok(f) => f,
                    Err(e) => return Err(e),
                };
                match userfun.add_file_args(args, cwd, &sf) {
                    Ok(()) => Ok(sf),
                    Err(e) => Err(
                        SubProcError::ErrorExecuting(
                            self.executable.exe_path().clone(),
                            copy_strings(args),
                            e,
                            match cwd {
                                Some(d) => Some(d.clone()),
                                None => None,
                            },
                        ),
                    ),
                }
            },
        }
    }

    /// Resolves the input files, in order, then adds their contribution to the arguments.
    fn setup_inputs<E: OsRun>(
        &self,
        executor: &E,
        args: &mut Vec<String>,
        cwd: &Option<String>,
        inspec: &ExeFileSpec,
    ) -> (r: Result<(ActualFile, Ghost<Seq<Seq<Seq<char>>>>), SubProcError>)
        ensures
            r matches Ok((f, per)) ==> inputs_resolved(
                self.files.inp_filenames@,
                *inspec,
                per@,
                f.paths(),
            ),
            !(*inspec is ViaCall) ==> (r matches Ok((f, per)) ==> texts(final(args)@) == texts(
                old(args)@,
            ) + inputs_args(*inspec, per@)),
            !(*inspec is ViaCall) && (!(*inspec is NoFileUsed) ==> forall|k: int|
                0 <= k < self.files.inp_filenames@.len()
                    ==> #[trigger] self.files.inp_filenames@[k] is Loc) ==> r is Ok,
            !(*inspec is NoFileUsed) && r is Ok ==> forall|k: int|
                0 <= k < self.files.inp_filenames@.len() ==> !(#[trigger] self.files.inp_filenames@[k] is TBD),
            !(*inspec is ViaCall) && (forall|k: int|
                0 <= k < self.files.inp_filenames@.len() ==> (#[trigger] self.files.inp_filenames@[k] is Loc
                    || self.files.inp_filenames@[k] is TBD)) ==> (r matches Err(e) ==> e is ErrorMissingFile),
            r matches Err(e) ==> (e is ErrorMissingFile || e is ErrorExecuting),
    {
        let inputs = &self.files.inp_filenames;
        let mut inpfiles = ActualFile::NoActualFile;
        let ghost mut per: Seq<Seq<Seq<char>>> = seq![];
        let ghost a0 = texts(args@);
        let mut i: usize = 0;
        while i < inputs.len()
            invariant
                i <= inputs.len(),
                inputs@ == self.files.inp_filenames@,
                per.len() == i,
                flatten(per) == inpfiles.paths(),
                !(*inspec is NoFileUsed) ==> forall|k: int|
                    0 <= k < i ==> list_resolves(#[trigger] inputs@[k], per[k]),
                !(*inspec is NoFileUsed) ==> forall|k: int| 0 <= k < i ==> !(#[trigger] inputs@[k] is TBD),
                !(*inspec is ViaCall) ==> texts(args@) == a0 + inputs_args(*inspec, per),
            decreases inputs.len() - i,
        {
            proof {
                if !(*inspec is NoFileUsed) && (forall|k: int|
                    0 <= k < self.files.inp_filenames@.len()
                        ==> #[trigger] self.files.inp_filenames@[k] is Loc) {
                    assert(inputs@[i as int] is Loc);
                }
            }
            let df = match self.setup_exe_file(executor, args, cwd, inspec, &inputs[i]) {
                Ok(f) => f,
                Err(e) => return Err(e),
            };
            let ghost dp = df.paths();
            proof {
                let p2 = per.push(dp);
                assert(p2.drop_last() =~= per);
                if *inspec is NoFileUsed {
                    assert(file_args(*inspec, dp) =~= seq![]);
                }
                assert(inputs_args(*inspec, p2) == inputs_args(*inspec, per) + file_args(*inspec, dp));
                per = p2;
            }
            inpfiles = inpfiles.extend(df);
            i = i + 1;
        }
        Ok((inpfiles, Ghost(per)))
    }

    /// Resolves the input and output files and adds them to the arguments:
    /// the output first for an output option with appended inputs, else the
    /// inputs first.
    fn cmd_file_setup<E: OsRun>(
        &self,
        executor: &E,
        args: &mut Vec<String>,
        cwd: &Option<String>,
    ) -> (r: Result<(ActualFile, ActualFile), SubProcError>)
        ensures
            self.plain_specs() ==> (r matches Ok((inps, out)) ==> exists|per: Seq<Seq<Seq<char>>>|
                #[trigger] inputs_resolved(
                    self.files.inp_filenames@,
                    self.executable.inp_spec(),
                    per,
                    inps.paths(),
                ) && texts(final(args)@) == texts(old(args)@) + file_contribution(
                    self.executable.inp_spec(),
                    self.executable.out_spec(),
                    per,
                    out.paths(),
                )),
            r matches Ok((inps, out)) ==> self.yields(&out),
            self.plain_specs() && self.files_given() ==> r is Ok,
            self.plain_specs() && used_files_known(*self) && !self.files_given() ==> r matches Err(
                SubProcError::ErrorMissingFile,
            ),
            r matches Err(e) ==> (e is ErrorMissingFile || e is ErrorExecuting),
    {
        let inspec = get_inpfile(&self.executable);
        let outspec = get_outfile(&self.executable);
        let ghost a0 = texts(args@);
        if self.emit_output_file_first() {
            let outfile = match self.setup_exe_file(
                executor,
                args,
                cwd,
                &outspec,
                &self.files.out_filename,
            ) {
                Ok(f) => f,
                Err(e) => return Err(e),
            };
            let ghost a1 = texts(args@);
            let (inpfiles, per) = match self.setup_inputs(executor, args, cwd, &inspec) {
                Ok(x) => x,
                Err(e) => return Err(e),
            };
            proof {
                if self.plain_specs() {
                    assert(texts(args@) =~= a0 + file_contribution(
                        self.executable.inp_spec(),
                        self.executable.out_spec(),
                        per@,
                        outfile.paths(),
                    ));
                }
            }
            Ok((inpfiles, outfile))
        } else {
            let (inpfiles, per) = match self.setup_inputs(executor, args, cwd, &inspec) {
                Ok(x) => x,
                Err(e) => return Err(e),
            };
            let outfile = match self.setup_exe_file(
                executor,
                args,
                cwd,
                &outspec,
                &self.files.out_filename,
            ) {
                Ok(f) => f,
                Err(e) => return Err(e),
            };
            proof {
                if self.plain_specs() {
                    assert(texts(args@) =~= a0 + file_contribution(
                        self.executable.inp_spec(),
                        self.executable.out_spec(),
                        per@,
                        outfile.paths(),
                    ));
                }
            }
            Ok((inpfiles, outfile))
        }
    }

    /// Neither file specification of the executable is a callback.
    pub open spec fn plain_specs(&self) -> bool {
        !(self.exe().inp_spec() is ViaCall) && !(self.exe().out_spec() is ViaCall)
    }

    /// Every file that the executable uses is given as a location.
    pub open spec fn files_given(&self) -> bool {
        &&& !(self.exe().inp_spec() is NoFileUsed) ==> forall|k: int|
            0 <= k < self.files().inp_filenames@.len() ==> #[trigger] self.files().inp_filenames@[k] is Loc
        &&& !(self.exe().out_spec() is NoFileUsed) ==> self.files().out_filename is Loc
    }

    /// The complete argument list of the command and its resolved input and
    /// output files: the arguments so far, then the files' arguments.  It
    /// fails with a missing file, or with an error of the executor or of a
    /// callback that places a file.
    pub fn finalize_args<E: OsRun>(&self, executor: &E, cwd: &Option<String>) -> (r: Result<
        (Vec<String>, (ActualFile, ActualFile)),
        SubProcError,
    >)
        ensures
            self.plain_specs() ==> (r matches Ok((args, (inps, out))) ==> exists|
                per: Seq<Seq<Seq<char>>>,
            |
                #[trigger] inputs_resolved(
                    self.files().inp_filenames@,
                    self.exe().inp_spec(),
                    per,
                    inps.paths(),
                ) && texts(args@) == self.arg_list() + file_contribution(
                    self.exe().inp_spec(),
                    self.exe().out_spec(),
                    per,
                    out.paths(),
                )),
            r matches Ok((args, (inps, out))) ==> self.yields(&out),
            self.plain_specs() && self.files_given() ==> r is Ok,
            self.plain_specs() && used_files_known(*self) && !self.files_given() ==> r matches Err(
                SubProcError::ErrorMissingFile,
            ),
            r matches Err(e) ==> (e is ErrorMissingFile || e is ErrorExecuting),
    {
        let mut args = copy_strings(&self.args);
        match self.cmd_file_setup(executor, &mut args, cwd) {
            Ok(files) => Ok((args, files)),
            Err(e) => Err(e),
        }
    }

    /// Runs the command from its resolved directory and maps the outcome.
    fn run_cmd<E: OsRun>(
        &self,
        executor: &E,
        cwd: &Option<String>,
        outfile: ActualFile,
        args: Vec<String>,
    ) -> (r: Result<ActualFile, SubProcError>)
        ensures
            r matches Ok(f) ==> f == outfile,
            r matches Err(e) ==> !(e is ErrorMissingFile) && run_error(e),
    {
        let fromdir = resolve_dir(cwd, &self.files.in_dir);
        let res = executor.run_executable(
            self.name.as_str(),
            self.executable.exe_path().as_str(),
            &args,
            &self.env,
            &fromdir,
        );
        run_outcome(self.executable.exe_path(), args, fromdir, res, outfile)
    }
}

impl FilesPrep for SubProcOperation {
    closed spec fn files(&self) -> FileTransformation {
        self.files
    }

    open spec fn same_except_files(&self, o: &Self) -> bool {
        &&& self.label_view() == o.label_view()
        &&& self.exe().like(&o.exe())
        &&& self.arg_list() == o.arg_list()
        &&& self.env_view() == o.env_view()
    }

    fn set_dir(&mut self, tgtdir: &str) {
        self.files.set_dir(tgtdir);
    }

    fn set_input_file(&mut self, fname: &FileArg) {
        self.files.set_input_file(fname);
    }

    fn add_input_file(&mut self, fname: &FileArg) {
        self.files.add_input_file(fname);
    }

    fn has_input_file(&self) -> (r: bool) {
        self.files.has_input_file()
    }

    fn set_output_file(&mut self, fname: &FileArg) {
        self.files.set_output_file(fname);
    }

    fn has_explicit_output_file(&self) -> (r: bool) {
        self.files.has_explicit_output_file()
    }
}

impl OpInterface for SubProcOperation {
    open spec fn op_label(&self) -> Seq<char> {
        self.label_view()
    }

    /// The output is what the output specification resolves to, or none when
    /// the executable takes no output file.
    open spec fn yields(&self, out: &ActualFile) -> bool {
        if self.exe().out_spec() is NoFileUsed {
            *out is NoActualFile
        } else {
            resolves(self.files().out_filename, *out)
        }
    }

    /// A run leaves the operation as it was.  When no callback places the
    /// files and each file used is a location or still to be determined, the
    /// run fails with a missing file exactly when one is still to be
    /// determined.
    open spec fn ran(&self, before: &Self, r: &Result<ActualFile, SubProcError>) -> bool {
        &&& *self == *before
        &&& (*r matches Err(e) ==> run_error(e))
        &&& before.plain_specs() && used_files_known(*before) ==> ((*r matches Err(
            SubProcError::ErrorMissingFile,
        )) <==> !before.files_given())
    }

    fn label(&self) -> (r: String) {
        self.name.clone()
    }

    fn set_label(&mut self, new_label: &str) {
        self.name = new_label.to_owned();
    }

    fn execute<E: OsRun>(&mut self, executor: &E, cwd: &Option<String>) -> (r: Result<
        ActualFile,
        SubProcError,
    >) {
        let (args, (_inpfiles, outfile)) = match self.finalize_args(executor, cwd) {
            Ok(x) => x,
            Err(e) => return Err(e),
        };
        self.run_cmd(executor, cwd, outfile, args)
    }
}

} // verus!
