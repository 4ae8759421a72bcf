//! Chains of operations: each enabled operation runs in turn and its output
//! files become the next operation's input files.
use vstd::prelude::*;
use crate::errors::{SubProcError, run_error};
use crate::execution::OsRun;
use crate::files::{ActualFile, FileArg, FileTransformation, FilesPrep, resolve_dir, resolves};
use crate::function::FunctionOperation;
use crate::generic::OpInterface;
use crate::subproc::SubProcOperation;

verus! {

/// Whether a member of a chain runs when the chain is executed.
#[derive(Clone, Copy, Debug, PartialEq, Eq, Structural)]
pub enum Activation {
    /// The operation is performed.
    Enabled,
    /// The operation is skipped.
    Disabled,
}

/// A member of a chain: a subprocess or a local call.
enum RunnableOp {
    Exec(SubProcOperation),
    Call(FunctionOperation),
}

/// The file specification is this location.
pub open spec fn is_loc_of(f: FileArg, p: Seq<char>) -> bool {
    f matches FileArg::Loc(q) && q@ == p
}

pub open spec fn texts_of(v: Seq<String>) -> Seq<Seq<char>> {
    v.map_values(|s: String| s@)
}

/// The inputs `now` of a member whose inputs were `was`, once the previous
/// member's output with these paths is passed on: a preset input, or an
/// output with no paths, leaves them; else they are the paths as locations.
pub open spec fn thread_rule(preset: bool, was: Seq<FileArg>, now: Seq<FileArg>, paths: Seq<Seq<char>>) -> bool {
    if preset || paths.len() == 0 {
        now == was
    } else {
        locs_of(now, paths)
    }
}

/// The file specifications are these paths as locations, in order.
pub open spec fn locs_of(fs: Seq<FileArg>, ps: Seq<Seq<char>>) -> bool {
    &&& fs.len() == ps.len()
    &&& forall|k: int| 0 <= k < fs.len() ==> is_loc_of(#[trigger] fs[k], ps[k])
}

/// What the operation returns on success when its output specification is
/// `outarg`.
pub open spec fn op_yields_with(exec: Option<bool>, outarg: FileArg, out: ActualFile) -> bool {
    match exec {
        Some(takes_output) => if takes_output {
            resolves(outarg, out)
        } else {
            out is NoActualFile
        },
        None => if outarg is TBD {
            out is NoActualFile
        } else {
            resolves(outarg, out)
        },
    }
}

impl RunnableOp {
    /// For a subprocess, whether it takes an output file; none for a call.
    spec fn kind(&self) -> Option<bool> {
        match self {
            RunnableOp::Exec(s) => Some(!(s.exe().out_spec() is NoFileUsed)),
            RunnableOp::Call(_) => None,
        }
    }

    spec fn same_kind(&self, o: &RunnableOp) -> bool {
        self.kind() == o.kind()
    }

    fn push_arg(&mut self, arg: &str)
        ensures
            final(self).files() == old(self).files(),
            final(self).kind() == old(self).kind(),
    {
        match self {
            RunnableOp::Exec(sp) => {
                sp.push_arg(arg);
            },
            RunnableOp::Call(_) => {},
        }
    }
}

impl FilesPrep for RunnableOp {
    closed spec fn files(&self) -> FileTransformation {
        match self {
            RunnableOp::Exec(s) => s.files(),
            RunnableOp::Call(f) => f.files(),
        }
    }

    closed spec fn same_except_files(&self, o: &Self) -> bool {
        match (self, o) {
            (RunnableOp::Exec(a), RunnableOp::Exec(b)) => a.same_except_files(b),
            (RunnableOp::Call(a), RunnableOp::Call(b)) => a.same_except_files(b),
            _ => false,
        }
    }

    fn set_dir(&mut self, tgtdir: &str) {
        match self {
            RunnableOp::Exec(s) => s.set_dir(tgtdir),
            RunnableOp::Call(f) => f.set_dir(tgtdir),
        }
    }

    fn set_input_file(&mut self, fname: &FileArg) {
        match self {
            RunnableOp::Exec(s) => s.set_input_file(fname),
            RunnableOp::Call(f) => f.set_input_file(fname),
        }
    }

    fn add_input_file(&mut self, fname: &FileArg) {
        match self {
            RunnableOp::Exec(s) => s.add_input_file(fname),
            RunnableOp::Call(f) => f.add_input_file(fname),
        }
    }

    fn has_input_file(&self) -> (r: bool) {
        match self {
            RunnableOp::Exec(s) => s.has_input_file(),
            RunnableOp::Call(f) => f.has_input_file(),
        }
    }

    fn set_output_file(&mut self, fname: &FileArg) {
        match self {
            RunnableOp::Exec(s) => s.set_output_file(fname),
            RunnableOp::Call(f) => f.set_output_file(fname),
        }
    }

    fn has_explicit_output_file(&self) -> (r: bool) {
        match self {
            RunnableOp::Exec(s) => s.has_explicit_output_file(),
            RunnableOp::Call(f) => f.has_explicit_output_file(),
        }
    }
}

impl OpInterface for RunnableOp {
    closed spec fn op_label(&self) -> Seq<char> {
        match self {
            RunnableOp::Exec(s) => s.op_label(),
            RunnableOp::Call(f) => f.op_label(),
        }
    }

    closed spec fn yields(&self, out: &ActualFile) -> bool {
        op_yields_with(self.kind(), self.files().out_filename, *out)
    }

    closed spec fn ran(&self, before: &Self, r: &Result<ActualFile, SubProcError>) -> bool {
        &&& *self == *before
        &&& (*r matches Err(e) ==> run_error(e))
    }

    fn label(&self) -> (r: String) {
        match self {
            RunnableOp::Exec(s) => s.label(),
            RunnableOp::Call(f) => f.label(),
        }
    }

    fn set_label(&mut self, new_label: &str) {
        match self {
            RunnableOp::Exec(s) => s.set_label(new_label),
            RunnableOp::Call(f) => f.set_label(new_label),
        }
    }

    fn execute<E: OsRun>(&mut self, executor: &E, cwd: &Option<String>) -> (r: Result<
        ActualFile,
        SubProcError,
    >) {
        match self {
            RunnableOp::Exec(s) => s.execute(executor, cwd),
            RunnableOp::Call(f) => f.execute(executor, cwd),
        }
    }
}

/// A member of a chain with its activation and whether its input was set
/// explicitly (and so is not replaced by the previous member's output).
struct ChainStage {
    op: RunnableOp,
    active: Activation,
    preset: bool,
}

/// An ordered chain of operations with the chain's own input files, output
/// file and directory.
pub struct ChainedOps {
    name: String,
    stages: Vec<ChainStage>,
    files: FileTransformation,
}

/// A handle on one member of a chain, for changing it after it was added.
#[derive(Clone, Copy, Debug, PartialEq, Eq, Structural)]
pub struct ChainedOpRef {
    opidx: usize,
}

impl ChainedOpRef {
    /// The position of the member in its chain.
    pub closed spec fn index(&self) -> int {
        self.opidx as int
    }
}

impl ChainedOps {
    /// The number of members.
    pub closed spec fn stage_count(&self) -> int {
        self.stages@.len() as int
    }

    pub closed spec fn stage_enabled(&self, i: int) -> bool {
        self.stages@[i].active is Enabled
    }

    pub closed spec fn stage_preset(&self, i: int) -> bool {
        self.stages@[i].preset
    }

    pub closed spec fn stage_files(&self, i: int) -> FileTransformation {
        self.stages@[i].op.files()
    }

    /// What member `i` returns on success when its output specification is
    /// `outarg`.
    pub closed spec fn stage_yields_with(&self, i: int, outarg: FileArg, out: ActualFile) -> bool {
        op_yields_with(self.stages@[i].op.kind(), outarg, out)
    }

    /// Member `i` is the same as in `o`.
    pub closed spec fn stage_same(&self, o: ChainedOps, i: int) -> bool {
        self.stages@[i] == o.stages@[i]
    }

    /// Member `i` is the same kind of operation as in `o`, and takes an
    /// output file exactly when it does there.
    pub closed spec fn stage_same_kind(&self, o: ChainedOps, i: int) -> bool {
        self.stages@[i].op.same_kind(&o.stages@[i].op)
    }

    /// Members `p` and `j` are enabled and no member between them is.
    pub open spec fn consecutive_enabled(&self, p: int, j: int) -> bool {
        &&& 0 <= p < j < self.stage_count()
        &&& self.stage_enabled(p)
        &&& self.stage_enabled(j)
        &&& forall|m: int| p < m < j ==> !#[trigger] self.stage_enabled(m)
    }

    /// Member `i` is the first enabled member.
    pub open spec fn is_first_enabled(&self, i: int) -> bool {
        &&& 0 <= i < self.stage_count()
        &&& self.stage_enabled(i)
        &&& forall|j: int| 0 <= j < i ==> !#[trigger] self.stage_enabled(j)
    }

    /// The inputs that member `j` ran with, in this chain after a run of the
    /// chain `before`, given the output `prev` of the enabled member before
    /// it: its preset input, else the paths of `prev` as locations, in order,
    /// else (when `prev` has no paths) its inputs as configured.
    pub open spec fn thread_step(&self, before: ChainedOps, j: int, prev: ActualFile) -> bool {
        thread_rule(
            before.stage_preset(j),
            before.stage_files(j).inp_filenames@,
            self.stage_files(j).inp_filenames@,
            prev.paths(),
        )
    }

    /// What the members ran with in a run of the chain `before`: the chain's
    /// input files, if any, replaced the first enabled member's; each next
    /// enabled member took the output of the one before it (see
    /// [ChainedOps::thread_step]), for an output that member `p` can return.
    pub open spec fn threaded(&self, before: ChainedOps) -> bool {
        &&& forall|i: int|
            #[trigger] before.is_first_enabled(i) ==> self.stage_files(i).inp_filenames@ == (if before.files().inp_filenames@.len() > 0 {
                before.files().inp_filenames@
            } else {
                before.stage_files(i).inp_filenames@
            })
        &&& forall|p: int, j: int|
            #[trigger] before.consecutive_enabled(p, j) ==> exists|prev: ActualFile|
                before.stage_yields_with(p, before.stage_files(p).out_filename, prev)
                    && #[trigger] self.thread_step(before, j, prev)
    }

    /// Member `i` is the last enabled member.
    pub open spec fn is_last_enabled(&self, i: int) -> bool {
        &&& 0 <= i < self.stage_count()
        &&& self.stage_enabled(i)
        &&& forall|j: int| i < j < self.stage_count() ==> !#[trigger] self.stage_enabled(j)
    }

    /// A new, empty chain.
    pub fn new(label: &str) -> (r: ChainedOps)
        ensures
            r.op_label() == label@,
            r.stage_count() == 0,
            r.files().inp_filenames@.len() == 0,
            r.files().out_filename == FileArg::TBD,
            r.files().in_dir is None,
    {
        ChainedOps { name: label.to_owned(), stages: Vec::new(), files: FileTransformation::new() }
    }

    fn push_stage(&mut self, op: RunnableOp, preset: bool) -> (r: ChainedOpRef)
        ensures
            r.index() == old(self).stage_count(),
            final(self).stage_count() == old(self).stage_count() + 1,
            final(self).stage_enabled(r.index()),
            final(self).stage_preset(r.index()) == preset,
            final(self).stage_files(r.index()) == op.files(),
            forall|i: int|
                0 <= i < old(self).stage_count() ==> final(self).stages@[i] == old(self).stages@[i],
            final(self).files() == old(self).files(),
            final(self).op_label() == old(self).op_label(),
    {
        self.stages.push(ChainStage { op, active: Activation::Enabled, preset });
        ChainedOpRef { opidx: self.stages.len() - 1 }
    }

    /// Adds a copy of the subprocess operation at the end of the chain and
    /// returns a handle on it.  An operation that already has input files
    /// keeps them: the previous member's output does not replace them.
    pub fn push_op(&mut self, op: &SubProcOperation) -> (r: ChainedOpRef)
        requires
            old(self).stage_count() < usize::MAX,
        ensures
            r.index() == old(self).stage_count(),
            final(self).stage_count() == old(self).stage_count() + 1,
            final(self).stage_enabled(r.index()),
            final(self).stage_preset(r.index()) == (op.files().inp_filenames@.len() > 0),
            final(self).stage_files(r.index()).same(&op.files()),
            forall|i: int|
                0 <= i < old(self).stage_count() ==> final(self).stage_enabled(i) == old(self).stage_enabled(i) && final(self).stage_preset(i) == old(self).stage_preset(i)
                    && final(self).stage_files(i) == old(self).stage_files(i),
            final(self).files() == old(self).files(),
            final(self).op_label() == old(self).op_label(),
    {
        let preset = op.has_input_file();
        self.push_stage(RunnableOp::Exec(op.clone()), preset)
    }

    /// Adds a copy of the function operation at the end of the chain and
    /// returns a handle on it.  An operation that already has input files
    /// keeps them.
    pub fn push_call(&mut self, op: &FunctionOperation) -> (r: ChainedOpRef)
        requires
            old(self).stage_count() < usize::MAX,
        ensures
            r.index() == old(self).stage_count(),
            final(self).stage_count() == old(self).stage_count() + 1,
            final(self).stage_enabled(r.index()),
            final(self).stage_preset(r.index()) == (op.files().inp_filenames@.len() > 0),
            final(self).stage_files(r.index()).same(&op.files()),
            forall|i: int|
                0 <= i < old(self).stage_count() ==> final(self).stage_enabled(i) == old(self).stage_enabled(i) && final(self).stage_preset(i) == old(self).stage_preset(i)
                    && final(self).stage_files(i) == old(self).stage_files(i),
            final(self).files() == old(self).files(),
            final(self).op_label() == old(self).op_label(),
    {
        let preset = op.has_input_file();
        self.push_stage(RunnableOp::Call(op.clone()), preset)
    }

    /// The positions of the enabled members, in chain order.
    pub fn enabled_stages(&self) -> (r: Vec<usize>)
        ensures
            forall|a: int, b: int| 0 <= a < b < r@.len() ==> r@[a] < r@[b],
            forall|a: int| 0 <= a < r@.len() ==> (r@[a] as int) < self.stage_count(),
            forall|i: int|
                0 <= i < self.stage_count() ==> (self.stage_enabled(i) <==> r@.contains(
                    i as usize,
                )),
    {
        let mut r: Vec<usize> = Vec::new();
        let mut i: usize = 0;
        while i < self.stages.len()
            invariant
                i <= self.stages@.len(),
                forall|a: int, b: int| 0 <= a < b < r@.len() ==> r@[a] < r@[b],
                forall|a: int| 0 <= a < r@.len() ==> r@[a] < i,
                forall|j: int|
                    0 <= j < i ==> (self.stages@[j].active is Enabled <==> r@.contains(
                        j as usize,
                    )),
            decreases self.stages@.len() - i,
        {
            let ghost r0 = r@;
            if matches!(self.stages[i].active, Activation::Enabled) {
                r.push(i);
                proof {
                    assert forall|j: int| 0 <= j <= i implies (self.stages@[j].active is Enabled
                        <==> r@.contains(j as usize)) by {
                        if j < i {
                            if r0.contains(j as usize) {
                                let a = choose|a: int| 0 <= a < r0.len() && r0[a] == j as usize;
                                assert(r@[a] == r0[a]);
                            }
                            if r@.contains(j as usize) {
                                let a = choose|a: int| 0 <= a < r@.len() && r@[a] == j as usize;
                                if a < r0.len() {
                                    assert(r0[a] == r@[a]);
                                }
                            }
                        } else {
                            assert(r@[r@.len() - 1] == i);
                        }
                    }
                }
            }
            i = i + 1;
        }
        r
    }

    /// Makes the paths the input files of member `next`, unless its input
    /// was set explicitly or there are no paths.
    pub fn thread_into(&mut self, next: usize, paths: &Vec<String>)
        requires
            (next as int) < old(self).stage_count(),
        ensures
            final(self).stage_count() == old(self).stage_count(),
            final(self).files() == old(self).files(),
            final(self).op_label() == old(self).op_label(),
            forall|i: int|
                0 <= i < old(self).stage_count() && i != next ==> final(self).stage_same(*old(self), i),
            final(self).stage_enabled(next as int) == old(self).stage_enabled(next as int),
            final(self).stage_preset(next as int) == old(self).stage_preset(next as int),
            final(self).stage_files(next as int).out_filename == old(self).stage_files(
                next as int,
            ).out_filename,
            final(self).stage_files(next as int).in_dir == old(self).stage_files(
                next as int,
            ).in_dir,
            final(self).stage_same_kind(*old(self), next as int),
            old(self).stage_preset(next as int) || paths@.len() == 0 ==> final(self).stage_files(
                next as int,
            ).inp_filenames@ == old(self).stage_files(next as int).inp_filenames@,
            !old(self).stage_preset(next as int) && paths@.len() > 0 ==> {
                let ins = final(self).stage_files(next as int).inp_filenames@;
                &&& ins.len() == paths@.len()
                &&& forall|k: int|
                    0 <= k < ins.len() ==> is_loc_of(#[trigger] ins[k], paths@[k]@)
            },
    {
        if self.stages[next].preset || paths.len() == 0 {
            return ;
        }
        let st = &mut self.stages[next];
        st.op.set_input_file(&FileArg::Loc(paths[0].clone()));
        let mut k: usize = 1;
        while k < paths.len()
            invariant
                1 <= k <= paths@.len(),
                st.op.files().inp_filenames@.len() == k,
                forall|j: int|
                    0 <= j < k ==> is_loc_of(#[trigger] st.op.files().inp_filenames@[j], paths@[j]@),
                st.op.files().out_filename == old(self).stages@[next as int].op.files().out_filename,
                st.op.files().in_dir == old(self).stages@[next as int].op.files().in_dir,
                st.op.same_kind(&old(self).stages@[next as int].op),
                st.active == old(self).stages@[next as int].active,
                st.preset == old(self).stages@[next as int].preset,
            decreases paths@.len() - k,
        {
            st.op.add_input_file(&FileArg::Loc(paths[k].clone()));
            k = k + 1;
        }
    }
}

impl FilesPrep for ChainedOps {
    closed spec fn files(&self) -> FileTransformation {
        self.files
    }

    closed spec fn same_except_files(&self, o: &Self) -> bool {
        &&& self.name@ == o.name@
        &&& self.stages@ == o.stages@
    }

    /// Sets the chain's directory: members run from it, or from their own
    /// directory beneath it (or in place of it, when absolute).
    fn set_dir(&mut self, tgtdir: &str) {
        self.files.set_dir(tgtdir);
    }

    /// Sets the chain's input file; it becomes the first enabled member's.
    fn set_input_file(&mut self, fname: &FileArg) {
        self.files.set_input_file(fname);
    }

    /// Adds an input file for the chain.
    fn add_input_file(&mut self, fname: &FileArg) {
        self.files.add_input_file(fname);
    }

    fn has_input_file(&self) -> (r: bool) {
        self.files.has_input_file()
    }

    /// Sets the chain's output file; when it is a location it becomes the
    /// last enabled member's.
    fn set_output_file(&mut self, fname: &FileArg) {
        self.files.set_output_file(fname);
    }

    fn has_explicit_output_file(&self) -> (r: bool) {
        self.files.has_explicit_output_file()
    }
}

impl ChainedOps {
    /// The output specification that member `i` runs with: the chain's own
    /// when that is a location, else the member's.
    pub open spec fn effective_output(&self, i: int) -> FileArg {
        if self.files().explicit_output() {
            self.files().out_filename
        } else {
            self.stage_files(i).out_filename
        }
    }

    /// Runs member `idx`; the chain is left as it was.
    fn run_member<E: OsRun>(&mut self, executor: &E, tgtdir: &Option<String>, idx: usize) -> (r:
        Result<ActualFile, SubProcError>)
        requires
            (idx as int) < old(self).stage_count(),
        ensures
            final(self).stages@ == old(self).stages@,
            final(self).files == old(self).files,
            final(self).name == old(self).name,
            r matches Err(e) ==> run_error(e),
            r matches Ok(f) ==> op_yields_with(
                old(self).stages@[idx as int].op.kind(),
                old(self).stages@[idx as int].op.files().out_filename,
                f,
            ),
    {
        let r = self.stages[idx].op.execute(executor, tgtdir);
        assert(self.stages@ =~= old(self).stages@);
        r
    }

    /// Passes the output of a member on to member `next` (see
    /// [thread_rule]); every other member is left as it was.
    fn pass_output(&mut self, next: usize, out: &ActualFile)
        requires
            (next as int) < old(self).stage_count(),
        ensures
            final(self).files == old(self).files,
            final(self).stages@.len() == old(self).stages@.len(),
            forall|i: int|
                0 <= i < old(self).stages@.len() && i != next ==> final(self).stages@[i] == old(self).stages@[i],
            final(self).stages@[next as int].active == old(self).stages@[next as int].active,
            final(self).stages@[next as int].preset == old(self).stages@[next as int].preset,
            final(self).stages@[next as int].op.files().out_filename == old(self).stages@[next as int].op.files().out_filename,
            final(self).stages@[next as int].op.kind() == old(self).stages@[next as int].op.kind(),
            thread_rule(
                old(self).stages@[next as int].preset,
                old(self).stages@[next as int].op.files().inp_filenames@,
                final(self).stages@[next as int].op.files().inp_filenames@,
                out.paths(),
            ),
    {
        let ghost pre = *self;
        match out.to_paths(&None) {
            Ok(ps) => {
                proof {
                    assert(out.paths().map_values(|p: Seq<char>| crate::files::rooted(None, p))
                        =~= out.paths());
                    assert(texts_of(ps@) =~= out.paths());
                }
                self.thread_into(next, &ps);
                proof {
                    assert forall|i: int| 0 <= i < pre.stages@.len() && i != next implies self.stages@[i]
                        == pre.stages@[i] by {
                        assert(self.stage_same(pre, i));
                    }
                    assert(self.stage_same_kind(pre, next as int));
                }
            },
            Err(_) => {},
        }
    }

    /// Runs the enabled members in order from `tgtdir`, threading each
    /// member's output paths into the next member's input, and returns the
    /// last member's output.  Each output is kept until the next member has
    /// run.
    fn execute_chain<E: OsRun>(
        &mut self,
        executor: &E,
        tgtdir: &Option<String>,
        enabled: &Vec<usize>,
    ) -> (r: Result<ActualFile, SubProcError>)
        requires
            enabled@.len() > 0,
            forall|a: int, b: int| 0 <= a < b < enabled@.len() ==> enabled@[a] < enabled@[b],
            forall|a: int| 0 <= a < enabled@.len() ==> (enabled@[a] as int) < old(self).stage_count(),
        ensures
            final(self).files == old(self).files,
            final(self).stages@.len() == old(self).stages@.len(),
            forall|i: int|
                0 <= i < old(self).stages@.len() ==> (#[trigger] final(self).stages@[i]).active
                    == old(self).stages@[i].active && final(self).stages@[i].preset == old(self).stages@[i].preset,
            r matches Ok(f) ==> op_yields_with(
                old(self).stages@[enabled@.last() as int].op.kind(),
                old(self).stages@[enabled@.last() as int].op.files().out_filename,
                f,
            ),
            forall|i: int|
                0 <= i < old(self).stages@.len() && !enabled@.contains(i as usize) ==> final(self).stages@[i]
                    == old(self).stages@[i],
            final(self).stages@[enabled@[0] as int].op.files().inp_filenames@ == old(self).stages@[enabled@[0] as int].op.files().inp_filenames@,
            r is Ok ==> exists|outs: Seq<ActualFile>| #[trigger] chain_threaded(*old(self), *final(self), enabled@, outs),
            r matches Err(e) ==> run_error(e),
    {
        let n = enabled.len();
        let ghost s0 = *self;
        let ghost mut outs: Seq<ActualFile> = seq![];
        let mut held = ActualFile::NoActualFile;
        let mut k: usize = 0;
        while k < n
            invariant
                n == enabled@.len(),
                k < n,
                s0 == *old(self),
                forall|a: int, b: int| 0 <= a < b < enabled@.len() ==> enabled@[a] < enabled@[b],
                forall|a: int| 0 <= a < enabled@.len() ==> (enabled@[a] as int) < s0.stages@.len(),
                self.stages@.len() == s0.stages@.len(),
                self.files == s0.files,
                forall|i: int|
                    0 <= i < s0.stages@.len() ==> (#[trigger] self.stages@[i]).active == s0.stages@[i].active
                        && self.stages@[i].preset == s0.stages@[i].preset
                        && self.stages@[i].op.files().out_filename == s0.stages@[i].op.files().out_filename
                        && self.stages@[i].op.kind() == s0.stages@[i].op.kind(),
                forall|i: int|
                    0 <= i < s0.stages@.len() && !enabled@.contains(i as usize) ==> self.stages@[i]
                        == s0.stages@[i],
                forall|b: int|
                    #![trigger enabled@[b]]
                    0 <= b < n && (b == 0 || k < b) ==> self.stages@[enabled@[b] as int].op.files().inp_filenames@
                        == s0.stages@[enabled@[b] as int].op.files().inp_filenames@,
                outs.len() == k,
                chain_threaded(s0, *self, enabled@.subrange(0, k + 1), outs),
            decreases n - k,
        {
            let idx = enabled[k];
            assert(enabled@.contains(idx));
            let ghost head = *self;
            let out = match self.run_member(executor, tgtdir, idx) {
                Ok(f) => f,
                Err(e) => return Err(e),
            };
            if k + 1 == n {
                proof {
                    assert(enabled@.subrange(0, k + 1) =~= enabled@);
                    lemma_threaded_same_stages(s0, head, *self, enabled@, outs);
                    assert(chain_threaded(*old(self), *self, enabled@, outs));
                }
                return Ok(out);
            }
            let next = enabled[k + 1];
            proof {
                assert(enabled@[k as int] < enabled@[n - 1]);
                assert(enabled@.contains(next));
            }
            let ghost pre = *self;
            self.pass_output(next, &out);
            proof {
                lemma_thread_more(s0, pre, *self, enabled@, outs, out, k as int);
                outs = outs.push(out);
                assert forall|b: int|
                    #![trigger enabled@[b]]
                    0 <= b < n && (b == 0 || k + 1 < b) implies self.stages@[enabled@[b] as int].op.files().inp_filenames@
                    == s0.stages@[enabled@[b] as int].op.files().inp_filenames@ by {
                    if b == 0 {
                        assert(enabled@[0] < enabled@[k + 1]);
                    } else {
                        assert(enabled@[k + 1] < enabled@[b]);
                    }
                }
            }
            held = out;
            k = k + 1;
        }
        Ok(held)
    }
}

/// In a run of `before` ending in `after`, the members at positions `en`
/// (enabled, in order) passed on the outputs `outs`: the member at each
/// position could return its output, and the next one ran with the inputs
/// that [thread_rule] gives.
pub open spec fn chain_threaded(before: ChainedOps, after: ChainedOps, en: Seq<usize>, outs: Seq<ActualFile>) -> bool {
    &&& outs.len() + 1 == en.len()
    &&& forall|a: int|
        #![trigger outs[a]]
        0 <= a < outs.len() ==> before.stage_yields_with(
            en[a] as int,
            before.stage_files(en[a] as int).out_filename,
            outs[a],
        ) && after.thread_step(before, en[a + 1] as int, outs[a])
}

/// A successful run of a chain whose setup (`before` to `set`) gave the
/// chain's input files to its first enabled member and its output file to its
/// last, and which then threaded the outputs `outs` through the members `en`,
/// ran each member as [ChainedOps::threaded] says.
proof fn lemma_execute_ran(
    before: ChainedOps,
    set: ChainedOps,
    fin: ChainedOps,
    en: Seq<usize>,
    outs: Seq<ActualFile>,
)
    requires
        en.len() > 0,
        before.stages@.len() <= usize::MAX,
        forall|a: int, b: int| 0 <= a < b < en.len() ==> en[a] < en[b],
        forall|a: int| 0 <= a < en.len() ==> (en[a] as int) < before.stage_count(),
        forall|i: int|
            0 <= i < before.stage_count() ==> (before.stage_enabled(i) <==> en.contains(i as usize)),
        set.stages@.len() == before.stages@.len(),
        set.files == before.files,
        forall|i: int| 0 <= i < before.stages@.len() ==> (#[trigger] set.stages@[i]).active
            == before.stages@[i].active && set.stages@[i].preset == before.stages@[i].preset
            && set.stages@[i].op.kind() == before.stages@[i].op.kind()
            && (i != en.last() ==> set.stages@[i].op.files().out_filename == before.stages@[i].op.files().out_filename)
            && (i != en[0] ==> set.stages@[i].op.files().inp_filenames@ == before.stages@[i].op.files().inp_filenames@),
        set.stages@[en[0] as int].op.files().inp_filenames@ == (if before.files.inp_filenames@.len() > 0 {
            before.files.inp_filenames@
        } else {
            before.stages@[en[0] as int].op.files().inp_filenames@
        }),
        fin.stages@.len() == set.stages@.len(),
        fin.stages@[en[0] as int].op.files().inp_filenames@ == set.stages@[en[0] as int].op.files().inp_filenames@,
        chain_threaded(set, fin, en, outs),
    ensures
        fin.threaded(before),
{
    assert forall|i: int| #[trigger] before.is_first_enabled(i) implies fin.stage_files(i).inp_filenames@ == (if before.files().inp_filenames@.len() > 0 {
        before.files().inp_filenames@
    } else {
        before.stage_files(i).inp_filenames@
    }) by {
        assert(en.contains(i as usize));
        let a = choose|a: int| 0 <= a < en.len() && en[a] == i as usize;
        if a > 0 {
            assert(en[0] < en[a]);
            assert(en.contains(en[0]));
            assert(before.stage_enabled(en[0] as int));
        }
    }
    assert forall|p: int, j: int| #[trigger] before.consecutive_enabled(p, j) implies exists|prev: ActualFile|
        before.stage_yields_with(p, before.stage_files(p).out_filename, prev)
            && #[trigger] fin.thread_step(before, j, prev) by {
        assert(en.contains(p as usize));
        assert(en.contains(j as usize));
        let a = choose|a: int| 0 <= a < en.len() && en[a] == p as usize;
        let b = choose|b: int| 0 <= b < en.len() && en[b] == j as usize;
        if b <= a {
            if b < a {
                assert(en[b] < en[a]);
            }
        }
        assert(a < b);
        if b > a + 1 {
            assert(en[a] < en[a + 1] && en[a + 1] < en[b]);
            assert(en.contains(en[a + 1]));
            assert(before.stage_enabled(en[a + 1] as int));
        }
        assert(b == a + 1);
        assert(outs[a] == outs[a]);
        if p == en.last() {
            assert(en[a] < en[en.len() - 1]);
        }
        if j == en[0] {
            assert(en[0] <= en[a]);
        }
        assert(fin.thread_step(before, j, outs[a]));
    }
}

/// Threading is a fact about the members alone.
proof fn lemma_threaded_same_stages(
    before: ChainedOps,
    x: ChainedOps,
    y: ChainedOps,
    en: Seq<usize>,
    outs: Seq<ActualFile>,
)
    requires
        chain_threaded(before, x, en, outs),
        y.stages@ == x.stages@,
    ensures
        chain_threaded(before, y, en, outs),
{
    assert forall|a: int|
        #![trigger outs[a]]
        0 <= a < outs.len() implies y.thread_step(before, en[a + 1] as int, outs[a]) by {
        assert(x.thread_step(before, en[a + 1] as int, outs[a]));
    }
}

proof fn lemma_thread_more(
    s0: ChainedOps,
    pre: ChainedOps,
    post: ChainedOps,
    en: Seq<usize>,
    outs: Seq<ActualFile>,
    out: ActualFile,
    k: int,
)
    requires
        0 <= k < en.len() - 1,
        forall|a: int, b: int| 0 <= a < b < en.len() ==> en[a] < en[b],
        forall|a: int| 0 <= a < en.len() ==> (en[a] as int) < s0.stages@.len(),
        pre.stages@.len() == s0.stages@.len(),
        post.stages@.len() == s0.stages@.len(),
        chain_threaded(s0, pre, en.subrange(0, k + 1), outs),
        forall|i: int|
            0 <= i < pre.stages@.len() && i != en[k + 1] ==> post.stages@[i] == pre.stages@[i],
        pre.stages@[en[k] as int].op.kind() == s0.stages@[en[k] as int].op.kind(),
        pre.stages@[en[k] as int].op.files().out_filename == s0.stages@[en[k] as int].op.files().out_filename,
        op_yields_with(
            pre.stages@[en[k] as int].op.kind(),
            pre.stages@[en[k] as int].op.files().out_filename,
            out,
        ),
        pre.stages@[en[k + 1] as int].op.files().inp_filenames@ == s0.stages@[en[k + 1] as int].op.files().inp_filenames@,
        pre.stages@[en[k + 1] as int].preset == s0.stages@[en[k + 1] as int].preset,
        thread_rule(
            pre.stages@[en[k + 1] as int].preset,
            pre.stages@[en[k + 1] as int].op.files().inp_filenames@,
            post.stages@[en[k + 1] as int].op.files().inp_filenames@,
            out.paths(),
        ),
    ensures
        chain_threaded(s0, post, en.subrange(0, k + 2), outs.push(out)),
{
    let e1 = en.subrange(0, k + 1);
    let e2 = en.subrange(0, k + 2);
    let o2 = outs.push(out);
    assert forall|a: int|
        #![trigger o2[a]]
        0 <= a < o2.len() implies s0.stage_yields_with(
        e2[a] as int,
        s0.stage_files(e2[a] as int).out_filename,
        o2[a],
    ) && post.thread_step(s0, e2[a + 1] as int, o2[a]) by {
        if a < k {
            assert(o2[a] == outs[a]);
            assert(e2[a] == e1[a] && e2[a + 1] == e1[a + 1]);
            assert(en[a + 1] < en[k + 1]);
            assert(post.stages@[en[a + 1] as int] == pre.stages@[en[a + 1] as int]);
            assert(pre.thread_step(s0, e1[a + 1] as int, outs[a]));
        } else {
            assert(o2[a] == out);
        }
    }
}

impl OpInterface for ChainedOps {
    closed spec fn op_label(&self) -> Seq<char> {
        self.name@
    }

    /// With no enabled member the chain writes no file; otherwise it returns
    /// what its last enabled member returns with the chain's output
    /// specification, when that is a location, in place of the member's.
    open spec fn yields(&self, out: &ActualFile) -> bool {
        &&& (forall|i: int| 0 <= i < self.stage_count() ==> !#[trigger] self.stage_enabled(i))
            ==> *out is NoActualFile
        &&& forall|i: int|
            #[trigger] self.is_last_enabled(i) ==> self.stage_yields_with(
                i,
                self.effective_output(i),
                *out,
            )
    }

    /// A run keeps the members, their activation and whether their input is
    /// preset, and leaves each disabled member as it was: a disabled member
    /// is never run.  With no enabled member it returns no file.  After a
    /// successful run the members hold what they ran with (see
    /// [ChainedOps::threaded]).
    open spec fn ran(&self, before: &Self, r: &Result<ActualFile, SubProcError>) -> bool {
        &&& self.stage_count() == before.stage_count()
        &&& forall|i: int|
            0 <= i < before.stage_count() ==> #[trigger] self.stage_enabled(i) == before.stage_enabled(i)
                && self.stage_preset(i) == before.stage_preset(i)
        &&& forall|i: int|
            0 <= i < before.stage_count() && !before.stage_enabled(i) ==> #[trigger] self.stage_same(
                *before,
                i,
            )
        &&& (forall|i: int| 0 <= i < before.stage_count() ==> !#[trigger] before.stage_enabled(i))
            ==> (*r matches Ok(ActualFile::NoActualFile))
        &&& r is Ok ==> self.threaded(*before)
        &&& (*r matches Err(e) ==> run_error(e))
    }

    fn label(&self) -> (r: String) {
        self.name.clone()
    }

    fn set_label(&mut self, new_label: &str) {
        self.name = new_label.to_owned();
    }

    /// Executes the enabled members in chain order.  The chain's input files
    /// become the first enabled member's, and the chain's output location
    /// the last enabled member's; each member's output paths become the next
    /// member's input unless that member's input was set explicitly.  Each
    /// output is kept until the next member has run.
    fn execute<E: OsRun>(&mut self, executor: &E, cwd: &Option<String>) -> (r: Result<
        ActualFile,
        SubProcError,
    >) {
        let enabled = self.enabled_stages();
        if enabled.len() == 0 {
            return Ok(ActualFile::NoActualFile);
        }
        let ghost s0 = *self;
        proof {
            assert(enabled@.contains(enabled@[0]));
            assert(enabled@.contains(enabled@[enabled@.len() - 1]));
        }
        assert(self.stages@.len() == self.stages.len());
        let first = enabled[0];
        let last = enabled[enabled.len() - 1];
        proof {
            assert(s0.is_last_enabled(last as int)) by {
                assert forall|j: int| last < j < s0.stage_count() implies !#[trigger] s0.stage_enabled(j) by {
                    if s0.stage_enabled(j) {
                        assert(s0.stage_enabled(j) <==> enabled@.contains(j as usize));
                        assert(enabled@.contains(j as usize));
                        let a = choose|a: int| 0 <= a < enabled@.len() && enabled@[a] == j as usize;
                        assert(enabled@[a] as int == j);
                        if a < enabled@.len() - 1 {
                            assert(enabled@[a] < enabled@[enabled@.len() - 1]);
                        }
                    }
                }
            }
        }
        let ninp = self.files.inp_filenames.len();
        if ninp > 0 {
            let inps = crate::files::copy_file_args(&self.files.inp_filenames);
            let st = &mut self.stages[first];
            st.op.set_input_file(&inps[0]);
            assert(st.op.files().inp_filenames@ =~= inps@.subrange(0, 1));
            let mut k: usize = 1;
            while k < ninp
                invariant
                    1 <= k <= ninp,
                    inps@.len() == ninp,
                    inps@ == s0.files.inp_filenames@,
                    st.op.files().inp_filenames@ == inps@.subrange(0, k as int),
                    st.op.files().out_filename == s0.stages@[first as int].op.files().out_filename,
                    st.op.same_kind(&s0.stages@[first as int].op),
                    st.active == s0.stages@[first as int].active,
                    st.preset == s0.stages@[first as int].preset,
                decreases ninp - k,
            {
                st.op.add_input_file(&inps[k]);
                assert(st.op.files().inp_filenames@ =~= inps@.subrange(0, k + 1));
                k = k + 1;
            }
            assert(inps@.subrange(0, k as int) =~= inps@);
        }
        let tgtdir = resolve_dir(cwd, &self.files.in_dir);
        if self.files.has_explicit_output_file() {
            let o = self.files.out_filename.clone();
            self.stages[last].op.set_output_file(&o);
        }
        let ghost s1 = *self;
        proof {
            assert(s1.stages@[last as int].op.files().out_filename == s0.effective_output(last as int));
            assert(s1.stages@[last as int].op.kind() == s0.stages@[last as int].op.kind());
        }
        proof {
            assert forall|i: int| 0 <= i < s0.stages@.len() implies (#[trigger] s1.stages@[i]).active
                == s0.stages@[i].active && s1.stages@[i].preset == s0.stages@[i].preset
                && s1.stages@[i].op.kind() == s0.stages@[i].op.kind()
                && (i != last ==> s1.stages@[i].op.files().out_filename == s0.stages@[i].op.files().out_filename)
                && (i != first ==> s1.stages@[i].op.files().inp_filenames@ == s0.stages@[i].op.files().inp_filenames@)
                && (i != first && i != last ==> s1.stages@[i] == s0.stages@[i]) by {}
        }
        let r = self.execute_chain(executor, &tgtdir, &enabled);
        proof {
            assert forall|i: int|
                0 <= i < s0.stage_count() && !s0.stage_enabled(i) implies #[trigger] self.stage_same(
                s0,
                i,
            ) by {
                assert(!enabled@.contains(i as usize));
                assert(s1.stages@[i] == s0.stages@[i]);
            }
            if r is Ok {
                let outs = choose|outs: Seq<ActualFile>| #[trigger] chain_threaded(s1, *self, enabled@, outs);
                lemma_execute_ran(s0, s1, *self, enabled@, outs);
            }
        }
        r
    }
}

impl ChainedOpRef {
    /// Adds an argument to this member (a local call takes none, and is left
    /// as it is).
    pub fn push_arg(&self, ops: &mut ChainedOps, arg: &str)
        requires
            self.index() < old(ops).stage_count(),
        ensures
            final(ops).stage_count() == old(ops).stage_count(),
            forall|i: int| 0 <= i < old(ops).stage_count() && i != self.index() ==> final(ops).stage_same(*old(ops), i),
            final(ops).stage_files(self.index()) == old(ops).stage_files(self.index()),
            final(ops).stage_enabled(self.index()) == old(ops).stage_enabled(self.index()),
            final(ops).stage_preset(self.index()) == old(ops).stage_preset(self.index()),
    {
        ops.stages[self.opidx].op.push_arg(arg);
    }

    /// Enables or disables this member; a disabled member is skipped when the
    /// chain is executed.
    pub fn active(&self, ops: &mut ChainedOps, state: &Activation)
        requires
            self.index() < old(ops).stage_count(),
        ensures
            final(ops).stage_count() == old(ops).stage_count(),
            forall|i: int| 0 <= i < old(ops).stage_count() && i != self.index() ==> final(ops).stage_same(*old(ops), i),
            final(ops).stage_enabled(self.index()) == (*state is Enabled),
            final(ops).stage_files(self.index()) == old(ops).stage_files(self.index()),
            final(ops).stage_preset(self.index()) == old(ops).stage_preset(self.index()),
    {
        ops.stages[self.opidx].active = *state;
    }

    /// Sets the directory of this member: beneath the chain's directory, or
    /// in place of it when absolute.
    pub fn set_dir(&self, ops: &mut ChainedOps, tgtdir: &str)
        requires
            self.index() < old(ops).stage_count(),
        ensures
            final(ops).stage_count() == old(ops).stage_count(),
            forall|i: int| 0 <= i < old(ops).stage_count() && i != self.index() ==> final(ops).stage_same(*old(ops), i),
            final(ops).stage_files(self.index()).in_dir matches Some(d) && d@ == tgtdir@,
            final(ops).stage_files(self.index()).inp_filenames@ == old(ops).stage_files(self.index()).inp_filenames@,
            final(ops).stage_files(self.index()).out_filename == old(ops).stage_files(self.index()).out_filename,
            final(ops).stage_enabled(self.index()) == old(ops).stage_enabled(self.index()),
            final(ops).stage_preset(self.index()) == old(ops).stage_preset(self.index()),
    {
        ops.stages[self.opidx].op.set_dir(tgtdir);
    }

    /// Makes this file the member's only input; the previous member's output
    /// will no longer replace it.
    pub fn set_input_file(&self, ops: &mut ChainedOps, inp_fname: &FileArg)
        requires
            self.index() < old(ops).stage_count(),
        ensures
            final(ops).stage_count() == old(ops).stage_count(),
            forall|i: int| 0 <= i < old(ops).stage_count() && i != self.index() ==> final(ops).stage_same(*old(ops), i),
            final(ops).stage_files(self.index()).inp_filenames@ == seq![*inp_fname],
            final(ops).stage_files(self.index()).out_filename == old(ops).stage_files(self.index()).out_filename,
            final(ops).stage_files(self.index()).in_dir == old(ops).stage_files(self.index()).in_dir,
            final(ops).stage_enabled(self.index()) == old(ops).stage_enabled(self.index()),
            final(ops).stage_preset(self.index()),
    {
        let st = &mut ops.stages[self.opidx];
        st.op.set_input_file(inp_fname);
        st.preset = true;
    }

    /// Adds an input file to this member; as with
    /// [ChainedOpRef::set_input_file], the previous member's output will no
    /// longer replace its inputs.
    pub fn add_input_file(&self, ops: &mut ChainedOps, inp_fname: &FileArg)
        requires
            self.index() < old(ops).stage_count(),
        ensures
            final(ops).stage_count() == old(ops).stage_count(),
            forall|i: int| 0 <= i < old(ops).stage_count() && i != self.index() ==> final(ops).stage_same(*old(ops), i),
            final(ops).stage_files(self.index()).inp_filenames@ == old(ops).stage_files(self.index()).inp_filenames@.push(*inp_fname),
            final(ops).stage_files(self.index()).out_filename == old(ops).stage_files(self.index()).out_filename,
            final(ops).stage_files(self.index()).in_dir == old(ops).stage_files(self.index()).in_dir,
            final(ops).stage_enabled(self.index()) == old(ops).stage_enabled(self.index()),
            final(ops).stage_preset(self.index()),
    {
        let st = &mut ops.stages[self.opidx];
        st.op.add_input_file(inp_fname);
        st.preset = true;
    }

    /// True when this member has one or more input files.
    pub fn has_input_file(&self, ops: &ChainedOps) -> (r: bool)
        requires
            self.index() < ops.stage_count(),
        ensures
            r == (ops.stage_files(self.index()).inp_filenames@.len() > 0),
    {
        ops.stages[self.opidx].op.has_input_file()
    }

    /// Sets this member's output file; for the last member, a chain output
    /// location takes precedence.
    pub fn set_output_file(&self, ops: &mut ChainedOps, out_fname: &FileArg)
        requires
            self.index() < old(ops).stage_count(),
        ensures
            final(ops).stage_count() == old(ops).stage_count(),
            forall|i: int| 0 <= i < old(ops).stage_count() && i != self.index() ==> final(ops).stage_same(*old(ops), i),
            final(ops).stage_files(self.index()).out_filename == *out_fname,
            final(ops).stage_files(self.index()).inp_filenames@ == old(ops).stage_files(self.index()).inp_filenames@,
            final(ops).stage_files(self.index()).in_dir == old(ops).stage_files(self.index()).in_dir,
            final(ops).stage_enabled(self.index()) == old(ops).stage_enabled(self.index()),
            final(ops).stage_preset(self.index()) == old(ops).stage_preset(self.index()),
    {
        ops.stages[self.opidx].op.set_output_file(out_fname);
    }

    /// True when this member's output file is an explicit location.
    pub fn has_explicit_output_file(&self, ops: &ChainedOps) -> (r: bool)
        requires
            self.index() < ops.stage_count(),
        ensures
            r == ops.stage_files(self.index()).explicit_output(),
    {
        ops.stages[self.opidx].op.has_explicit_output_file()
    }
}

} // verus!
