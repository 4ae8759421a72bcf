use chainsop::{
    ActualFile, Activation, ChainedOps, EnvSpec, ExeFileSpec, Executable, Executor, FileArg,
    FileCall, FilesPrep, OpInterface, OsRun, OsRunResult, SubProcOperation, TempFile,
};
use std::cell::RefCell;
use std::path::Path;
use std::rc::Rc;

#[derive(Clone, Debug, PartialEq)]
struct Call {
    label: String,
    args: Vec<String>,
    dir: Option<String>,
}

/// Records each command and otherwise behaves as a dry run.
struct Recorder(RefCell<Vec<Call>>);

impl Recorder {
    fn new() -> Recorder {
        Recorder(RefCell::new(vec![]))
    }
}

impl OsRun for Recorder {
    fn run_executable(
        &self,
        label: &str,
        _exe_file: &str,
        args: &Vec<String>,
        _exe_env: &EnvSpec,
        fromdir: &Option<String>,
    ) -> OsRunResult {
        self.0.borrow_mut().push(Call { label: label.to_string(), args: args.clone(), dir: fromdir.clone() });
        OsRunResult::Good
    }
    fn run_function(
        &self,
        name: &str,
        _call: &Rc<Box<dyn FileCall>>,
        _inpfiles: &ActualFile,
        _outfile: &ActualFile,
        _fromdir: &Option<String>,
    ) -> OsRunResult {
        OsRunResult::RunError(format!("no call {}", name))
    }
    fn glob_search(&self, globpat: &String) -> Result<Vec<String>, String> {
        Executor::DryRun.glob_search(globpat)
    }
    fn mk_tempfile(&self, suffix: &String) -> Result<TempFile, String> {
        Executor::DryRun.mk_tempfile(suffix)
    }
}

fn sv(v: &[&str]) -> Vec<String> {
    v.iter().map(|s| s.to_string()).collect()
}

fn stage(name: &str, out: &FileArg) -> SubProcOperation {
    let mut op = SubProcOperation::new(&Executable::new(name, ExeFileSpec::Append, ExeFileSpec::Append));
    op.set_output_file(out);
    op
}

#[test]
fn compile_link_test_grep_chain() {
    let cc = Executable::new("cc", ExeFileSpec::Append, ExeFileSpec::option("-o"))
        .push_arg("-c")
        .push_arg("-O0");
    let linker = Executable::new("cc", ExeFileSpec::Append, ExeFileSpec::option("-o")).push_arg("--print-map");
    let mut ops = ChainedOps::new("build myapp");

    let foo = ops.push_op(&SubProcOperation::new(&cc));
    foo.set_dir(&mut ops, "src/");
    foo.set_input_file(&mut ops, &FileArg::loc("foo.c"));
    foo.set_output_file(&mut ops, &FileArg::temp(".o"));

    let mut bar = SubProcOperation::new(&cc);
    bar.set_dir("src/");
    bar.set_input_file(&FileArg::loc("bar.c"));
    bar.set_output_file(&FileArg::temp(".o"));
    ops.push_op(&bar);

    let mut link = SubProcOperation::new(&linker);
    link.set_dir("build/");
    link.set_input_file(&FileArg::loc("foo.o"));
    link.add_input_file(&FileArg::loc("bar.o"));
    link.set_output_file(&FileArg::loc("myapp.exe"));
    ops.push_op(&link);

    let mut run = SubProcOperation::new(&Executable::new("bash", ExeFileSpec::Append, ExeFileSpec::NoFileUsed));
    run.set_dir("build/");
    run.set_input_file(&FileArg::loc("myapp.exe"));
    run.set_output_file(&FileArg::temp("test_out"));
    ops.push_op(&run);

    let mut grep = SubProcOperation::new(&Executable::new("grep", ExeFileSpec::Append, ExeFileSpec::NoFileUsed));
    grep.push_arg("Passed");
    grep.set_input_file(&FileArg::glob_in("build/", "*.test_out"));
    ops.push_op(&grep);

    let rec = Recorder::new();
    let result = ops.execute(&rec, &None);
    assert!(matches!(result, Ok(ActualFile::NoActualFile)));
    let calls = rec.0.into_inner();
    assert_eq!(calls.len(), 5);
    let labels: Vec<String> = calls.iter().map(|c| c.label.clone()).collect();
    assert_eq!(labels, sv(&["cc", "cc", "cc", "bash", "grep"]));
    let dirs: Vec<Option<String>> = calls.iter().map(|c| c.dir.clone()).collect();
    assert_eq!(
        dirs,
        vec![Some("src/".to_string()), Some("src/".to_string()), Some("build/".to_string()), Some("build/".to_string()), None]
    );
    // compile: base args, the output option with its temporary file, then the source
    assert_eq!(calls[0].args[..3].to_vec(), sv(&["-c", "-O0", "-o"]));
    let foo_o = calls[0].args[3].clone();
    assert!(foo_o.ends_with(".o"));
    assert!(!Path::new(&foo_o).exists(), "intermediate temp file was not removed");
    assert_eq!(calls[0].args[4], "foo.c");
    assert_eq!(calls[1].args[4], "bar.c");
    assert!(!Path::new(&calls[1].args[3]).exists());
    assert_eq!(calls[2].args, sv(&["--print-map", "-o", "myapp.exe", "foo.o", "bar.o"]));
    assert_eq!(calls[3].args, sv(&["myapp.exe"]));
    // the dry-run glob finds nothing, so grep gets no paths
    assert_eq!(calls[4].args, sv(&["Passed"]));
}

#[test]
fn option_with_equals_output_comes_first() {
    let exe = Executable::new("cc", ExeFileSpec::Append, ExeFileSpec::option("-file="));
    let mut op = SubProcOperation::new(&exe);
    op.push_arg("-c");
    op.set_input_file(&FileArg::loc("in.c"));
    op.set_output_file(&FileArg::loc("out.o"));
    let rec = Recorder::new();
    op.execute(&rec, &None).unwrap();
    assert_eq!(rec.0.borrow()[0].args, sv(&["-c", "-file=out.o", "in.c"]));

    // Without the trailing '=' the option and its value are two arguments.
    let mut op2 = SubProcOperation::new(&Executable::new("cc", ExeFileSpec::Append, ExeFileSpec::option("-o")));
    op2.set_input_file(&FileArg::loc("a.c"));
    op2.add_input_file(&FileArg::loc("b.c"));
    op2.set_output_file(&FileArg::loc("out.o"));
    let rec2 = Recorder::new();
    op2.execute(&rec2, &None).unwrap();
    assert_eq!(rec2.0.borrow()[0].args, sv(&["-o", "out.o", "a.c", "b.c"]));

    // An input option does not move the output first; several files join with commas.
    let mut op3 = SubProcOperation::new(&Executable::new("t", ExeFileSpec::option("--in="), ExeFileSpec::option("-o")));
    op3.set_input_file(&FileArg::loc("a"));
    op3.set_output_file(&FileArg::loc("o"));
    let rec3 = Recorder::new();
    op3.execute(&rec3, &None).unwrap();
    assert_eq!(rec3.0.borrow()[0].args, sv(&["--in=a", "-o", "o"]));
}

#[test]
fn preset_input_is_kept() {
    let mut ops = ChainedOps::new("preset");
    ops.push_op(&stage("first", &FileArg::loc("one.out")));
    let middle = ops.push_op(&stage("middle", &FileArg::loc("two.out")));
    middle.set_input_file(&mut ops, &FileArg::loc("fixed"));
    ops.push_op(&stage("last", &FileArg::loc("three.out")));
    let rec = Recorder::new();
    let r = ops.execute(&rec, &None).unwrap();
    assert_eq!(r.to_path(&None), Ok("three.out".to_string()));
    let calls = rec.0.into_inner();
    assert_eq!(calls[1].args, sv(&["fixed", "two.out"]));
    assert_eq!(calls[2].args, sv(&["two.out", "three.out"]));
}

#[test]
fn disabled_stage_is_skipped() {
    let mut ops = ChainedOps::new("skip");
    ops.set_input_file(&FileArg::loc("start"));
    ops.push_op(&stage("s1", &FileArg::loc("o1")));
    let s2 = ops.push_op(&stage("s2", &FileArg::loc("o2")));
    ops.push_op(&stage("s3", &FileArg::loc("o3")));
    ops.push_op(&stage("s4", &FileArg::loc("o4")));
    s2.active(&mut ops, &Activation::Disabled);
    assert_eq!(ops.enabled_stages(), vec![0, 2, 3]);
    let rec = Recorder::new();
    ops.execute(&rec, &None).unwrap();
    let calls = rec.0.into_inner();
    let labels: Vec<String> = calls.iter().map(|c| c.label.clone()).collect();
    assert_eq!(labels, sv(&["s1", "s3", "s4"]));
    assert_eq!(calls[0].args, sv(&["start", "o1"]));
    assert_eq!(calls[1].args, sv(&["o1", "o3"]));
    assert_eq!(calls[2].args, sv(&["o3", "o4"]));
}

#[test]
fn re_execution_uses_new_temporaries() {
    let mut ops = ChainedOps::new("again");
    ops.set_input_file(&FileArg::loc("src"));
    ops.set_output_file(&FileArg::loc("dest"));
    ops.push_op(&stage("a", &FileArg::temp(".t1")));
    ops.push_op(&stage("b", &FileArg::temp(".t2")));
    ops.push_op(&stage("c", &FileArg::loc("ignored")));
    let r1 = Recorder::new();
    let r2 = Recorder::new();
    ops.execute(&r1, &None).unwrap();
    ops.execute(&r2, &None).unwrap();
    let c1 = r1.0.into_inner();
    let c2 = r2.0.into_inner();
    assert_eq!(c1.len(), 3);
    assert_eq!(c2.len(), 3);
    for (x, y) in c1.iter().zip(c2.iter()) {
        assert_eq!(x.label, y.label);
        assert_eq!(x.args.len(), y.args.len());
    }
    assert_ne!(c1[0].args[1], c2[0].args[1]);
    assert_ne!(c1[1].args[1], c2[1].args[1]);
    assert_eq!(c1[1].args[0], c1[0].args[1]);
    assert_eq!(c2[2].args, vec![c2[1].args[1].clone(), "dest".to_string()]);
    for c in c1.iter().chain(c2.iter()) {
        for a in &c.args {
            if a.ends_with(".t1") || a.ends_with(".t2") {
                assert!(!Path::new(a).exists());
            }
        }
    }
}

#[test]
fn threading_multiple_outputs_keeps_order() {
    let mut ops = ChainedOps::new("thread");
    ops.push_op(&stage("a", &FileArg::loc("x")));
    ops.push_op(&stage("b", &FileArg::loc("y")));
    ops.thread_into(1, &sv(&["p", "q", "r"]));
    let rec = Recorder::new();
    let mut only_b = ChainedOps::new("b only");
    let h = only_b.push_op(&stage("b", &FileArg::loc("y")));
    only_b.thread_into(0, &sv(&["p", "q", "r"]));
    assert!(h.has_input_file(&only_b));
    only_b.execute(&rec, &None).unwrap();
    assert_eq!(rec.0.borrow()[0].args, sv(&["p", "q", "r", "y"]));
    // an explicitly set input is not replaced, nor is anything set by no paths
    let mut kept = ChainedOps::new("kept");
    let k = kept.push_op(&stage("k", &FileArg::loc("z")));
    k.set_input_file(&mut kept, &FileArg::loc("mine"));
    kept.thread_into(0, &sv(&["p"]));
    kept.thread_into(0, &vec![]);
    let rec2 = Recorder::new();
    kept.execute(&rec2, &None).unwrap();
    assert_eq!(rec2.0.borrow()[0].args, sv(&["mine", "z"]));
}
