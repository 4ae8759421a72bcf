use chainsop::{
    ActualFile, Activation, ArgsCall, ChainedOps, EnvSpec, ExeFileSpec, Executable, Executor,
    FileArg, FileCall, FileRef, FilesPrep, FunctionOperation, OpInterface, OsRun, OsRunResult,
    SubProcOperation, SubProcError, TempFile, execute_here,
};
use std::cell::RefCell;
use std::path::Path;
use std::rc::Rc;

#[derive(Clone, Debug, PartialEq)]
struct RunExec {
    name: String,
    exe: String,
    args: Vec<String>,
    env: EnvSpec,
    dir: Option<String>,
}

#[derive(Clone, Debug, PartialEq)]
struct RunFunc {
    fname: String,
    inpfiles: Vec<String>,
    outfile: Option<String>,
    dir: Option<String>,
}

#[derive(Clone, Debug, PartialEq)]
enum TestOp {
    SPO(RunExec),
    FO(RunFunc),
}

struct TestCollector(RefCell<Vec<TestOp>>);

impl TestCollector {
    fn new() -> TestCollector {
        TestCollector(RefCell::new(vec![]))
    }
}

impl OsRun for TestCollector {
    fn run_executable(
        &self,
        label: &str,
        exe_file: &str,
        args: &Vec<String>,
        exe_env: &EnvSpec,
        fromdir: &Option<String>,
    ) -> OsRunResult {
        self.0.borrow_mut().push(TestOp::SPO(RunExec {
            name: label.to_string(),
            exe: exe_file.to_string(),
            args: args.clone(),
            env: exe_env.clone(),
            dir: fromdir.clone(),
        }));
        OsRunResult::Good
    }
    fn run_function(
        &self,
        name: &str,
        _call: &Rc<Box<dyn FileCall>>,
        inpfiles: &ActualFile,
        outfile: &ActualFile,
        fromdir: &Option<String>,
    ) -> OsRunResult {
        self.0.borrow_mut().push(TestOp::FO(RunFunc {
            fname: name.to_string(),
            inpfiles: inpfiles.to_paths(&None).unwrap(),
            outfile: outfile.to_path(&None).ok(),
            dir: fromdir.clone(),
        }));
        OsRunResult::Good
    }
    fn glob_search(&self, _globpat: &String) -> Result<Vec<String>, String> {
        Err("glob_search not implemented for TestCollector".to_string())
    }
    fn mk_tempfile(&self, suffix: &String) -> Result<TempFile, String> {
        Executor::DryRun.mk_tempfile(suffix)
    }
}

struct Uncalled;

impl FileCall for Uncalled {
    fn call(&self, _dir: &String, _inp: &ActualFile, _out: &ActualFile) -> Result<(), String> {
        panic!("not called during test")
    }
}

struct ShowAll;

impl ArgsCall for ShowAll {
    fn add_file_args(
        &self,
        args: &mut Vec<String>,
        cwd: &Option<String>,
        outf: &ActualFile,
    ) -> Result<(), String> {
        args.push(format!("+({:?}){:?}", cwd, outf));
        Ok(())
    }
}

struct FinishOutArg;

impl ArgsCall for FinishOutArg {
    fn add_file_args(
        &self,
        args: &mut Vec<String>,
        _cwd: &Option<String>,
        outf: &ActualFile,
    ) -> Result<(), String> {
        match outf.to_paths(&None) {
            Ok(ps) => {
                for pth in ps {
                    args.push(format!("out:{:?}", pth));
                }
                Ok(())
            }
            Err(e) => Err(format!("{:?}", e)),
        }
    }
}

fn present(p: &str) -> bool {
    Path::new(p).exists()
}

fn ext(p: &str) -> Option<String> {
    Path::new(p).extension().map(|e| e.to_string_lossy().into_owned())
}

fn spo(t: &TestOp) -> RunExec {
    match t {
        TestOp::SPO(r) => r.clone(),
        TestOp::FO(_) => panic!("expected a SubProcOperation"),
    }
}

#[test]
fn test_append_append() {
    let exe = Executable::new("test-cmd", ExeFileSpec::Append, ExeFileSpec::Append);
    let mut op = SubProcOperation::new(&exe);
    op.set_input_file(&FileArg::loc("inpfile.txt"));
    op.set_output_file(&FileArg::temp(".out"));
    op.push_arg("-a");
    op.clear_env();
    op.set_env("env1", "env1val");
    op.push_arg("a-arg-value");
    op.set_env("env2", "env2val");
    op.push_arg("-b");
    op.prepend_env("env2", "env2first", ";++");
    op.set_env("env3", "env3val");
    op.append_env("env2", "env2last", ":");
    op.unset_env("wild");
    op.unset_env("env1");
    let mut op = op.clone();

    let executor = TestCollector::new();
    let result = execute_here(&mut op, &executor);
    assert!(
        match result {
            Ok(ActualFile::SingleFile(FileRef::TempFile(ref tf))) => present(tf.path()),
            _ => false,
        },
        "Unexpected result: {:?}",
        result
    );
    let mut collected = executor.0.into_inner();
    assert_eq!(collected.len(), 1);
    let mut re = spo(&collected[0]);
    // The last arg is an assigned tempfile
    let output_tmpfile = re.args.pop().unwrap();
    assert!(present(&output_tmpfile));
    collected[0] = TestOp::SPO(re);
    assert_eq!(
        collected,
        vec![TestOp::SPO(RunExec {
            name: "test-cmd".into(),
            exe: "test-cmd".into(),
            args: vec!["-a".into(), "a-arg-value".into(), "-b".into(), "inpfile.txt".into()],
            env: EnvSpec::BlankEnv
                .add("env1", "env1val")
                .add("env2", "env2val")
                .prepend("env2", "env2first", ";++")
                .add("env3", "env3val")
                .append("env2", "env2last", ":")
                .rmv("wild")
                .rmv("env1"),
            dir: None,
        })]
    );
}

#[test]
fn test_append_option() {
    let exe = Executable::new("test-cmd", ExeFileSpec::Append, ExeFileSpec::Option("-o".into()));
    let mut op = SubProcOperation::new(&exe);
    op.set_input_file(&FileArg::loc("inpfile.txt"));
    op.set_output_file(&FileArg::loc("outfile.out"));
    op.set_dir("sub/dir");
    op.push_arg("-a");
    op.push_arg("a-arg-value");
    op.add_input_file(&FileArg::loc("inp2.foo"));
    op.push_arg("-b");

    let expected_args: Vec<String> =
        ["-a", "a-arg-value", "-b", "-o", "outfile.out", "inpfile.txt", "inp2.foo"]
            .iter()
            .map(|s| s.to_string())
            .collect();
    let executor = TestCollector::new();
    let result = op.execute(&executor, &Some("/other/location".to_string()));
    assert!(match result {
        Ok(ActualFile::SingleFile(FileRef::StaticFile(p))) => p == "outfile.out",
        _ => false,
    });
    assert_eq!(
        executor.0.into_inner(),
        vec![TestOp::SPO(RunExec {
            name: "test-cmd".into(),
            exe: "test-cmd".into(),
            args: expected_args.clone(),
            env: EnvSpec::StdEnv,
            dir: Some("/other/location/sub/dir".to_string()),
        })]
    );

    // Re-run op to make sure it can be re-used
    let exec2 = TestCollector::new();
    let result2 = op.execute(&exec2, &Some("loc".to_string()));
    assert!(match result2 {
        Ok(ActualFile::SingleFile(FileRef::StaticFile(p))) => p == "outfile.out",
        _ => false,
    });
    assert_eq!(
        exec2.0.into_inner(),
        vec![TestOp::SPO(RunExec {
            name: "test-cmd".into(),
            exe: "test-cmd".into(),
            args: expected_args,
            env: EnvSpec::StdEnv,
            dir: Some("loc/sub/dir".to_string()),
        })]
    );
}

#[test]
fn test_path_and_new_exe() {
    let mut op = SubProcOperation::new(&Executable::new(
        "test-cmd",
        ExeFileSpec::NoFileUsed,
        ExeFileSpec::NoFileUsed,
    ));
    op.set_dir("sub/dir");
    op.push_arg("-a");
    let mut op = op.clone();
    op.set_executable("simple");

    let executor = TestCollector::new();
    let result = op.execute(&executor, &None);
    assert!(matches!(result, Ok(ActualFile::NoActualFile)));
    assert_eq!(
        executor.0.into_inner(),
        vec![TestOp::SPO(RunExec {
            name: "simple".into(),
            exe: "simple".into(),
            args: vec!["-a".to_string()],
            env: EnvSpec::StdEnv,
            dir: Some("sub/dir".to_string()),
        })]
    );
}

#[test]
fn test_func_with_files() {
    let mut op = FunctionOperation::calling("f1", Box::new(Uncalled));
    op.set_input_file(&FileArg::loc("inpfile.txt"));
    op.set_output_file(&FileArg::temp(".out"));
    let mut op = op.clone();

    let executor = TestCollector::new();
    let result = execute_here(&mut op, &executor);
    assert!(
        match result {
            Ok(ActualFile::SingleFile(FileRef::TempFile(ref tf))) => present(tf.path()),
            _ => false,
        },
        "Unexpected result: {:?}",
        result
    );
    let mut collected = executor.0.into_inner();
    assert_eq!(collected.len(), 1);
    let out1 = match &mut collected[0] {
        TestOp::FO(rf) => {
            assert_eq!(rf.fname, "f1");
            let o = rf.outfile.clone().unwrap();
            assert!(present(&o), "Unexpected outfiles: {:?}", rf.outfile);
            rf.outfile = None;
            o
        }
        TestOp::SPO(_) => panic!("expected a FunctionOperation"),
    };
    assert_eq!(
        collected,
        vec![TestOp::FO(RunFunc {
            fname: "f1".into(),
            inpfiles: vec!["inpfile.txt".to_string()],
            outfile: None,
            dir: None,
        })]
    );

    // Re-run op to make sure it can be re-used
    let ex2 = TestCollector::new();
    let result2 = op.execute(&ex2, &Some("/place".to_string()));
    assert!(
        match result2 {
            Ok(ActualFile::SingleFile(FileRef::TempFile(ref tf))) => present(tf.path()),
            _ => false,
        },
        "Unexpected result: {:?}",
        result2
    );
    let mut collected2 = ex2.0.into_inner();
    assert_eq!(collected2.len(), 1);
    match &mut collected2[0] {
        TestOp::FO(rf) => {
            assert_eq!(rf.fname, "f1");
            let o = rf.outfile.clone().unwrap();
            assert!(present(&o) && o != out1, "Unexpected outfiles: {:?}", rf.outfile);
            rf.outfile = None;
        }
        TestOp::SPO(_) => panic!("expected a FunctionOperation"),
    }
    assert_eq!(
        collected2,
        vec![TestOp::FO(RunFunc {
            fname: "f1".into(),
            inpfiles: vec!["inpfile.txt".to_string()],
            outfile: None,
            dir: Some("/place".into()),
        })]
    );
}

#[test]
fn test_func_with_files_and_subdir() {
    let mut op = FunctionOperation::calling("f2", Box::new(Uncalled));
    op.set_input_file(&FileArg::loc("inpfile.txt"));
    op.set_output_file(&FileArg::loc("f2.out"));
    op.set_dir("sub");
    let mut op = op.clone();

    let executor = TestCollector::new();
    let result = execute_here(&mut op, &executor);
    match result {
        Ok(ActualFile::SingleFile(FileRef::StaticFile(ref tf))) => assert_eq!(tf, "f2.out"),
        _ => (),
    };
    assert_eq!(
        executor.0.into_inner(),
        vec![TestOp::FO(RunFunc {
            fname: "f2".into(),
            inpfiles: vec!["inpfile.txt".to_string()],
            outfile: Some("f2.out".into()),
            dir: Some("sub".into()),
        })]
    );
}

fn check_chain_run(
    collected: &mut Vec<TestOp>,
    topdir: &str,
    builddir: &str,
) -> (String, String, String) {
    assert_eq!(collected.len(), 4);
    let mut re0 = spo(&collected[0]);
    let out0 = re0.args.pop().unwrap();
    assert!(!present(&out0), "intermediate temp file #0 {:?} did not get cleaned up!", out0);
    assert_eq!(ext(&out0), Some("out".to_string()));
    collected[0] = TestOp::SPO(re0);

    let mut re1 = spo(&collected[1]);
    assert_eq!(re1.args[re1.args.len() - 2], out0);
    let out1 = re1.args.pop().unwrap();
    assert!(!present(&out1), "intermediate temp file #1 {:?} did not get cleaned up!", out1);
    assert_eq!(ext(&out1), Some("o2".to_string()));
    re1.args.pop();
    collected[1] = TestOp::SPO(re1);

    let out2 = match &mut collected[2] {
        TestOp::FO(rf) => {
            assert_ne!(rf.inpfiles, vec![out1.clone()]);
            assert_eq!(rf.inpfiles, vec!["not replaced".to_string()]);
            let o = rf.outfile.clone().unwrap();
            assert!(!present(&o), "intermediate temp file #2 {:?} did not get cleaned up!", o);
            assert_eq!(ext(&o), Some("fnout".to_string()));
            rf.inpfiles = vec![];
            rf.outfile = None;
            o
        }
        TestOp::SPO(_) => panic!("Expected third op to be a FunctionOperation"),
    };

    let mut re3 = spo(&collected[3]);
    assert_eq!(re3.args[re3.args.len() - 2], out2);
    let outspec = re3.args.pop().unwrap();
    re3.args.pop();
    re3.args.push(outspec);
    collected[3] = TestOp::SPO(re3);

    let sv = |v: &[&str]| v.iter().map(|s| s.to_string()).collect::<Vec<String>>();
    assert_eq!(
        *collected,
        vec![
            TestOp::SPO(RunExec {
                name: "test-cmd".into(),
                exe: "test-cmd".into(),
                args: sv(&["-a", "a-arg-value", "-b", "orig.inp", "other_inpfile"]),
                env: EnvSpec::StdEnv,
                dir: Some(topdir.to_string()),
            }),
            TestOp::SPO(RunExec {
                name: "cmd2".into(),
                exe: "cmd2".into(),
                args: sv(&["-D", "DVAL", "-a2", "--input"]),
                env: EnvSpec::StdEnv,
                dir: Some(builddir.to_string()),
            }),
            TestOp::FO(RunFunc {
                fname: "a func".into(),
                inpfiles: vec![],
                outfile: None,
                dir: Some(topdir.to_string()),
            }),
            TestOp::SPO(RunExec {
                name: "finish".into(),
                exe: "finish".into(),
                args: sv(&["--last", "op", "-i", "out:\"final.out\""]),
                env: EnvSpec::StdEnv,
                dir: Some(builddir.to_string()),
            }),
        ]
    );
    (out0, out1, out2)
}

#[test]
fn test_chain() {
    let mut ops = ChainedOps::new("test chain");
    ops.set_input_file(&FileArg::loc("orig.inp"));
    ops.set_output_file(&FileArg::loc("final.out"));
    let exe = Executable::new("test-cmd", ExeFileSpec::Append, ExeFileSpec::Append);
    let mut op = SubProcOperation::new(&exe);
    // set the input file, but the chain will override this
    op.set_input_file(&FileArg::loc("inpfile.txt"));
    op.set_output_file(&FileArg::temp(".out"));
    op.push_arg("-a");
    op.push_arg("a-arg-value");
    op.push_arg("-b");

    ops.push_op(&op);
    ops.add_input_file(&FileArg::loc("other_inpfile"));

    let mut op2 = SubProcOperation::new(&Executable::new(
        "cmd2",
        ExeFileSpec::Option("--input".into()),
        ExeFileSpec::Append,
    ));
    op2.set_output_file(&FileArg::temp(".o2"));
    op2.push_arg("-D");
    op2.push_arg("DVAL");
    let op2 = ops.push_op(&op2);
    op2.push_arg(&mut ops, "-a2");
    op2.set_dir(&mut ops, ".build");

    let op3 = ops.push_op(&op);
    op3.active(&mut ops, &Activation::Disabled);
    op3.active(&mut ops, &Activation::Enabled);
    op3.active(&mut ops, &Activation::Disabled);

    let mut fop = FunctionOperation::calling("a func", Box::new(Uncalled));
    fop.set_input_file(&FileArg::loc("not replaced"));
    fop.set_output_file(&FileArg::temp(".fnout"));
    ops.push_call(&fop);

    // A callback that takes the file in a form of its own
    let mut op4 = SubProcOperation::new(&Executable::new(
        "finish",
        ExeFileSpec::option("-i"),
        ExeFileSpec::ViaCall(Rc::new(Box::new(ShowAll))),
    ));
    op4.set_output_file(&FileArg::TBD);
    op4.push_arg("--last");
    op4.set_dir(".other");
    let op4 = ops.push_op(&op4);
    op4.active(&mut ops, &Activation::Disabled);

    let mut op5 = SubProcOperation::new(&Executable::new(
        "finish",
        ExeFileSpec::option("-i"),
        ExeFileSpec::ViaCall(Rc::new(Box::new(FinishOutArg))),
    ));
    // The output file setting here is replaced by the chain's output file.
    op5.set_output_file(&FileArg::loc("ignored"));
    op5.push_arg("--last");
    op5.set_dir(".other");
    let op5 = ops.push_op(&op5);
    op5.push_arg(&mut ops, "op");
    op5.set_dir(&mut ops, ".build");

    let xor = TestCollector::new();
    let result = ops.execute(&xor, &Some("target/loc".to_string()));
    assert!(match result {
        Ok(ActualFile::SingleFile(FileRef::StaticFile(sf))) => sf == "final.out",
        _ => false,
    });
    let mut collected = xor.0.into_inner();
    let (o0, o1, o2) = check_chain_run(&mut collected, "target/loc", "target/loc/.build");

    // Execute the chain again: it can be re-used and runs again.
    let xor2 = TestCollector::new();
    let result2 = ops.execute(&xor2, &Some("/other".to_string()));
    assert!(match result2 {
        Ok(ActualFile::SingleFile(FileRef::StaticFile(sf))) => sf == "final.out",
        _ => false,
    });
    let mut collected2 = xor2.0.into_inner();
    let (p0, p1, p2) = check_chain_run(&mut collected2, "/other", "/other/.build");
    assert_ne!(o0, p0);
    assert_ne!(o1, p1);
    assert_ne!(o2, p2);
}

#[test]
fn test_chain_empty() {
    let mut ops = ChainedOps::new("test empty chain");
    let ex = TestCollector::new();
    let result = ops.execute(&ex, &Some("target/loc".to_string()));
    match result {
        Ok(ActualFile::NoActualFile) => (),
        _ => assert!(false, "Expected no file but got {:?}", result),
    };
    assert_eq!(ex.0.into_inner().len(), 0);
}

#[test]
fn test_chain_single_op() {
    let mut ops = ChainedOps::new("test chain single");
    let exe = Executable::new("test-cmd", ExeFileSpec::Append, ExeFileSpec::Append);
    let mut op = SubProcOperation::new(&exe);
    // The chain's own input replaces this input.
    op.set_input_file(&FileArg::loc("override-in"));
    op.set_output_file(&FileArg::loc("override-out"));
    op.push_arg("-b");
    ops.push_op(&op);
    ops.set_input_file(&FileArg::loc("real-in"));
    ops.set_output_file(&FileArg::loc("real-out"));

    let ex = TestCollector::new();
    let result = execute_here(&mut ops, &ex);
    match result {
        Ok(ActualFile::SingleFile(FileRef::StaticFile(sf))) => assert_eq!(sf, "real-out"),
        _ => assert!(false, "Expected single static file 'real-out' but got {:?}", result),
    };
    assert_eq!(
        ex.0.into_inner(),
        vec![TestOp::SPO(RunExec {
            name: "test-cmd".into(),
            exe: "test-cmd".into(),
            args: vec!["-b".into(), "real-in".into(), "real-out".into()],
            env: EnvSpec::StdEnv,
            dir: None,
        })]
    );
}

#[test]
fn test_chain_op_settings() {
    let mut ops = ChainedOps::new("test chain");
    ops.set_dir("/ops/run/here");
    let exe = Executable::new("test-cmd", ExeFileSpec::Append, ExeFileSpec::Append);
    let mut op = SubProcOperation::new(&exe);
    op.set_input_file(&FileArg::loc("inpfile.txt"));
    op.set_output_file(&FileArg::temp(".out"));
    op.push_arg("-a");
    op.push_arg("a-arg-value");
    op.push_arg("-b");
    ops.push_op(&op);
    let mut op2 = SubProcOperation::new(&Executable::new(
        "cmd2",
        ExeFileSpec::Option("--input".into()),
        ExeFileSpec::Append,
    ));
    op2.set_output_file(&FileArg::temp(".o2"));
    op2.set_dir("sub/dir");
    op2.push_arg("-D");
    op2.push_arg("DVAL");
    ops.push_op(&op2);
    let fop = ops.push_call(&FunctionOperation::calling("fop", Box::new(Uncalled)));
    fop.set_output_file(&mut ops, &FileArg::loc("fop.done"));
    let flop = ops.push_call(&FunctionOperation::calling("flop", Box::new(Uncalled)));
    flop.set_output_file(&mut ops, &FileArg::loc("flop.done"));
    let mut op5 = SubProcOperation::new(&Executable::new(
        "cmdexe3",
        ExeFileSpec::Option("--input".into()),
        ExeFileSpec::Append,
    ));
    op5.set_output_file(&FileArg::loc("final.out"));
    op5.set_dir("/abs/dir");
    ops.push_op(&op5);

    let ex = TestCollector::new();
    let result = ops.execute(&ex, &Some("target/loc".to_string()));
    match result {
        Ok(actual) => {
            match actual {
                ActualFile::SingleFile(FileRef::StaticFile(ref sf)) => assert_eq!(sf, "final.out"),
                _ => assert!(false, "Expected single static file but got {:?}", actual),
            };
            assert_eq!(
                Ok("/abs/dir/final.out".to_string()),
                actual.to_path(&Some("/abs/dir".to_string()))
            )
        }
        Err(e) => assert!(false, "Err result: {:?}", e),
    };

    let mut collected = ex.0.into_inner();
    let mut re0 = spo(&collected[0]);
    let out0 = re0.args.pop().unwrap();
    assert!(!present(&out0), "intermediate temp file #0 {:?} did not get cleaned up!", out0);
    collected[0] = TestOp::SPO(re0);
    let mut re1 = spo(&collected[1]);
    assert_eq!(re1.args[re1.args.len() - 2], out0);
    let out1 = re1.args.pop().unwrap();
    assert!(!present(&out1), "intermediate temp file #1 {:?} did not get cleaned up!", out1);
    re1.args.pop();
    collected[1] = TestOp::SPO(re1);
    let re4 = spo(&collected[4]);
    assert_eq!(re4.args.last().unwrap(), "final.out");

    let sv = |v: &[&str]| v.iter().map(|s| s.to_string()).collect::<Vec<String>>();
    assert_eq!(
        collected,
        vec![
            TestOp::SPO(RunExec {
                name: "test-cmd".into(),
                exe: "test-cmd".into(),
                args: sv(&["-a", "a-arg-value", "-b", "inpfile.txt"]),
                env: EnvSpec::StdEnv,
                dir: Some("/ops/run/here".to_string()),
            }),
            TestOp::SPO(RunExec {
                name: "cmd2".into(),
                exe: "cmd2".into(),
                args: sv(&["-D", "DVAL", "--input"]),
                env: EnvSpec::StdEnv,
                dir: Some("/ops/run/here/sub/dir".to_string()),
            }),
            TestOp::FO(RunFunc {
                fname: "fop".to_string(),
                inpfiles: vec![out1],
                outfile: Some("fop.done".to_string()),
                dir: Some("/ops/run/here".into()),
            }),
            TestOp::FO(RunFunc {
                fname: "flop".to_string(),
                inpfiles: vec!["fop.done".into()],
                outfile: Some("flop.done".to_string()),
                dir: Some("/ops/run/here".into()),
            }),
            TestOp::SPO(RunExec {
                name: "cmdexe3".into(),
                exe: "cmdexe3".into(),
                args: sv(&["--input", "flop.done", "final.out"]),
                env: EnvSpec::StdEnv,
                dir: Some("/abs/dir".to_string()),
            }),
        ]
    );
}

struct Failing(OsRunResult);

impl OsRun for Failing {
    fn run_executable(
        &self,
        _label: &str,
        _exe_file: &str,
        _args: &Vec<String>,
        _exe_env: &EnvSpec,
        _fromdir: &Option<String>,
    ) -> OsRunResult {
        match &self.0 {
            OsRunResult::Good => OsRunResult::Good,
            OsRunResult::ExecFailed(e) => OsRunResult::ExecFailed(e.clone()),
            OsRunResult::ExecError(c, s) => OsRunResult::ExecError(*c, s.clone()),
            OsRunResult::RunError(e) => OsRunResult::RunError(e.clone()),
            OsRunResult::BadDirectory(p, e) => OsRunResult::BadDirectory(p.clone(), e.clone()),
        }
    }
    fn run_function(
        &self,
        _name: &str,
        _call: &Rc<Box<dyn FileCall>>,
        _inpfiles: &ActualFile,
        _outfile: &ActualFile,
        _fromdir: &Option<String>,
    ) -> OsRunResult {
        OsRunResult::RunError("callback failed".to_string())
    }
    fn glob_search(&self, _globpat: &String) -> Result<Vec<String>, String> {
        Err("no glob".to_string())
    }
    fn mk_tempfile(&self, _suffix: &String) -> Result<TempFile, String> {
        Err("no temp".to_string())
    }
}

fn plain_op() -> SubProcOperation {
    let mut op = SubProcOperation::new(&Executable::new("tool", ExeFileSpec::Append, ExeFileSpec::NoFileUsed));
    op.set_input_file(&FileArg::loc("in"));
    op
}

#[test]
fn error_variants_from_outcomes() {
    let d = Some("wd".to_string());
    let args = vec!["in".to_string()];
    let mut op = plain_op();
    assert_eq!(
        op.execute(&Failing(OsRunResult::ExecError(Some(2), "bad".into())), &d).err(),
        Some(SubProcError::ErrorRunningCmd("tool".into(), args.clone(), Some(2), d.clone(), "bad".into()))
    );
    assert_eq!(
        op.execute(&Failing(OsRunResult::ExecFailed("nope".into())), &d).err(),
        Some(SubProcError::ErrorCmdSetup("tool".into(), args.clone(), "nope".into(), d.clone()))
    );
    assert_eq!(
        op.execute(&Failing(OsRunResult::RunError("boom".into())), &d).err(),
        Some(SubProcError::ErrorExecuting("tool".into(), args.clone(), "boom".into(), d.clone()))
    );
    assert_eq!(
        op.execute(&Failing(OsRunResult::BadDirectory(".".into(), "gone".into())), &d).err(),
        Some(SubProcError::ErrorBadDirectory("tool".into(), ".".into(), "gone".into()))
    );
    let mut f = FunctionOperation::calling("fn", Box::new(Uncalled));
    assert_eq!(
        f.execute(&Failing(OsRunResult::Good), &None).err(),
        Some(SubProcError::ErrorExecuting("fn".into(), vec![], "callback failed".into(), None))
    );
}

#[test]
fn missing_and_failed_files() {
    let mut op = SubProcOperation::new(&Executable::new("tool", ExeFileSpec::Append, ExeFileSpec::Append));
    op.set_input_file(&FileArg::loc("in"));
    assert_eq!(op.execute(&TestCollector::new(), &None).err(), Some(SubProcError::ErrorMissingFile));
    op.set_output_file(&FileArg::temp(".x"));
    assert!(matches!(
        op.execute(&Failing(OsRunResult::Good), &None),
        Err(SubProcError::ErrorExecuting(_, _, _, _))
    ));
    // An unused output needs no file at all.
    let mut op2 = plain_op();
    assert!(matches!(op2.execute(&Failing(OsRunResult::Good), &None), Ok(ActualFile::NoActualFile)));
}

#[test]
fn labels_and_flags() {
    let mut op = plain_op();
    assert_eq!(op.label(), "tool");
    op.set_label("renamed");
    assert_eq!(op.label(), "renamed");
    assert!(op.has_input_file());
    assert!(!op.has_explicit_output_file());
    let mut ops = ChainedOps::new("chain");
    assert_eq!(ops.label(), "chain");
    ops.set_label("c2");
    assert_eq!(ops.label(), "c2");
    assert!(!ops.has_input_file());
    let h = ops.push_op(&plain_op());
    assert!(h.has_input_file(&ops));
    assert!(!h.has_explicit_output_file(&ops));
    h.set_output_file(&mut ops, &FileArg::loc("o"));
    assert!(h.has_explicit_output_file(&ops));
    let mut f = FunctionOperation::calling("fn", Box::new(Uncalled));
    assert_eq!(f.label(), "fn");
    f.set_label("g");
    assert_eq!(f.label(), "g");
}

#[test]
fn executor_modes() {
    assert!(Executor::NormalRun.performs());
    assert!(!Executor::DryRun.performs());
    assert!(Executor::DryRun.echoes_commands());
    assert!(Executor::NormalWithEcho.echoes_commands());
    assert!(!Executor::NormalRun.echoes_commands());
    assert!(Executor::NormalWithLabel.echoes_labels());
    assert!(!Executor::NormalWithEcho.echoes_labels());
}

#[test]
fn executable_template() {
    let exe = Executable::new("cc", ExeFileSpec::Append, ExeFileSpec::option("-o"))
        .push_arg("-c")
        .push_arg("-g");
    assert_eq!(chainsop::executable::get_base_args(&exe), &vec!["-c".to_string(), "-g".to_string()]);
    let other = exe.set_exe("clang");
    assert_eq!(other.exe_path(), "clang");
    assert_eq!(chainsop::executable::get_base_args(&other).len(), 2);
    assert!(matches!(chainsop::executable::get_outfile(&exe), ExeFileSpec::Option(ref o) if o == "-o"));
    assert!(matches!(chainsop::executable::get_inpfile(&exe), ExeFileSpec::Append));
    let mut op = SubProcOperation::new(&exe);
    op.set_output_file(&FileArg::loc("a.out"));
    op.add_input_file(&FileArg::loc("x.c"));
    let (args, _) = op.finalize_args(&TestCollector::new(), &None).unwrap();
    let sv = |v: &[&str]| v.iter().map(|s| s.to_string()).collect::<Vec<String>>();
    assert_eq!(args, sv(&["-c", "-g", "-o", "a.out", "x.c"]));
}

#[test]
fn function_stage_tbd_is_no_file() {
    let mut op = FunctionOperation::calling("f", Box::new(Uncalled));
    op.add_input_file(&FileArg::loc("a"));
    op.add_input_file(&FileArg::TBD);
    op.add_input_file(&FileArg::loc("b"));
    let (inps, out) = op.setup_files(&TestCollector::new()).unwrap();
    assert_eq!(inps.to_paths(&None).unwrap(), vec!["a".to_string(), "b".to_string()]);
    assert!(matches!(out, ActualFile::NoActualFile));
    let ex = TestCollector::new();
    assert!(matches!(op.execute(&ex, &None), Ok(ActualFile::NoActualFile)));
    let calls = ex.0.into_inner();
    match &calls[0] {
        TestOp::FO(rf) => assert_eq!(rf.inpfiles, vec!["a".to_string(), "b".to_string()]),
        _ => panic!("expected a call"),
    }
}

#[test]
fn missing_file_exactly_when_used_file_undetermined() {
    let exe = Executable::new("t", ExeFileSpec::Append, ExeFileSpec::option("-o"));
    let mut op = SubProcOperation::new(&exe);
    op.set_input_file(&FileArg::loc("in"));
    op.set_output_file(&FileArg::loc("out"));
    assert!(op.execute(&TestCollector::new(), &None).is_ok());
    op.add_input_file(&FileArg::TBD);
    assert_eq!(op.execute(&TestCollector::new(), &None).err(), Some(SubProcError::ErrorMissingFile));
    let mut unused = SubProcOperation::new(&Executable::new("t", ExeFileSpec::NoFileUsed, ExeFileSpec::NoFileUsed));
    unused.add_input_file(&FileArg::TBD);
    assert!(unused.execute(&TestCollector::new(), &None).is_ok());
}
