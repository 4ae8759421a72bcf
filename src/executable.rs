//! Tool templates: the executable, its fixed arguments, and how it is given
//! its input and output files.
use vstd::prelude::*;
use vstd::string::*;
use crate::files::ActualFile;

verus! {

/// Adds a file to a command's arguments in a form of the tool's own.  It is
/// given the arguments so far, the directory the command will run from, and
/// the file; the path it adds should not include that directory.
pub trait ArgsCall {
    fn add_file_args(
        &self,
        args: &mut Vec<String>,
        cwd: &Option<String>,
        file: &ActualFile,
    ) -> Result<(), String>;
}

/// How a file reaches the command line of an executable.
pub enum ExeFileSpec {
    /// The tool takes no such file.
    NoFileUsed,
    /// Each path is appended as an argument of its own.
    Append,
    /// The option, then the paths joined by commas; when the option ends in
    /// '=' the two form a single argument.
    Option(String),
    /// A callback adds the file to the arguments.
    ViaCall(std::rc::Rc<Box<dyn ArgsCall>>),
}

impl Clone for ExeFileSpec {
    fn clone(&self) -> (r: ExeFileSpec)
        ensures
            !(*self is ViaCall) ==> r == *self,
            *self is ViaCall ==> r is ViaCall,
    {
        match self {
            ExeFileSpec::NoFileUsed => ExeFileSpec::NoFileUsed,
            ExeFileSpec::Append => ExeFileSpec::Append,
            ExeFileSpec::Option(o) => ExeFileSpec::Option(o.clone()),
            ExeFileSpec::ViaCall(f) => ExeFileSpec::ViaCall(f.clone()),
        }
    }
}

/// The same way of taking a file; any two callbacks count as the same.
pub open spec fn same_spec(a: ExeFileSpec, b: ExeFileSpec) -> bool {
    if a is ViaCall {
        b is ViaCall
    } else {
        a == b
    }
}

/// Whether an option joins its value into one argument.
pub open spec fn joins_value(flag: Seq<char>) -> bool {
    flag.len() > 0 && flag[flag.len() - 1] == '='
}

/// The paths joined by commas.
pub open spec fn comma_joined(ps: Seq<Seq<char>>) -> Seq<char>
    decreases ps.len(),
{
    if ps.len() == 0 {
        seq![]
    } else if ps.len() == 1 {
        ps[0]
    } else {
        comma_joined(ps.drop_last()) + seq![','] + ps.last()
    }
}

/// The arguments that a file with these paths contributes under `spec`
/// (a callback decides its own).
pub open spec fn file_args(spec: ExeFileSpec, paths: Seq<Seq<char>>) -> Seq<Seq<char>> {
    match spec {
        ExeFileSpec::NoFileUsed => seq![],
        ExeFileSpec::Append => paths,
        ExeFileSpec::Option(flag) => if joins_value(flag@) {
            seq![flag@ + comma_joined(paths)]
        } else {
            seq![flag@, comma_joined(paths)]
        },
        ExeFileSpec::ViaCall(_) => seq![],
    }
}

/// Joins the paths with commas.
pub fn join_commas(ps: &Vec<String>) -> (r: String)
    ensures
        r@ == comma_joined(ps@.map_values(|s: String| s@)),
{
    let ghost v = ps@.map_values(|s: String| s@);
    let mut r = String::new();
    let mut i: usize = 0;
    proof {
        reveal_strlit(",");
    }
    while i < ps.len()
        invariant
            i <= ps.len(),
            v == ps@.map_values(|s: String| s@),
            r@ == comma_joined(v.subrange(0, i as int)),
        decreases ps.len() - i,
    {
        let ghost s = v.subrange(0, i as int + 1);
        let ghost r0 = r@;
        proof {
            assert(s.drop_last() =~= v.subrange(0, i as int));
            assert(s.last() == ps@[i as int]@);
        }
        if i > 0 {
            r.append(",");
        }
        r.append(ps[i].as_str());
        proof {
            if i == 0 {
                assert(r@ =~= s[0]);
            } else {
                reveal_strlit(",");
                assert(","@ =~= seq![',']);
                assert(r@ =~= r0 + seq![','] + s.last());
            }
        }
        i = i + 1;
    }
    assert(v.subrange(0, i as int) =~= v);
    r
}

/// Constructs the option file specification.
impl ExeFileSpec {
    pub fn option(optname: &str) -> (r: ExeFileSpec)
        ensures
            r matches ExeFileSpec::Option(o) && o@ == optname@,
    {
        ExeFileSpec::Option(optname.to_owned())
    }
}

/// A template for running an executable: the executable, the arguments
/// given on every run, and how it takes its input and output files.
pub struct Executable {
    pub exe_file: String,
    base_args: Vec<String>,
    inp_file: ExeFileSpec,
    out_file: ExeFileSpec,
}

impl Clone for Executable {
    fn clone(&self) -> (r: Executable)
        ensures
            r.like(self),
            r.exe_view() == self.exe_view(),
            r.base_args_view() == self.base_args_view(),
            !(self.inp_spec() is ViaCall) ==> r.inp_spec() == self.inp_spec(),
            !(self.out_spec() is ViaCall) ==> r.out_spec() == self.out_spec(),
            self.inp_spec() is ViaCall ==> r.inp_spec() is ViaCall,
            self.out_spec() is ViaCall ==> r.out_spec() is ViaCall,
    {
        Executable {
            exe_file: self.exe_file.clone(),
            base_args: copy_strings(&self.base_args),
            inp_file: self.inp_file.clone(),
            out_file: self.out_file.clone(),
        }
    }
}

impl Executable {
    /// The same executable, fixed arguments and ways of taking files.
    pub open spec fn like(&self, o: &Executable) -> bool {
        &&& self.exe_view() == o.exe_view()
        &&& self.base_args_view() == o.base_args_view()
        &&& same_spec(self.inp_spec(), o.inp_spec())
        &&& same_spec(self.out_spec(), o.out_spec())
    }

    pub closed spec fn exe_view(&self) -> Seq<char> {
        self.exe_file@
    }

    pub closed spec fn base_args_view(&self) -> Seq<Seq<char>> {
        self.base_args@.map_values(|s: String| s@)
    }

    pub closed spec fn inp_spec(&self) -> ExeFileSpec {
        self.inp_file
    }

    pub closed spec fn out_spec(&self) -> ExeFileSpec {
        self.out_file
    }

    /// The executable's path.
    pub fn exe_path(&self) -> (r: &String)
        ensures
            r@ == self.exe_view(),
    {
        &self.exe_file
    }

    /// A template with no fixed arguments.
    pub fn new(exe: &str, inp_file: ExeFileSpec, out_file: ExeFileSpec) -> (r: Executable)
        ensures
            r.exe_view() == exe@,
            r.base_args_view().len() == 0,
            r.inp_spec() == inp_file,
            r.out_spec() == out_file,
    {
        Executable { exe_file: exe.to_owned(), base_args: Vec::new(), inp_file, out_file }
    }

    /// The template with one more fixed argument.
    pub fn push_arg(&self, arg: &str) -> (r: Executable)
        ensures
            r.exe_view() == self.exe_view(),
            r.base_args_view() == self.base_args_view().push(arg@),
            same_spec(self.inp_spec(), r.inp_spec()),
            same_spec(self.out_spec(), r.out_spec()),
    {
        let mut args = copy_strings(&self.base_args);
        args.push(arg.to_owned());
        proof {
            assert(args@.map_values(|s: String| s@) =~= self.base_args_view().push(arg@));
        }
        Executable {
            exe_file: self.exe_file.clone(),
            base_args: args,
            inp_file: self.inp_file.clone(),
            out_file: self.out_file.clone(),
        }
    }

    /// The template with another executable.
    pub fn set_exe(&self, exe: &str) -> (r: Executable)
        ensures
            r.exe_view() == exe@,
            r.base_args_view() == self.base_args_view(),
            same_spec(self.inp_spec(), r.inp_spec()),
            same_spec(self.out_spec(), r.out_spec()),
    {
        let args = copy_strings(&self.base_args);
        proof {
            assert(args@.map_values(|s: String| s@) =~= self.base_args_view());
        }
        Executable {
            exe_file: exe.to_owned(),
            base_args: args,
            inp_file: self.inp_file.clone(),
            out_file: self.out_file.clone(),
        }
    }
}

/// A copy of the strings.
pub fn copy_strings(v: &Vec<String>) -> (r: Vec<String>)
    ensures
        r@ == v@,
{
    let mut r: Vec<String> = Vec::new();
    let mut i: usize = 0;
    while i < v.len()
        invariant
            i <= v.len(),
            r@ == v@.subrange(0, i as int),
        decreases v.len() - i,
    {
        r.push(v[i].clone());
        i = i + 1;
    }
    assert(r@ =~= v@);
    r
}

/// The fixed arguments of the template.
pub fn get_base_args(exe: &Executable) -> (r: &Vec<String>)
    ensures
        r@.map_values(|s: String| s@) == exe.base_args_view(),
{
    &exe.base_args
}

/// How the template takes its input files.
pub fn get_inpfile(exe: &Executable) -> (r: ExeFileSpec)
    ensures
        !(exe.inp_spec() is ViaCall) ==> r == exe.inp_spec(),
        exe.inp_spec() is ViaCall ==> r is ViaCall,
{
    exe.inp_file.clone()
}

/// How the template takes its output file.
pub fn get_outfile(exe: &Executable) -> (r: ExeFileSpec)
    ensures
        !(exe.out_spec() is ViaCall) ==> r == exe.out_spec(),
        exe.out_spec() is ViaCall ==> r is ViaCall,
{
    exe.out_file.clone()
}

} // verus!
