//! Declarative file references, the files they resolve to, and the per
//! operation file configuration.
use vstd::prelude::*;
use vstd::string::*;
use crate::errors::SubProcError;
use crate::execution::OsRun;

verus! {

/// A file named on the command line, as the user specifies it.
#[derive(Debug, PartialEq)]
pub enum FileArg {
    /// An actual file path (which may or may not exist yet).
    Loc(String),
    /// All files in the directory that match the glob pattern.
    GlobIn(String, String),
    /// A new temporary file with this suffix.
    Temp(String),
    /// Not yet known; an operation that needs the file fails if it is still
    /// unknown when the operation runs.
    TBD,
}

impl Clone for FileArg {
    fn clone(&self) -> (r: FileArg)
        ensures
            r == *self,
    {
        match self {
            FileArg::Loc(p) => FileArg::Loc(p.clone()),
            FileArg::GlobIn(d, g) => FileArg::GlobIn(d.clone(), g.clone()),
            FileArg::Temp(s) => FileArg::Temp(s.clone()),
            FileArg::TBD => FileArg::TBD,
        }
    }
}

impl FileArg {
    /// A temporary file with the suffix (which may be empty).
    pub fn temp(suffix: &str) -> (r: FileArg)
        ensures
            r matches FileArg::Temp(s) && s@ == suffix@,
    {
        FileArg::Temp(suffix.to_owned())
    }

    /// A reference to an actual file.
    pub fn loc(fpath: &str) -> (r: FileArg)
        ensures
            r matches FileArg::Loc(p) && p@ == fpath@,
    {
        FileArg::Loc(fpath.to_owned())
    }

    /// The files in `dpath` that match the glob pattern.
    pub fn glob_in(dpath: &str, glob: &str) -> (r: FileArg)
        ensures
            r matches FileArg::GlobIn(d, g) && d@ == dpath@ && g@ == glob@,
    {
        FileArg::GlobIn(dpath.to_owned(), glob.to_owned())
    }
}

/// The input files, output file and directory of an operation or a chain.
#[derive(Debug)]
pub struct FileTransformation {
    pub inp_filenames: Vec<FileArg>,
    pub out_filename: FileArg,
    pub in_dir: Option<String>,
}

pub fn copy_file_args(v: &Vec<FileArg>) -> (r: Vec<FileArg>)
    ensures
        r@ == v@,
{
    let mut r: Vec<FileArg> = Vec::new();
    let mut i: usize = 0;
    while i < v.len()
        invariant
            i <= v.len(),
            r@ == v@.subrange(0, i as int),
        decreases v.len() - i,
    {
        r.push(v[i].clone());
        i = i + 1;
    }
    assert(r@ =~= v@);
    r
}

impl Clone for FileTransformation {
    fn clone(&self) -> (r: FileTransformation)
        ensures
            r.same(self),
    {
        FileTransformation {
            inp_filenames: copy_file_args(&self.inp_filenames),
            out_filename: self.out_filename.clone(),
            in_dir: match &self.in_dir {
                Some(d) => Some(d.clone()),
                None => None,
            },
        }
    }
}

impl FileTransformation {
    /// The same files and directory.
    pub open spec fn same(&self, o: &FileTransformation) -> bool {
        &&& self.inp_filenames@ == o.inp_filenames@
        &&& self.out_filename == o.out_filename
        &&& self.in_dir == o.in_dir
    }

    /// No input files, an output file still to be determined, and no
    /// directory.
    pub fn new() -> (r: FileTransformation)
        ensures
            r.inp_filenames@.len() == 0,
            r.out_filename == FileArg::TBD,
            r.in_dir is None,
    {
        FileTransformation { inp_filenames: Vec::new(), out_filename: FileArg::TBD, in_dir: None }
    }

    /// True when the output file is an explicit location.
    pub open spec fn explicit_output(&self) -> bool {
        self.out_filename is Loc
    }
}

/// Whether `p` is an absolute path.
pub open spec fn is_absolute(p: Seq<char>) -> bool {
    p.len() > 0 && p[0] == '/'
}

/// `p` resolved against `base`: an absolute `p` stands alone, a relative one
/// goes beneath `base`.
pub open spec fn join_path(base: Seq<char>, p: Seq<char>) -> Seq<char> {
    if is_absolute(p) || base.len() == 0 {
        p
    } else if base[base.len() - 1] == '/' {
        base + p
    } else {
        base + seq!['/'] + p
    }
}

/// Joins `p` beneath `base` (an absolute `p` replaces `base`).
pub fn join_paths(base: &String, p: &String) -> (r: String)
    ensures
        r@ == join_path(base@, p@),
{
    let bl = base.as_str().unicode_len();
    if p.as_str().unicode_len() > 0 && p.as_str().get_char(0) == '/' {
        p.clone()
    } else if bl == 0 {
        p.clone()
    } else if base.as_str().get_char(bl - 1) == '/' {
        base.clone().concat(p.as_str())
    } else {
        proof {
            reveal_strlit("/");
        }
        base.clone().concat("/").concat(p.as_str())
    }
}

/// The directory an operation runs in: its own directory beneath the given
/// one (or in place of it, when absolute), the given one, its own one, or
/// none.
pub open spec fn resolved_dir(cwd: Option<Seq<char>>, own: Option<Seq<char>>) -> Option<Seq<char>> {
    match (cwd, own) {
        (Some(root), Some(sub)) => Some(join_path(root, sub)),
        (Some(root), None) => Some(root),
        (None, own) => own,
    }
}

pub open spec fn opt_view(o: Option<String>) -> Option<Seq<char>> {
    match o {
        Some(s) => Some(s@),
        None => None,
    }
}

/// Resolves the directory of an operation or chain against the directory it
/// is executed from.
pub fn resolve_dir(cwd: &Option<String>, own: &Option<String>) -> (r: Option<String>)
    ensures
        opt_view(r) == resolved_dir(opt_view(*cwd), opt_view(*own)),
{
    match cwd {
        Some(root) => match own {
            Some(sub) => Some(join_paths(root, sub)),
            None => Some(root.clone()),
        },
        None => match own {
            Some(sub) => Some(sub.clone()),
            None => None,
        },
    }
}

/// The file settings that every operation, chain and chain member offers.
pub trait FilesPrep {
    /// The file configuration that the settings below change.
    spec fn files(&self) -> FileTransformation;

    /// Everything but the file configuration is the same as in `o`.
    spec fn same_except_files(&self, o: &Self) -> bool;

    /// Sets the directory from which the operation is performed; a relative
    /// one is taken beneath the directory given to `execute`.
    fn set_dir(&mut self, tgtdir: &str)
        ensures
            final(self).files().in_dir matches Some(d) && d@ == tgtdir@,
            final(self).files().inp_filenames@ == old(self).files().inp_filenames@,
            final(self).files().out_filename == old(self).files().out_filename,
            final(self).same_except_files(old(self)),
    ;

    /// Makes this file the only input file.
    fn set_input_file(&mut self, fname: &FileArg)
        ensures
            final(self).files().inp_filenames@ == seq![*fname],
            final(self).files().out_filename == old(self).files().out_filename,
            final(self).files().in_dir == old(self).files().in_dir,
            final(self).same_except_files(old(self)),
    ;

    /// Adds this file after the input files.
    fn add_input_file(&mut self, fname: &FileArg)
        ensures
            final(self).files().inp_filenames@ == old(self).files().inp_filenames@.push(*fname),
            final(self).files().out_filename == old(self).files().out_filename,
            final(self).files().in_dir == old(self).files().in_dir,
            final(self).same_except_files(old(self)),
    ;

    /// True when one or more input files are specified.
    fn has_input_file(&self) -> (r: bool)
        ensures
            r == (self.files().inp_filenames@.len() > 0),
    ;

    /// Sets the output file.
    fn set_output_file(&mut self, fname: &FileArg)
        ensures
            final(self).files().out_filename == *fname,
            final(self).files().inp_filenames@ == old(self).files().inp_filenames@,
            final(self).files().in_dir == old(self).files().in_dir,
            final(self).same_except_files(old(self)),
    ;

    /// True when the output file is an explicit location (not a file still
    /// to be determined, a glob or a temporary file).
    fn has_explicit_output_file(&self) -> (r: bool)
        ensures
            r == self.files().explicit_output(),
    ;
}

impl FilesPrep for FileTransformation {
    open spec fn files(&self) -> FileTransformation {
        *self
    }

    open spec fn same_except_files(&self, o: &Self) -> bool {
        true
    }

    fn set_dir(&mut self, tgtdir: &str) {
        self.in_dir = Some(tgtdir.to_owned());
    }

    fn set_input_file(&mut self, fname: &FileArg) {
        let mut v: Vec<FileArg> = Vec::new();
        v.push(fname.clone());
        self.inp_filenames = v;
    }

    fn add_input_file(&mut self, fname: &FileArg) {
        self.inp_filenames.push(fname.clone());
    }

    fn has_input_file(&self) -> (r: bool) {
        self.inp_filenames.len() > 0
    }

    fn set_output_file(&mut self, fname: &FileArg) {
        self.out_filename = fname.clone();
    }

    fn has_explicit_output_file(&self) -> (r: bool) {
        match self.out_filename {
            FileArg::Loc(_) => true,
            _ => false,
        }
    }
}

#[verifier::external_type_specification]
#[verifier::external_body]
pub struct ExTempPath(tempfile::TempPath);

/// Relies on tempfile::Builder::tempfile with Builder::suffix: creates a new,
/// uniquely named file in the temporary directory, whose name is a prefix, a
/// random part and then the suffix; NamedTempFile::into_temp_path keeps only
/// the path, which removes the file when dropped.  The path is given as text
/// too (Path::to_string_lossy), ending with the suffix.
#[verifier::external_body]
fn create_temp(suffix: &str) -> (r: Result<(tempfile::TempPath, String), String>)
    ensures
        r matches Ok((_, p)) ==> ends_with(p@, suffix@),
{
    match tempfile::Builder::new().suffix(suffix).tempfile() {
        Ok(f) => {
            let t = f.into_temp_path();
            let p = t.to_string_lossy().into_owned();
            Ok((t, p))
        },
        Err(e) => Err(e.to_string()),
    }
}

/// A temporary file that exists for as long as this value does.
#[derive(Debug)]
pub struct TempFile {
    path: String,
    handle: tempfile::TempPath,
}

impl View for TempFile {
    type V = Seq<char>;

    closed spec fn view(&self) -> Seq<char> {
        self.path@
    }
}

impl TempFile {
    /// Creates a new temporary file whose name ends with the suffix.
    pub fn create(suffix: &String) -> (r: Result<TempFile, String>)
        ensures
            r matches Ok(t) ==> ends_with(t@, suffix@),
    {
        match create_temp(suffix.as_str()) {
            Ok((h, p)) => Ok(TempFile { path: p, handle: h }),
            Err(e) => Err(e),
        }
    }

    /// The path of the file.
    pub fn path(&self) -> (r: &String)
        ensures
            r@ == self@,
    {
        &self.path
    }
}

/// A single actual file: a plain path, or a temporary file that is removed
/// when this value is dropped.
#[derive(Debug)]
pub enum FileRef {
    StaticFile(String),
    TempFile(TempFile),
}

impl View for FileRef {
    type V = Seq<char>;

    open spec fn view(&self) -> Seq<char> {
        match self {
            FileRef::StaticFile(p) => p@,
            FileRef::TempFile(t) => t@,
        }
    }
}

impl FileRef {
    /// The path of the file.
    pub fn path_text(&self) -> (r: String)
        ensures
            r@ == self@,
    {
        match self {
            FileRef::StaticFile(p) => p.clone(),
            FileRef::TempFile(t) => t.path().clone(),
        }
    }
}

/// The files that a [FileArg] resolved to when an operation ran.
#[derive(Debug)]
pub enum ActualFile {
    NoActualFile,
    SingleFile(FileRef),
    MultiFile(Vec<FileRef>),
}

pub open spec fn ref_paths(v: Seq<FileRef>) -> Seq<Seq<char>> {
    v.map_values(|f: FileRef| f@)
}

pub open spec fn texts(v: Seq<String>) -> Seq<Seq<char>> {
    v.map_values(|s: String| s@)
}

/// A path as seen from the directory `cwd`, if one is given.
pub open spec fn rooted(cwd: Option<Seq<char>>, p: Seq<char>) -> Seq<char> {
    match cwd {
        Some(d) => join_path(d, p),
        None => p,
    }
}

/// `r` holds the files of `a` followed by those of `b`: either side when the
/// other has none, else several files.
pub open spec fn extended(a: ActualFile, b: ActualFile, r: ActualFile) -> bool {
    match (a, b) {
        (ActualFile::NoActualFile, _) => r == b,
        (_, ActualFile::NoActualFile) => r == a,
        (ActualFile::SingleFile(x), ActualFile::SingleFile(y)) => r matches ActualFile::MultiFile(w)
            && w@ == seq![x, y],
        (ActualFile::SingleFile(x), ActualFile::MultiFile(v)) => r matches ActualFile::MultiFile(w)
            && w@ == seq![x] + v@,
        (ActualFile::MultiFile(u), ActualFile::SingleFile(y)) => r matches ActualFile::MultiFile(w)
            && w@ == u@.push(y),
        (ActualFile::MultiFile(u), ActualFile::MultiFile(v)) => r matches ActualFile::MultiFile(w)
            && w@ == u@ + v@,
    }
}

/// The paths that one resolved file specification stands for: a location
/// itself, one temporary file, the files a glob found, and no file for one
/// still to be determined.
pub open spec fn list_resolves(f: FileArg, paths: Seq<Seq<char>>) -> bool {
    match f {
        FileArg::Loc(p) => paths == seq![p@],
        FileArg::Temp(_) => paths.len() == 1,
        FileArg::GlobIn(_, _) => true,
        FileArg::TBD => paths.len() == 0,
    }
}

/// The path lists, one per input file specification, in order.
pub open spec fn flatten(per: Seq<Seq<Seq<char>>>) -> Seq<Seq<char>>
    decreases per.len(),
{
    if per.len() == 0 {
        seq![]
    } else {
        flatten(per.drop_last()) + per.last()
    }
}

/// The path lists, one per file specification, resolve those specifications
/// in order and together hold the given paths.
pub open spec fn inputs_listed(inputs: Seq<FileArg>, per: Seq<Seq<Seq<char>>>, paths: Seq<Seq<char>>) -> bool {
    &&& per.len() == inputs.len()
    &&& flatten(per) == paths
    &&& forall|k: int| 0 <= k < inputs.len() ==> list_resolves(#[trigger] inputs[k], per[k])
}

/// A path ends with the suffix.
pub open spec fn ends_with(p: Seq<char>, suffix: Seq<char>) -> bool {
    p.len() >= suffix.len() && p.subrange(p.len() - suffix.len(), p.len() as int) == suffix
}

impl ActualFile {
    /// The paths of the files, in order.
    pub open spec fn paths(&self) -> Seq<Seq<char>> {
        match self {
            ActualFile::NoActualFile => seq![],
            ActualFile::SingleFile(f) => seq![f@],
            ActualFile::MultiFile(v) => ref_paths(v@),
        }
    }

    /// The files of `self` followed by those of `more`, the same files
    /// (temporary ones keep their handles).
    pub fn extend(self, more: ActualFile) -> (r: ActualFile)
        ensures
            extended(self, more, r),
            r.paths() == self.paths() + more.paths(),
            r is NoActualFile <==> (self is NoActualFile && more is NoActualFile),
            r is SingleFile <==> ((self is SingleFile && more is NoActualFile) || (
            self is NoActualFile && more is SingleFile)),
    {
        match self {
            ActualFile::NoActualFile => {
                assert(more.paths() =~= seq![] + more.paths());
                more
            },
            ActualFile::SingleFile(a) => match more {
                ActualFile::NoActualFile => {
                    let r = ActualFile::SingleFile(a);
                    assert(r.paths() =~= r.paths() + seq![]);
                    r
                },
                ActualFile::SingleFile(b) => {
                    let mut v: Vec<FileRef> = Vec::new();
                    v.push(a);
                    v.push(b);
                    assert(v@ =~= seq![a, b]);
                    let r = ActualFile::MultiFile(v);
                    assert(r.paths() =~= seq![a@] + seq![b@]);
                    r
                },
                ActualFile::MultiFile(bs) => {
                    let ghost old_bs = bs@;
                    let mut v = bs;
                    v.insert(0, a);
                    assert(v@ =~= seq![a] + old_bs);
                    let r = ActualFile::MultiFile(v);
                    assert(r.paths() =~= seq![a@] + ref_paths(old_bs));
                    r
                },
            },
            ActualFile::MultiFile(as_) => {
                let ghost old_as = as_@;
                let mut v = as_;
                match more {
                    ActualFile::NoActualFile => {
                        let r = ActualFile::MultiFile(v);
                        assert(r.paths() =~= ref_paths(old_as) + seq![]);
                        r
                    },
                    ActualFile::SingleFile(b) => {
                        v.push(b);
                        let r = ActualFile::MultiFile(v);
                        assert(r.paths() =~= ref_paths(old_as) + seq![b@]);
                        r
                    },
                    ActualFile::MultiFile(bs) => {
                        let ghost old_bs = bs@;
                        let mut w = bs;
                        v.append(&mut w);
                        let r = ActualFile::MultiFile(v);
                        assert(r.paths() =~= ref_paths(old_as) + ref_paths(old_bs));
                        r
                    },
                }
            },
        }
    }

    fn path_from(cwd: &Option<String>, fref: &FileRef) -> (r: String)
        ensures
            r@ == rooted(opt_view(*cwd), fref@),
    {
        let p = fref.path_text();
        match cwd {
            Some(d) => join_paths(d, &p),
            None => p,
        }
    }

    /// The path of the single file, seen from `cwd`.  No file is a missing
    /// file; several files cannot give one path.
    pub fn to_path(&self, cwd: &Option<String>) -> (r: Result<String, SubProcError>)
        ensures
            match self {
                ActualFile::SingleFile(f) => r matches Ok(p) && p@ == rooted(opt_view(*cwd), f@),
                ActualFile::NoActualFile => r == Err::<String, SubProcError>(
                    SubProcError::ErrorMissingFile,
                ),
                ActualFile::MultiFile(_) => r matches Err(SubProcError::ErrorUnsupportedActualFile(_)),
            },
    {
        match self {
            ActualFile::SingleFile(fref) => Ok(Self::path_from(cwd, fref)),
            ActualFile::NoActualFile => Err(SubProcError::ErrorMissingFile),
            ActualFile::MultiFile(v) => {
                let mut d = String::new();
                let mut i: usize = 0;
                while i < v.len()
                    invariant
                        i <= v.len(),
                    decreases v.len() - i,
                {
                    if i > 0 {
                        d.append(",");
                    }
                    let p = v[i].path_text();
                    d.append(p.as_str());
                    i = i + 1;
                }
                Err(SubProcError::ErrorUnsupportedActualFile(d))
            },
        }
    }

    /// The paths of all the files, in order, seen from `cwd`.  No file is a
    /// missing file.
    pub fn to_paths(&self, cwd: &Option<String>) -> (r: Result<Vec<String>, SubProcError>)
        ensures
            self is NoActualFile ==> r == Err::<Vec<String>, SubProcError>(
                SubProcError::ErrorMissingFile,
            ),
            !(self is NoActualFile) ==> (r matches Ok(ps) && texts(ps@) == self.paths().map_values(
                |p: Seq<char>| rooted(opt_view(*cwd), p),
            )),
    {
        match self {
            ActualFile::SingleFile(fref) => {
                let mut v: Vec<String> = Vec::new();
                v.push(Self::path_from(cwd, fref));
                assert(texts(v@) =~= self.paths().map_values(
                    |p: Seq<char>| rooted(opt_view(*cwd), p),
                ));
                Ok(v)
            },
            ActualFile::MultiFile(fs) => {
                let mut v: Vec<String> = Vec::new();
                let mut i: usize = 0;
                while i < fs.len()
                    invariant
                        i <= fs.len(),
                        v@.len() == i,
                        forall|k: int| 0 <= k < i ==> (#[trigger] v@[k])@ == rooted(opt_view(*cwd), fs@[k]@),
                    decreases fs.len() - i,
                {
                    v.push(Self::path_from(cwd, &fs[i]));
                    i = i + 1;
                }
                assert(texts(v@) =~= self.paths().map_values(|p: Seq<char>| rooted(opt_view(*cwd), p)));
                Ok(v)
            },
            ActualFile::NoActualFile => Err(SubProcError::ErrorMissingFile),
        }
    }
}

/// The glob pattern for the files in `dir` that match `pat`.
pub fn glob_pattern(dir: &String, pat: &String) -> (r: String)
    ensures
        r@ == dir@ + seq!['/'] + pat@,
{
    proof {
        reveal_strlit("/");
    }
    dir.clone().concat("/").concat(pat.as_str())
}

/// The files that a glob search found, in the order found.
pub fn globbed_files(found: Vec<String>) -> (r: ActualFile)
    ensures
        r is MultiFile,
        r.paths() == texts(found@),
{
    let mut v: Vec<FileRef> = Vec::new();
    let mut i: usize = 0;
    while i < found.len()
        invariant
            i <= found.len(),
            v@.len() == i,
            forall|k: int| 0 <= k < i ==> (#[trigger] v@[k])@ == found@[k]@,
        decreases found.len() - i,
    {
        v.push(FileRef::StaticFile(found[i].clone()));
        i = i + 1;
    }
    assert(ref_paths(v@) =~= texts(found@));
    ActualFile::MultiFile(v)
}

/// The actual files are what the specification resolves to: that location,
/// one temporary file, or the files a glob search found.
pub open spec fn resolves(candidate: FileArg, f: ActualFile) -> bool {
    match candidate {
        FileArg::Loc(p) => f matches ActualFile::SingleFile(FileRef::StaticFile(q)) && q@ == p@,
        FileArg::Temp(_) => f matches ActualFile::SingleFile(FileRef::TempFile(_)),
        FileArg::GlobIn(_, _) => f is MultiFile,
        FileArg::TBD => false,
    }
}

/// Resolves a file specification to actual files.  A location is that file;
/// a temporary file is created through the executor; a glob is searched
/// through the executor beneath its directory; a file still to be
/// determined is no file when `missing_ok`, else a missing file.
pub fn setup_file<E: OsRun>(executor: &E, candidate: &FileArg, missing_ok: bool) -> (r: Result<
    ActualFile,
    SubProcError,
>)
    ensures
        candidate is Loc ==> r is Ok,
        candidate is TBD && missing_ok ==> r matches Ok(ActualFile::NoActualFile),
        candidate is TBD && !missing_ok ==> r == Err::<ActualFile, SubProcError>(
            SubProcError::ErrorMissingFile,
        ),
        !(candidate is TBD) ==> (r matches Ok(f) ==> resolves(*candidate, f)),
        r matches Err(e) ==> (candidate is TBD || e is ErrorExecuting),
{
    match candidate {
        FileArg::TBD => if missing_ok {
            Ok(ActualFile::NoActualFile)
        } else {
            Err(SubProcError::ErrorMissingFile)
        },
        FileArg::Temp(sfx) => match executor.mk_tempfile(sfx) {
            Ok(tf) => Ok(ActualFile::SingleFile(FileRef::TempFile(tf))),
            Err(e) => Err(SubProcError::ErrorExecuting(sfx.clone(), Vec::new(), e, None)),
        },
        FileArg::Loc(fpath) => Ok(ActualFile::SingleFile(FileRef::StaticFile(fpath.clone()))),
        FileArg::GlobIn(dpath, glob) => {
            let pat = glob_pattern(dpath, glob);
            match executor.glob_search(&pat) {
                Ok(found) => Ok(globbed_files(found)),
                Err(e) => Err(SubProcError::ErrorExecuting(pat, Vec::new(), e, None)),
            }
        },
    }
}

} // verus!
