//! The settings of a walk, and what a package exposes of its members.

use vstd::prelude::*;
use vstd::string::*;
use crate::error::{Error, ErrorView};
use crate::exposer::exposed_names;
use crate::parser::{PythonVersion, failure_description, parsed};
use crate::render::{render, rendered};
use crate::replay::{drive, lemma_walk_ends_as_walked};
use crate::statement::{ImportStatements, ImportView, exposed_name, import_views};
use crate::text::texts;
use crate::tree::{Node, walk};
use crate::walker::Walk;

verus! {

/// The name of an index file.
pub open spec fn index_name() -> Seq<char> {
    "__init__.py"@
}

/// The suffix of a Python source file's name.
pub open spec fn source_suffix() -> Seq<char> {
    ".py"@
}

/// Whether a name ends in `.py`.
pub open spec fn is_source_name(name: Seq<char>) -> bool {
    name.len() >= 3 && name.subrange(name.len() - 3, name.len() as int) == source_suffix()
}

/// The path of what is called `name` in the directory at `dir`.
pub open spec fn join(dir: Seq<char>, name: Seq<char>) -> Seq<char> {
    dir + "/"@ + name
}

/// A module's exposed names as the statements that a walk returns for it.
pub open spec fn as_imports(names: Seq<Seq<char>>) -> Seq<ImportView> {
    names.map_values(|name: Seq<char>| ImportView::Import(name))
}

/// What a package exposes of a member called `stem` that itself exposes
/// `found`: the member, then each name that the member exposes, as an
/// attribute of the member.
pub open spec fn exposed_through(stem: Seq<char>, found: Seq<ImportView>) -> Seq<ImportView> {
    seq![ImportView::Import(stem)] + found.map_values(
        |s: ImportView| ImportView::FromImport(stem, exposed_name(s)),
    )
}

/// An index file to write.
#[derive(Debug, Clone, PartialEq, Eq)]
pub struct IndexFile {
    pub path: String,
    pub contents: String,
}

/// The mathematical form of an `IndexFile`.
pub struct IndexFileView {
    pub path: Seq<char>,
    pub contents: Seq<char>,
}

impl View for IndexFile {
    type V = IndexFileView;

    open spec fn view(&self) -> IndexFileView {
        IndexFileView { path: self.path@, contents: self.contents@ }
    }
}

/// The views of a sequence of index files, in order.
pub open spec fn index_views(files: Seq<IndexFile>) -> Seq<IndexFileView> {
    files.map_values(|f: IndexFile| f@)
}

/// The view of an index file that may be absent.
pub open spec fn optional_view(file: Option<IndexFile>) -> Option<IndexFileView> {
    match file {
        Some(file) => Some(file@),
        None => None,
    }
}

/// How a walk ends: the index files that it had written, in order, and what
/// it returns. After a failure the files are those written before it.
#[derive(Debug)]
pub struct Outcome {
    pub written: Vec<IndexFile>,
    pub result: Result<Vec<ImportStatements>, Error>,
}

/// The mathematical form of an `Outcome`.
pub struct OutcomeView {
    pub written: Seq<IndexFileView>,
    pub result: Result<Seq<ImportView>, ErrorView>,
}

impl View for Outcome {
    type V = OutcomeView;

    open spec fn view(&self) -> OutcomeView {
        OutcomeView {
            written: index_views(self.written@),
            result: match self.result {
                Ok(statements) => Ok(import_views(statements@)),
                Err(error) => Err(error@),
            },
        }
    }
}

/// The settings of a walk, and the path at which it starts.
#[derive(Debug, Clone, PartialEq, Eq)]
pub struct InitMaker {
    pub root: String,
    pub py_version: PythonVersion,
    pub respect_all: bool,
    pub sort_imports: bool,
    pub verbose: bool,
}

/// The mathematical form of an `InitMaker`.
pub struct MakerView {
    pub root: Seq<char>,
    pub py_version: PythonVersion,
    pub respect_all: bool,
    pub sort_imports: bool,
    pub verbose: bool,
}

impl View for InitMaker {
    type V = MakerView;

    open spec fn view(&self) -> MakerView {
        MakerView {
            root: self.root@,
            py_version: self.py_version,
            respect_all: self.respect_all,
            sort_imports: self.sort_imports,
            verbose: self.verbose,
        }
    }
}

impl MakerView {
    /// The same settings, for a walk that starts at `root`.
    pub open spec fn at(self, root: Seq<char>) -> MakerView {
        MakerView { root, ..self }
    }
}

/// The index file of the package at `maker.root` that exposes `statements`,
/// if it exposes anything.
pub open spec fn index_file(maker: MakerView, statements: Seq<ImportView>) -> Option<
    IndexFileView,
> {
    if statements.len() == 0 {
        None
    } else {
        Some(
            IndexFileView {
                path: join(maker.root, index_name()),
                contents: rendered(statements, maker.sort_imports),
            },
        )
    }
}

/// What the module at `maker.root` exposes, given its text: its exposed
/// names, each as the import of a module, unless the text is longer than the
/// parser takes or the parser rejects it.
pub open spec fn module_imports(maker: MakerView, text: Seq<char>) -> Result<
    Seq<ImportView>,
    ErrorView,
> {
    match parsed(text, maker.py_version.major, maker.py_version.minor) {
        Ok(syntax) => Ok(as_imports(exposed_names(syntax, maker.respect_all))),
        Err(failure) => Err(
            ErrorView::ParseFailed { path: maker.root, message: failure_description(failure) },
        ),
    }
}

/// Decides `is_source_name`.
pub fn has_source_suffix(name: &str) -> (r: bool)
    ensures
        r == is_source_name(name@),
{
    let len = name.unicode_len();
    proof {
        reveal_strlit(".py");
    }
    if len < 3 {
        return false;
    }
    let r = name.get_char(len - 3) == '.' && name.get_char(len - 2) == 'p' && name.get_char(
        len - 1,
    ) == 'y';
    proof {
        let tail = name@.subrange(name@.len() - 3, name@.len() as int);
        assert(tail[0] == name@[len - 3] && tail[1] == name@[len - 2] && tail[2] == name@[len
            - 1]);
        if r {
            assert(tail =~= source_suffix());
        }
    }
    r
}

/// Whether a name is that of an index file.
pub fn is_index_name(name: &String) -> (r: bool)
    ensures
        r == (name@ == index_name()),
{
    let index = String::from_str("__init__.py");
    *name == index
}

/// The path of what is called `name` in the directory at `dir`.
pub fn join_path(dir: &String, name: &str) -> (path: String)
    ensures
        path@ == join(dir@, name@),
{
    let mut path = dir.clone();
    path.append("/");
    path.append(name);
    path
}

/// A module's exposed names as the statements that a walk returns for it.
pub fn imports_of(names: Vec<String>) -> (statements: Vec<ImportStatements>)
    ensures
        import_views(statements@) == as_imports(texts(names@)),
{
    let mut statements: Vec<ImportStatements> = Vec::new();
    let mut i: usize = 0;
    while i < names.len()
        invariant
            i <= names.len(),
            statements@.len() == i,
            forall|k: int| 0 <= k < i ==> statements@[k]@ == ImportView::Import(names@[k]@),
        decreases names.len() - i,
    {
        statements.push(ImportStatements::Import(names[i].clone()));
        i += 1;
    }
    statements
}

/// Appends to `statements` what a package exposes of a member called `stem`
/// that itself exposes `found`.
pub fn expose_through(
    statements: &mut Vec<ImportStatements>,
    stem: &String,
    found: &Vec<ImportStatements>,
)
    ensures
        import_views(final(statements)@) == import_views(old(statements)@) + exposed_through(
            stem@,
            import_views(found@),
        ),
{
    let ghost start = import_views(statements@);
    let ghost below = import_views(found@);
    let ghost lifted = below.map_values(
        |s: ImportView| ImportView::FromImport(stem@, exposed_name(s)),
    );
    statements.push(ImportStatements::Import(stem.clone()));
    let mut i: usize = 0;
    while i < found.len()
        invariant
            i <= found.len(),
            below == import_views(found@),
            lifted == below.map_values(
                |s: ImportView| ImportView::FromImport(stem@, exposed_name(s)),
            ),
            import_views(statements@) == start + seq![ImportView::Import(stem@)] + lifted.take(
                i as int,
            ),
        decreases found.len() - i,
    {
        let ghost so_far = import_views(statements@);
        let attribute = found[i].exposed().clone();
        statements.push(ImportStatements::FromImport(stem.clone(), attribute));
        assert(import_views(statements@) =~= so_far.push(lifted[i as int]));
        i += 1;
    }
}

impl InitMaker {
    /// The settings of a walk that starts at `root`.
    pub fn new(
        root: String,
        py_version: PythonVersion,
        respect_all: bool,
        sort_imports: bool,
        verbose: bool,
    ) -> (maker: Self)
        ensures
            maker.root == root,
            maker.py_version == py_version,
            maker.respect_all == respect_all,
            maker.sort_imports == sort_imports,
            maker.verbose == verbose,
    {
        Self { root, py_version, respect_all, sort_imports, verbose }
    }

    /// The same settings, for a walk that starts at `root`.
    pub fn with_root(&self, root: String) -> (maker: Self)
        ensures
            maker@ == self@.at(root@),
            maker.root == root,
    {
        Self {
            root,
            py_version: self.py_version,
            respect_all: self.respect_all,
            sort_imports: self.sort_imports,
            verbose: self.verbose,
        }
    }

    /// The index file of the package at the root, which exposes
    /// `statements`: none if there are no statements; else the file called
    /// `__init__.py` in the root, with the text that `render` gives.
    pub fn process_init_file(&self, statements: &Vec<ImportStatements>) -> (file: Option<
        IndexFile,
    >)
        ensures
            optional_view(file) == index_file(self@, import_views(statements@)),
    {
        if statements.len() == 0 {
            return None;
        }
        let path = join_path(&self.root, "__init__.py");
        let contents = render(statements, self.sort_imports);
        Some(IndexFile { path, contents })
    }

    /// Walks the tree `node`, which stands at the root.
    ///
    /// A Python source file is parsed, and the walk returns its exposed
    /// names, each as the import of a module. A directory is walked entry by
    /// entry, in the order given; the walk returns what the directory
    /// exposes and, if that is anything, has the directory's index file
    /// written last. Entries called `__init__.py`, files whose names do not
    /// end in `.py` and what is neither file nor directory are passed over,
    /// as is a directory that exposes nothing. The first failure ends the
    /// walk: what is missing, what is neither a directory nor a Python
    /// source file, a file that could not be read or that the parser
    /// rejects.
    ///
    /// The walk is a `Walk` that is answered from `node`.
    pub fn make_init(&self, node: &Node) -> (outcome: Outcome)
        ensures
            outcome@ == walk(self@, node@),
    {
        let (mut run, _) = Walk::start(self.with_root(self.root.clone()));
        let mut written: Vec<IndexFile> = Vec::new();
        proof {
            lemma_walk_ends_as_walked(self@, node@);
        }
        drive(&mut run, node, &mut written);
        match run.into_result() {
            Some(result) => Outcome { written, result },
            None => vstd::pervasive::unreached(),
        }
    }
}

} // verus!
