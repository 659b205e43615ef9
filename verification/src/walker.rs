//! A walk, one step at a time.
//!
//! A walk asks for what it needs to know of the file system, one action at a
//! time, and is told the answer as an event. It touches nothing itself.

use vstd::prelude::*;
use vstd::string::*;
use crate::codegen::{
    IndexFile, IndexFileView, InitMaker, MakerView, expose_through, exposed_through,
    has_source_suffix, imports_of, index_file, index_name, is_index_name, is_source_name, join,
    join_path, module_imports,
};
use crate::error::{Error, ErrorView};
use crate::exposer::get_exposed_names;
use crate::parser::parse_module;
use crate::statement::{ImportStatements, ImportView, import_views};

verus! {

/// What stands at a path.
#[derive(Debug, Clone, Copy, PartialEq, Eq, Structural)]
pub enum Kind {
    /// Nothing.
    Missing,
    /// A directory.
    Directory,
    /// A regular file.
    File,
    /// Anything else.
    Other,
}

/// An entry of a directory, as a listing gives it.
#[derive(Debug, Clone, PartialEq, Eq)]
pub struct Listed {
    pub name: String,
    pub kind: Kind,
}

/// The mathematical form of a `Listed`.
pub struct ListedView {
    pub name: Seq<char>,
    pub kind: Kind,
}

impl View for Listed {
    type V = ListedView;

    open spec fn view(&self) -> ListedView {
        ListedView { name: self.name@, kind: self.kind }
    }
}

/// The views of a listing's entries, in order.
pub open spec fn listed_views(entries: Seq<Listed>) -> Seq<ListedView> {
    entries.map_values(|e: Listed| e@)
}

/// What a walk asks for next.
#[derive(Debug, PartialEq, Eq)]
pub enum Action {
    /// To be told what stands at the path, with `Event::Found`.
    Probe { path: String },
    /// To be given the entries of the directory at the path, with `Event::Listing`.
    List { path: String },
    /// To be given the text of the file at the path, with `Event::Text`.
    Read { path: String },
    /// To have the file written, and be told so with `Event::Written`.
    Write { file: IndexFile },
    /// Nothing: the walk is over.
    Finish,
}

/// The mathematical form of an `Action`.
pub enum ActionView {
    Probe { path: Seq<char> },
    List { path: Seq<char> },
    Read { path: Seq<char> },
    Write { file: IndexFileView },
    Finish,
}

impl View for Action {
    type V = ActionView;

    open spec fn view(&self) -> ActionView {
        match self {
            Action::Probe { path } => ActionView::Probe { path: path@ },
            Action::List { path } => ActionView::List { path: path@ },
            Action::Read { path } => ActionView::Read { path: path@ },
            Action::Write { file } => ActionView::Write { file: file@ },
            Action::Finish => ActionView::Finish,
        }
    }
}

/// What a walk is told in answer to an action.
#[derive(Debug, PartialEq, Eq)]
pub enum Event {
    /// What stands at the path.
    Found(Kind),
    /// The entries of the directory, in the order in which they were found.
    Listing(Vec<Listed>),
    /// The text of the file.
    Text(String),
    /// The file was written.
    Written,
    /// The action failed, with this message.
    Failed(String),
}

/// The mathematical form of an `Event`.
pub enum EventView {
    Found(Kind),
    Listing(Seq<ListedView>),
    Text(Seq<char>),
    Written,
    Failed(Seq<char>),
}

impl View for Event {
    type V = EventView;

    open spec fn view(&self) -> EventView {
        match self {
            Event::Found(kind) => EventView::Found(*kind),
            Event::Listing(entries) => EventView::Listing(listed_views(entries@)),
            Event::Text(text) => EventView::Text(text@),
            Event::Written => EventView::Written,
            Event::Failed(message) => EventView::Failed(message@),
        }
    }
}

/// A package that a walk is in.
pub struct FrameView {
    /// The package's path.
    pub path: Seq<char>,
    /// The package's entries.
    pub entries: Seq<ListedView>,
    /// How many of the entries the walk is through.
    pub next: nat,
    /// What the package exposes through those.
    pub statements: Seq<ImportView>,
}

/// What a walk waits for.
pub enum StageView {
    /// To be told what stands where the walk is.
    Kind,
    /// To be given the entries of the directory where the walk is.
    Listing,
    /// To be given the text of the file where the walk is.
    Text,
    /// To be told that the index file of the innermost package is written.
    Written,
    /// Nothing: the walk is over, and this is what it returns.
    Over(Result<Seq<ImportView>, ErrorView>),
}

/// The mathematical form of a `Walk`.
pub struct WalkView {
    /// The walk's settings, and the path at which it started.
    pub maker: MakerView,
    /// The packages that the walk is in, the outermost first.
    pub frames: Seq<FrameView>,
    /// What the walk waits for.
    pub stage: StageView,
}

/// Whether a walk visits an entry of a listing: it visits directories and
/// files whose names end in `.py`, but nothing called `__init__.py`.
pub open spec fn visits_listed(entry: ListedView) -> bool {
    &&& entry.name != index_name()
    &&& match entry.kind {
        Kind::Directory => true,
        Kind::File => is_source_name(entry.name),
        _ => false,
    }
}

/// The name under which a package exposes an entry of a listing.
pub open spec fn stem_listed(entry: ListedView) -> Seq<char> {
    if entry.kind is File && is_source_name(entry.name) {
        entry.name.subrange(0, entry.name.len() - 3)
    } else {
        entry.name
    }
}

/// The path at which a walk is: where it started, or the entry that it is
/// at in the innermost package.
pub open spec fn here(maker: MakerView, frames: Seq<FrameView>) -> Seq<char> {
    if frames.len() == 0 {
        maker.root
    } else if frames.last().next < frames.last().entries.len() {
        join(frames.last().path, frames.last().entries[frames.last().next as int].name)
    } else {
        frames.last().path
    }
}

/// A walk that is over, and the action that says so.
pub open spec fn over(maker: MakerView, result: Result<Seq<ImportView>, ErrorView>) -> (
    WalkView,
    ActionView,
) {
    (WalkView { maker, frames: Seq::empty(), stage: StageView::Over(result) }, ActionView::Finish)
}

/// How a walk goes on once what stands where it is turns out to expose
/// `found`; `package` tells whether that is a directory. The innermost
/// package takes it in, unless it is a directory that exposes nothing, and
/// the walk proceeds there. Outside any package the walk is over.
pub open spec fn deliver(
    maker: MakerView,
    frames: Seq<FrameView>,
    found: Seq<ImportView>,
    package: bool,
) -> (WalkView, ActionView)
    decreases frames.len(), 1nat, 0nat,
{
    if frames.len() == 0 {
        over(maker, Ok(found))
    } else {
        let top = frames.last();
        if top.next < top.entries.len() {
            let entry = top.entries[top.next as int];
            let statements = if package && found.len() == 0 {
                top.statements
            } else {
                top.statements + exposed_through(stem_listed(entry), found)
            };
            proceed(
                maker,
                frames.drop_last().push(FrameView { next: top.next + 1, statements, ..top }),
            )
        } else {
            proceed(maker, frames)
        }
    }
}

/// How a walk goes on in the innermost package. It probes the next entry
/// that it visits. When no such entry is left, it has the package's index
/// file written if the package exposes anything; if not, the package is
/// done, and exposes nothing.
pub open spec fn proceed(maker: MakerView, frames: Seq<FrameView>) -> (WalkView, ActionView)
    decreases frames.len(), 0nat, frames.last().entries.len() - frames.last().next,
{
    if frames.len() == 0 {
        over(maker, Ok(Seq::empty()))
    } else {
        let top = frames.last();
        if top.next >= top.entries.len() {
            match index_file(maker.at(top.path), top.statements) {
                Some(file) => (
                    WalkView { maker, frames, stage: StageView::Written },
                    ActionView::Write { file },
                ),
                None => deliver(maker, frames.drop_last(), top.statements, true),
            }
        } else if visits_listed(top.entries[top.next as int]) {
            (
                WalkView { maker, frames, stage: StageView::Kind },
                ActionView::Probe { path: here(maker, frames) },
            )
        } else {
            proceed(maker, frames.drop_last().push(FrameView { next: top.next + 1, ..top }))
        }
    }
}

/// How a walk starts: by probing its root.
pub open spec fn begin(maker: MakerView) -> (WalkView, ActionView) {
    (
        WalkView { maker, frames: Seq::empty(), stage: StageView::Kind },
        ActionView::Probe { path: maker.root },
    )
}

/// The message that an event brings, if it reports a failure.
pub open spec fn failure_of(event: EventView) -> Seq<char> {
    match event {
        EventView::Failed(message) => message,
        _ => Seq::empty(),
    }
}

/// How a walk goes on when it is told `event`.
///
/// A walk that is over stays so. Told what stands where it is, a walk asks
/// for the entries of a directory and for the text of a Python source file;
/// anything else ends it. Given the entries of a directory, it enters the
/// package and proceeds there. Given the text of a file, it has the text
/// parsed and takes what the module exposes. Told that an index file is
/// written, it leaves the package, which exposes its statements. An event
/// that does not answer what the walk waits for counts as the failure of
/// what it asked for, and ends it.
pub open spec fn react(walk: WalkView, event: EventView) -> (WalkView, ActionView) {
    let maker = walk.maker;
    let frames = walk.frames;
    let path = here(maker, frames);
    match walk.stage {
        StageView::Over(_) => (walk, ActionView::Finish),
        StageView::Kind => match event {
            EventView::Found(Kind::Directory) => (
                WalkView { stage: StageView::Listing, ..walk },
                ActionView::List { path },
            ),
            EventView::Found(Kind::File) if is_source_name(path) => (
                WalkView { stage: StageView::Text, ..walk },
                ActionView::Read { path },
            ),
            EventView::Found(Kind::File) => over(maker, Err(ErrorView::UnsupportedEntry { path })),
            EventView::Found(Kind::Other) => over(maker, Err(ErrorView::UnsupportedEntry { path })),
            _ => over(maker, Err(ErrorView::PathMissing { path })),
        },
        StageView::Listing => match event {
            EventView::Listing(entries) => proceed(
                maker,
                frames.push(FrameView { path, entries, next: 0, statements: Seq::empty() }),
            ),
            _ => over(maker, Err(ErrorView::ReadFailed { path, message: failure_of(event) })),
        },
        StageView::Text => match event {
            EventView::Text(text) => match module_imports(maker.at(path), text) {
                Ok(found) => deliver(maker, frames, found, false),
                Err(error) => over(maker, Err(error)),
            },
            _ => over(maker, Err(ErrorView::ReadFailed { path, message: failure_of(event) })),
        },
        StageView::Written => if frames.len() == 0 {
            over(maker, Ok(Seq::empty()))
        } else {
            match event {
                EventView::Written => deliver(
                    maker,
                    frames.drop_last(),
                    frames.last().statements,
                    true,
                ),
                _ => over(
                    maker,
                    Err(
                        ErrorView::WriteFailed {
                            path: join(frames.last().path, index_name()),
                            message: failure_of(event),
                        },
                    ),
                ),
            }
        },
    }
}


/// A package that a walk is in.
struct Frame {
    path: String,
    entries: Vec<Listed>,
    next: usize,
    statements: Vec<ImportStatements>,
}

impl View for Frame {
    type V = FrameView;

    closed spec fn view(&self) -> FrameView {
        FrameView {
            path: self.path@,
            entries: listed_views(self.entries@),
            next: self.next as nat,
            statements: import_views(self.statements@),
        }
    }
}

/// What a walk waits for.
enum Stage {
    Kind,
    Listing,
    Text,
    Written,
    Over(Result<Vec<ImportStatements>, Error>),
}

impl View for Stage {
    type V = StageView;

    closed spec fn view(&self) -> StageView {
        match self {
            Stage::Kind => StageView::Kind,
            Stage::Listing => StageView::Listing,
            Stage::Text => StageView::Text,
            Stage::Written => StageView::Written,
            Stage::Over(Ok(statements)) => StageView::Over(Ok(import_views(statements@))),
            Stage::Over(Err(error)) => StageView::Over(Err(error@)),
        }
    }
}

/// A walk over a directory tree, as far as it has come.
pub struct Walk {
    maker: InitMaker,
    frames: Vec<Frame>,
    stage: Stage,
}

spec fn frame_views(frames: Seq<Frame>) -> Seq<FrameView> {
    frames.map_values(|f: Frame| f@)
}

impl View for Walk {
    type V = WalkView;

    closed spec fn view(&self) -> WalkView {
        WalkView { maker: self.maker@, frames: frame_views(self.frames@), stage: self.stage@ }
    }
}

impl Listed {
    /// Whether a walk visits the entry.
    pub fn is_visited(&self) -> (r: bool)
        ensures
            r == visits_listed(self@),
    {
        if is_index_name(&self.name) {
            return false;
        }
        match self.kind {
            Kind::Directory => true,
            Kind::File => has_source_suffix(self.name.as_str()),
            _ => false,
        }
    }

    /// The name under which a package exposes the entry.
    pub fn stem(&self) -> (name: String)
        ensures
            name@ == stem_listed(self@),
    {
        match self.kind {
            Kind::File => {
                if has_source_suffix(self.name.as_str()) {
                    let len = self.name.as_str().unicode_len();
                    String::from_str(self.name.as_str().substring_char(0, len - 3))
                } else {
                    self.name.clone()
                }
            },
            _ => self.name.clone(),
        }
    }
}

impl Walk {
    /// A walk with the given settings, and its first action: to probe the root.
    pub fn start(maker: InitMaker) -> (started: (Walk, Action))
        ensures
            (started.0@, started.1@) == begin(maker@),
    {
        let path = maker.root.clone();
        let walk = Walk { maker, frames: Vec::new(), stage: Stage::Kind };
        assert(frame_views(walk.frames@) =~= Seq::<FrameView>::empty());
        (walk, Action::Probe { path })
    }

    /// How many packages the walk is in.
    pub fn depth(&self) -> (depth: usize)
        ensures
            depth == self@.frames.len(),
    {
        self.frames.len()
    }

    /// Whether the walk is over.
    pub fn is_over(&self) -> (r: bool)
        ensures
            r == (self@.stage is Over),
    {
        match &self.stage {
            Stage::Over(_) => true,
            _ => false,
        }
    }

    /// Whether the walk is over and has failed.
    pub fn has_failed(&self) -> (r: bool)
        ensures
            r == (self@.stage matches StageView::Over(Err(_))),
    {
        match &self.stage {
            Stage::Over(Err(_)) => true,
            _ => false,
        }
    }

    /// What the walk returns, once it is over.
    pub fn into_result(self) -> (result: Option<Result<Vec<ImportStatements>, Error>>)
        ensures
            match result {
                Some(Ok(statements)) => self@.stage == StageView::Over(
                    Ok(import_views(statements@)),
                ),
                Some(Err(error)) => self@.stage == StageView::Over(Err(error@)),
                None => !(self@.stage is Over),
            },
    {
        match self.stage {
            Stage::Over(result) => Some(result),
            _ => None,
        }
    }

    /// The path at which the walk is.
    fn here_path(&self) -> (path: String)
        ensures
            path@ == here(self@.maker, self@.frames),
    {
        let depth = self.frames.len();
        if depth == 0 {
            self.maker.root.clone()
        } else {
            let top = &self.frames[depth - 1];
            if top.next < top.entries.len() {
                join_path(&top.path, top.entries[top.next].name.as_str())
            } else {
                top.path.clone()
            }
        }
    }

    /// Ends the walk.
    fn end(&mut self, result: Result<Vec<ImportStatements>, Error>) -> (action: Action)
        ensures
            (final(self)@, action@) == over(
                old(self)@.maker,
                match result {
                    Ok(statements) => Ok(import_views(statements@)),
                    Err(error) => Err(error@),
                },
            ),
    {
        self.frames = Vec::new();
        self.stage = Stage::Over(result);
        assert(frame_views(self.frames@) =~= Seq::<FrameView>::empty());
        Action::Finish
    }

    /// Goes on in the innermost package.
    fn go_on(&mut self) -> (action: Action)
        ensures
            (final(self)@, action@) == proceed(old(self)@.maker, old(self)@.frames),
    {
        let ghost maker = self@.maker;
        let ghost target = proceed(self@.maker, self@.frames);
        loop
            invariant
                self@.maker == maker,
                target == proceed(old(self)@.maker, old(self)@.frames),
                target == proceed(maker, self@.frames),
            decreases self.frames.len(),
        {
            let ghost frames = self@.frames;
            let mut top = match self.frames.pop() {
                Some(top) => top,
                None => {
                    let nothing: Vec<ImportStatements> = Vec::new();
                    assert(import_views(nothing@) =~= Seq::<ImportView>::empty());
                    return self.end(Ok(nothing));
                },
            };
            let ghost below = frame_views(self.frames@);
            assert(frames =~= below.push(top@));
            while top.next < top.entries.len() && !top.entries[top.next].is_visited()
                invariant
                    proceed(maker, frames) == proceed(maker, below.push(top@)),
                decreases top.entries.len() - top.next,
            {
                let ghost before = top@;
                assert(below.push(before).drop_last() =~= below);
                top.next = top.next + 1;
            }
            assert(below.push(top@).drop_last() =~= below);
            if top.next < top.entries.len() {
                let path = join_path(&top.path, top.entries[top.next].name.as_str());
                self.frames.push(top);
                self.stage = Stage::Kind;
                assert(frame_views(self.frames@) =~= below.push(top@));
                return Action::Probe { path };
            }
            match self.maker.with_root(top.path.clone()).process_init_file(&top.statements) {
                Some(file) => {
                    self.frames.push(top);
                    self.stage = Stage::Written;
                    assert(frame_views(self.frames@) =~= below.push(top@));
                    return Action::Write { file };
                },
                None => {
                    assert(proceed(maker, below.push(top@)) == deliver(
                        maker,
                        below,
                        top@.statements,
                        true,
                    ));
                    let found = top.statements;
                    let mut parent = match self.frames.pop() {
                        Some(parent) => parent,
                        None => {
                            return self.end(Ok(found));
                        },
                    };
                    let ghost outside = frame_views(self.frames@);
                    assert(outside =~= below.drop_last());
                    if parent.next < parent.entries.len() {
                        if found.len() > 0 {
                            let name = parent.entries[parent.next].stem();
                            expose_through(&mut parent.statements, &name, &found);
                        }
                        parent.next = parent.next + 1;
                    } else {
                        assert(below =~= outside.push(parent@));
                    }
                    self.frames.push(parent);
                    assert(frame_views(self.frames@) =~= outside.push(parent@));
                },
            }
        }
    }

    /// Goes on once what stands where the walk is turns out to expose
    /// `found`; `package` tells whether that is a directory.
    fn take_in(&mut self, found: Vec<ImportStatements>, package: bool) -> (action: Action)
        ensures
            (final(self)@, action@) == deliver(
                old(self)@.maker,
                old(self)@.frames,
                import_views(found@),
                package,
            ),
    {
        let ghost frames = self@.frames;
        let mut top = match self.frames.pop() {
            Some(top) => top,
            None => {
                return self.end(Ok(found));
            },
        };
        let ghost below = frame_views(self.frames@);
        assert(below =~= frames.drop_last());
        if top.next < top.entries.len() {
            if !package || found.len() > 0 {
                let name = top.entries[top.next].stem();
                expose_through(&mut top.statements, &name, &found);
            }
            top.next = top.next + 1;
            self.frames.push(top);
            assert(frame_views(self.frames@) =~= below.push(top@));
        } else {
            self.frames.push(top);
            assert(frame_views(self.frames@) =~= frames);
        }
        self.go_on()
    }

    /// Takes the answer to the walk's last action, and gives its next.
    ///
    /// A walk that is over stays so. Told what stands where it is, a walk asks
    /// for the entries of a directory and for the text of a Python source
    /// file; anything else ends it. Given the entries of a directory, it
    /// enters the package and probes the first entry that it visits. Given
    /// the text of a file, it has the text parsed and takes what the module
    /// exposes. When a package's entries are done, the walk has its index
    /// file written if it exposes anything; told that the file is written,
    /// it leaves the package. An event that does not answer what the walk
    /// waits for counts as the failure of what it asked for, and ends it.
    pub fn step(&mut self, event: Event) -> (action: Action)
        ensures
            (final(self)@, action@) == react(old(self)@, event@),
    {
        let path = self.here_path();
        match &self.stage {
            Stage::Over(_) => Action::Finish,
            Stage::Kind => match event {
                Event::Found(Kind::Directory) => {
                    self.stage = Stage::Listing;
                    Action::List { path }
                },
                Event::Found(Kind::File) => {
                    if has_source_suffix(path.as_str()) {
                        self.stage = Stage::Text;
                        Action::Read { path }
                    } else {
                        self.end(Err(Error::UnsupportedEntry { path }))
                    }
                },
                Event::Found(Kind::Other) => self.end(Err(Error::UnsupportedEntry { path })),
                _ => self.end(Err(Error::PathMissing { path })),
            },
            Stage::Listing => match event {
                Event::Listing(entries) => {
                    let ghost frames = self@.frames;
                    let frame = Frame { path, entries, next: 0, statements: Vec::new() };
                    assert(frame@.statements =~= Seq::<ImportView>::empty());
                    self.frames.push(frame);
                    assert(frame_views(self.frames@) =~= frames.push(frame@));
                    self.go_on()
                },
                Event::Failed(message) => self.end(Err(Error::ReadFailed { path, message })),
                _ => self.end(Err(Error::ReadFailed { path, message: String::new() })),
            },
            Stage::Text => match event {
                Event::Text(text) => {
                    match parse_module(text.as_str(), self.maker.py_version) {
                        Ok(syntax) => {
                            let names = get_exposed_names(
                                &syntax,
                                self.maker.respect_all,
                            );
                            self.take_in(imports_of(names), false)
                        },
                        Err(failure) => self.end(
                            Err(Error::ParseFailed { path, message: failure.describe() }),
                        ),
                    }
                },
                Event::Failed(message) => self.end(Err(Error::ReadFailed { path, message })),
                _ => self.end(Err(Error::ReadFailed { path, message: String::new() })),
            },
            Stage::Written => {
                let ghost frames = self@.frames;
                let top = match self.frames.pop() {
                    Some(top) => top,
                    None => {
                        let nothing: Vec<ImportStatements> = Vec::new();
                        assert(import_views(nothing@) =~= Seq::<ImportView>::empty());
                        return self.end(Ok(nothing));
                    },
                };
                assert(frame_views(self.frames@) =~= frames.drop_last());
                match event {
                    Event::Written => self.take_in(top.statements, true),
                    Event::Failed(message) => {
                        let path = join_path(&top.path, "__init__.py");
                        self.end(Err(Error::WriteFailed { path, message }))
                    },
                    _ => {
                        let path = join_path(&top.path, "__init__.py");
                        self.end(Err(Error::WriteFailed { path, message: String::new() }))
                    },
                }
            },
        }
    }
}

} // verus!
