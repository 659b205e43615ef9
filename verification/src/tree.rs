//! A directory tree as a value, and how a walk through it ends.

use vstd::prelude::*;
use crate::codegen::{
    MakerView, OutcomeView, exposed_through, has_source_suffix, index_file, is_index_name,
    is_source_name, join, module_imports,
};
use crate::error::ErrorView;
use crate::statement::ImportView;
use crate::walker::{Kind, Listed, ListedView, listed_views, stem_listed, visits_listed};

verus! {

/// What stands at a path.
#[derive(Debug)]
pub enum Node {
    /// Nothing.
    Missing,
    /// A directory, with its immediate entries in the order in which they were found.
    Directory(Vec<Entry>),
    /// A regular file.
    File(Contents),
    /// Anything else.
    Other,
}

/// What reading a regular file gives.
#[derive(Debug, Clone, PartialEq, Eq)]
pub enum Contents {
    /// The file's text.
    Text(String),
    /// The file could not be read: the message of the failure.
    Unreadable(String),
}

/// The mathematical form of a `Contents`.
pub enum ContentsView {
    Text(Seq<char>),
    Unreadable(Seq<char>),
}

impl View for Contents {
    type V = ContentsView;

    open spec fn view(&self) -> ContentsView {
        match self {
            Contents::Text(text) => ContentsView::Text(text@),
            Contents::Unreadable(message) => ContentsView::Unreadable(message@),
        }
    }
}

/// An entry of a directory.
#[derive(Debug)]
pub struct Entry {
    pub name: String,
    pub node: Node,
}

/// The mathematical form of a `Node`.
pub enum NodeView {
    Missing,
    Directory(Seq<EntryView>),
    File(ContentsView),
    Other,
}

/// The mathematical form of an `Entry`.
pub struct EntryView {
    pub name: Seq<char>,
    pub node: NodeView,
}

impl View for Entry {
    type V = EntryView;

    open spec fn view(&self) -> EntryView {
        EntryView { name: self.name@, node: self.node@ }
    }
}

/// The views of a sequence of entries, in order.
pub open spec fn entry_views(entries: Seq<Entry>) -> Seq<EntryView> {
    entries.map_values(|e: Entry| e@)
}

/// A directory's view holds the views of its entries.
pub proof fn lemma_directory_view(entries: Vec<Entry>)
    ensures
        Node::Directory(entries)@ == NodeView::Directory(entry_views(entries@)),
{
    assert(Node::Directory(entries)@->Directory_0 =~= entry_views(entries@));
}

impl View for Node {
    type V = NodeView;

    open spec fn view(&self) -> NodeView
        decreases self,
    {
        match self {
            Node::Missing => NodeView::Missing,
            Node::Directory(entries) => NodeView::Directory(
                Seq::new(
                    entries@.len(),
                    |i: int|
                        if 0 <= i < entries@.len() {
                            EntryView { name: entries@[i].name@, node: entries@[i].node.view() }
                        } else {
                            arbitrary()
                        },
                ),
            ),
            Node::File(contents) => NodeView::File(contents@),
            Node::Other => NodeView::Other,
        }
    }
}

/// What a probe finds of a node.
pub open spec fn kind_of(node: NodeView) -> Kind {
    match node {
        NodeView::Missing => Kind::Missing,
        NodeView::Directory(_) => Kind::Directory,
        NodeView::File(_) => Kind::File,
        NodeView::Other => Kind::Other,
    }
}

/// How a listing gives an entry.
pub open spec fn listed(entry: EntryView) -> ListedView {
    ListedView { name: entry.name, kind: kind_of(entry.node) }
}

/// The listing of a directory with the given entries.
pub open spec fn listing(entries: Seq<EntryView>) -> Seq<ListedView> {
    entries.map_values(|e: EntryView| listed(e))
}

/// Whether a walk visits an entry of a directory: it visits directories and
/// files whose names end in `.py`, but nothing called `__init__.py`.
pub open spec fn is_visited(entry: EntryView) -> bool {
    visits_listed(listed(entry))
}

/// The name under which a package exposes an entry: a file's name without
/// its `.py`, a directory's name.
pub open spec fn stem(entry: EntryView) -> Seq<char> {
    stem_listed(listed(entry))
}

/// The settings with which a walk visits `entry` of the package at `maker.root`.
pub open spec fn below(maker: MakerView, entry: EntryView) -> MakerView {
    maker.at(join(maker.root, entry.name))
}

/// What reading the module at `maker.root` leads to: what the module
/// exposes, or the failure to read or to parse it.
pub open spec fn module_outcome(maker: MakerView, contents: ContentsView) -> Result<
    Seq<ImportView>,
    ErrorView,
> {
    match contents {
        ContentsView::Text(text) => module_imports(maker, text),
        ContentsView::Unreadable(message) => Err(
            ErrorView::ReadFailed { path: maker.root, message },
        ),
    }
}

/// How the walk that starts at `maker.root` ends, where `node` stands there.
///
/// A module exposes its exposed names. A package exposes what `walked` finds
/// in its entries, and gets an index file if that is anything. Nothing else
/// can be walked.
pub open spec fn walk(maker: MakerView, node: NodeView) -> OutcomeView
    decreases node, 0nat,
{
    match node {
        NodeView::Missing => OutcomeView {
            written: Seq::empty(),
            result: Err(ErrorView::PathMissing { path: maker.root }),
        },
        NodeView::Directory(entries) => {
            let inside = walked(maker, entries, entries.len());
            match inside.result {
                Ok(statements) => match index_file(maker, statements) {
                    Some(file) => OutcomeView {
                        written: inside.written.push(file),
                        result: Ok(statements),
                    },
                    None => inside,
                },
                Err(_) => inside,
            }
        },
        NodeView::File(contents) if is_source_name(maker.root) => OutcomeView {
            written: Seq::empty(),
            result: module_outcome(maker, contents),
        },
        _ => OutcomeView {
            written: Seq::empty(),
            result: Err(ErrorView::UnsupportedEntry { path: maker.root }),
        },
    }
}

/// How the walk through the first `count` entries of the package at
/// `maker.root` ends.
///
/// The entries are taken in order, and the first failure ends the walk. An
/// entry that is not visited adds nothing, nor does a directory that exposes
/// nothing. Every other entry adds what the package exposes through it.
pub open spec fn walked(maker: MakerView, entries: Seq<EntryView>, count: nat) -> OutcomeView
    decreases entries, count,
{
    if count == 0 || count > entries.len() {
        OutcomeView { written: Seq::empty(), result: Ok(Seq::empty()) }
    } else {
        let before = walked(maker, entries, (count - 1) as nat);
        let entry = entries[count - 1];
        match before.result {
            Ok(statements) if is_visited(entry) => {
                let under = walk(below(maker, entry), entry.node);
                OutcomeView {
                    written: before.written + under.written,
                    result: match under.result {
                        Ok(found) => if entry.node is Directory && found.len() == 0 {
                            Ok(statements)
                        } else {
                            Ok(statements + exposed_through(stem(entry), found))
                        },
                        Err(error) => Err(error),
                    },
                }
            },
            _ => before,
        }
    }
}

/// Once a walk through a package's entries has failed, that is how it ends.
pub proof fn lemma_walked_after_failure(
    maker: MakerView,
    entries: Seq<EntryView>,
    failed: nat,
    count: nat,
)
    requires
        walked(maker, entries, failed).result is Err,
        failed <= count <= entries.len(),
    ensures
        walked(maker, entries, count) == walked(maker, entries, failed),
    decreases count,
{
    if failed < count {
        lemma_walked_after_failure(maker, entries, failed, (count - 1) as nat);
    }
}

/// Whether a walk visits `entry`.
pub fn visits(entry: &Entry) -> (r: bool)
    ensures
        r == is_visited(entry@),
{
    if is_index_name(&entry.name) {
        return false;
    }
    match &entry.node {
        Node::Directory(_) => true,
        Node::File(_) => has_source_suffix(entry.name.as_str()),
        _ => false,
    }
}

/// What a probe finds of a node.
pub fn probe(node: &Node) -> (kind: Kind)
    ensures
        kind == kind_of(node@),
{
    match node {
        Node::Missing => Kind::Missing,
        Node::Directory(_) => Kind::Directory,
        Node::File(_) => Kind::File,
        Node::Other => Kind::Other,
    }
}

/// The listing of a directory with the given entries.
pub fn list(entries: &Vec<Entry>) -> (found: Vec<Listed>)
    ensures
        listed_views(found@) == listing(entry_views(entries@)),
{
    let mut found: Vec<Listed> = Vec::new();
    let mut i: usize = 0;
    while i < entries.len()
        invariant
            i <= entries.len(),
            found@.len() == i,
            forall|k: int| 0 <= k < i ==> found@[k]@ == listed(entries@[k]@),
        decreases entries.len() - i,
    {
        found.push(Listed { name: entries[i].name.clone(), kind: probe(&entries[i].node) });
        i += 1;
    }
    found
}

} // verus!
