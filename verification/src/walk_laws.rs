//! What holds of every walk.

use vstd::prelude::*;
use crate::codegen::{
    IndexFileView, MakerView, OutcomeView, exposed_through, index_file, index_name, join,
    module_imports,
};
use crate::exposer::{effective_list, lemma_underscore_rule};
use crate::parser::parsed;
use crate::render::rendered;
use crate::statement::{ImportView, exposed_name};
use crate::syntax::SyntaxView;
use crate::text::begins_with_underscore;
use crate::tree::{
    ContentsView, EntryView, NodeView, below, is_visited, stem, walk, walked,
};
use crate::walker::{
    ActionView, EventView, FrameView, StageView, WalkView, deliver, here, proceed, react,
    stem_listed, visits_listed,
};

verus! {

/// A walk writes index files only: every file that it writes is called
/// `__init__.py`.
pub proof fn lemma_writes_indexes_only(maker: MakerView, node: NodeView, i: int)
    requires
        0 <= i < walk(maker, node).written.len(),
    ensures
        exists|dir: Seq<char>| walk(maker, node).written[i].path == join(dir, index_name()),
    decreases node, 0nat,
{
    match node {
        NodeView::Directory(entries) => {
            let inside = walked(maker, entries, entries.len());
            if i < inside.written.len() {
                lemma_walked_writes_indexes_only(maker, entries, entries.len(), i);
            }
        },
        _ => {},
    }
}

proof fn lemma_walked_writes_indexes_only(
    maker: MakerView,
    entries: Seq<EntryView>,
    count: nat,
    i: int,
)
    requires
        0 <= i < walked(maker, entries, count).written.len(),
    ensures
        exists|dir: Seq<char>|
            walked(maker, entries, count).written[i].path == join(dir, index_name()),
    decreases entries, count,
{
    if 0 < count <= entries.len() {
        let before = walked(maker, entries, (count - 1) as nat);
        let entry = entries[count - 1];
        if before.result is Ok && is_visited(entry) {
            if i < before.written.len() {
                lemma_walked_writes_indexes_only(maker, entries, (count - 1) as nat, i);
            } else {
                lemma_writes_indexes_only(below(maker, entry), entry.node, i - before.written.len());
            }
        } else {
            lemma_walked_writes_indexes_only(maker, entries, (count - 1) as nat, i);
        }
    }
}

/// A package that exposes nothing gets no index file, and nothing below it
/// gets one.
pub proof fn lemma_silent_when_nothing_exposed(maker: MakerView, node: NodeView)
    requires
        node is Directory,
        walk(maker, node).result == Ok::<Seq<ImportView>, crate::error::ErrorView>(Seq::empty()),
    ensures
        walk(maker, node).written == Seq::<IndexFileView>::empty(),
    decreases node, 0nat,
{
    let entries = node->Directory_0;
    lemma_walked_silent(maker, entries, entries.len());
}

proof fn lemma_walked_silent(maker: MakerView, entries: Seq<EntryView>, count: nat)
    requires
        walked(maker, entries, count).result == Ok::<Seq<ImportView>, crate::error::ErrorView>(
            Seq::empty(),
        ),
    ensures
        walked(maker, entries, count).written == Seq::<IndexFileView>::empty(),
    decreases entries, count,
{
    if 0 < count <= entries.len() {
        let before = walked(maker, entries, (count - 1) as nat);
        let entry = entries[count - 1];
        match before.result {
            Ok(statements) => {
                if is_visited(entry) {
                    let under = walk(below(maker, entry), entry.node);
                    match under.result {
                        Ok(found) => {
                            if entry.node is Directory && found.len() == 0 {
                                assert(found =~= Seq::empty());
                                lemma_silent_when_nothing_exposed(below(maker, entry), entry.node);
                                lemma_walked_silent(maker, entries, (count - 1) as nat);
                            }
                        },
                        Err(_) => {},
                    }
                } else {
                    lemma_walked_silent(maker, entries, (count - 1) as nat);
                }
            },
            Err(_) => {},
        }
    }
}

/// A package gets an index file if and only if it exposes something: where
/// the walk of a directory succeeds and the directory exposes anything, the
/// last file written is the directory's own index file, which exposes just
/// that; where it exposes nothing, nothing is written.
pub proof fn lemma_index_iff_exposed(maker: MakerView, entries: Seq<EntryView>)
    requires
        walk(maker, NodeView::Directory(entries)).result is Ok,
    ensures
        ({
            let outcome = walk(maker, NodeView::Directory(entries));
            let statements = outcome.result->Ok_0;
            if statements.len() > 0 {
                outcome.written.len() > 0 && outcome.written.last() == (IndexFileView {
                    path: join(maker.root, index_name()),
                    contents: rendered(statements, maker.sort_imports),
                })
            } else {
                outcome.written.len() == 0
            }
        }),
{
    let outcome = walk(maker, NodeView::Directory(entries));
    if outcome.result->Ok_0.len() == 0 {
        assert(outcome.result->Ok_0 =~= Seq::empty());
        lemma_silent_when_nothing_exposed(maker, NodeView::Directory(entries));
    }
}

/// Whether a walk passes over `entry` of the package at `maker.root` without
/// finding anything to expose: it does not visit it, or it is a directory
/// that exposes nothing.
pub open spec fn exposes_nothing(maker: MakerView, entry: EntryView) -> bool {
    !is_visited(entry) || (entry.node is Directory && walk(
        below(maker, entry),
        entry.node,
    ).result == Ok::<Seq<ImportView>, crate::error::ErrorView>(Seq::empty()))
}

/// A directory that holds no Python source file and no directory that
/// exposes anything gets no index file: the walk through it writes nothing
/// and returns no statement.
pub proof fn lemma_empty_directory_silence(maker: MakerView, entries: Seq<EntryView>)
    requires
        forall|k: int| 0 <= k < entries.len() ==> exposes_nothing(maker, #[trigger] entries[k]),
    ensures
        walk(maker, NodeView::Directory(entries)) == (OutcomeView {
            written: Seq::empty(),
            result: Ok(Seq::empty()),
        }),
{
    lemma_walked_nothing(maker, entries, entries.len());
}

proof fn lemma_walked_nothing(maker: MakerView, entries: Seq<EntryView>, count: nat)
    requires
        count <= entries.len(),
        forall|k: int| 0 <= k < entries.len() ==> exposes_nothing(maker, #[trigger] entries[k]),
    ensures
        walked(maker, entries, count) == (OutcomeView {
            written: Seq::empty(),
            result: Ok(Seq::empty()),
        }),
    decreases count,
{
    if count > 0 {
        lemma_walked_nothing(maker, entries, (count - 1) as nat);
        let entry = entries[count - 1];
        if is_visited(entry) {
            lemma_silent_when_nothing_exposed(below(maker, entry), entry.node);
        }
    }
}

/// What a package exposes through `entry`: nothing if the walk does not
/// visit it, nor if it is a directory that exposes nothing; else the entry
/// itself, under its stem, and every name that the entry exposes, as an
/// attribute of the entry.
pub open spec fn contribution(maker: MakerView, entry: EntryView) -> Seq<ImportView> {
    if is_visited(entry) {
        match walk(below(maker, entry), entry.node).result {
            Ok(found) if !(entry.node is Directory && found.len() == 0) => exposed_through(
                stem(entry),
                found,
            ),
            _ => Seq::empty(),
        }
    } else {
        Seq::empty()
    }
}

/// Every statement that a package exposes, it exposes through one of its
/// own entries: the statement names that entry as the module, by its stem,
/// whatever lies deeper.
pub proof fn lemma_exposed_through_an_entry(
    maker: MakerView,
    entries: Seq<EntryView>,
    count: nat,
    i: int,
)
    requires
        walked(maker, entries, count).result is Ok,
        0 <= i < walked(maker, entries, count).result->Ok_0.len(),
    ensures
        exists|k: int|
            0 <= k < count && k < entries.len() && #[trigger] contribution(
                maker,
                entries[k],
            ).contains(walked(maker, entries, count).result->Ok_0[i]),
    decreases count,
{
    if 0 < count <= entries.len() {
        let before = walked(maker, entries, (count - 1) as nat);
        let all = walked(maker, entries, count).result->Ok_0;
        let statements = before.result->Ok_0;
        if i < statements.len() {
            assert(all[i] == statements[i]);
            lemma_exposed_through_an_entry(maker, entries, (count - 1) as nat, i);
        } else {
            assert(contribution(maker, entries[count - 1]).contains(all[i]));
        }
    }
}

/// Every name that an entry exposes, the package exposes as an attribute of
/// that entry, and the entry itself as a module.
pub proof fn lemma_entry_is_exposed(
    maker: MakerView,
    entries: Seq<EntryView>,
    count: nat,
    k: int,
    j: int,
)
    requires
        walked(maker, entries, count).result is Ok,
        0 <= k < count <= entries.len(),
        0 <= j < contribution(maker, entries[k]).len(),
    ensures
        walked(maker, entries, count).result->Ok_0.contains(contribution(maker, entries[k])[j]),
    decreases count,
{
    let before = walked(maker, entries, (count - 1) as nat);
    let all = walked(maker, entries, count).result->Ok_0;
    let statements = before.result->Ok_0;
    let wanted = contribution(maker, entries[k])[j];
    if k == count - 1 {
        assert(all[statements.len() + j] == wanted);
    } else {
        lemma_entry_is_exposed(maker, entries, (count - 1) as nat, k, j);
        let at = choose|at: int| 0 <= at < statements.len() && statements[at] == wanted;
        assert(all[at] == wanted);
    }
}

/// What a package exposes through a member is the member and the names that
/// the member exposes, each as an attribute of the member itself: the module
/// of a statement that the member exposes is dropped.
pub proof fn lemma_flattening_depth(name: Seq<char>, found: Seq<ImportView>, i: int)
    requires
        0 <= i < exposed_through(name, found).len(),
    ensures
        exposed_through(name, found).len() == found.len() + 1,
        exposed_through(name, found)[0] == ImportView::Import(name),
        i > 0 ==> exposed_through(name, found)[i] == ImportView::FromImport(
            name,
            exposed_name(found[i - 1]),
        ),
{
}


/// Whether two trees hold the same sources: whether they differ at most in
/// entries called `__init__.py`, at any depth.
pub open spec fn alike(a: NodeView, b: NodeView) -> bool
    decreases a, 0nat,
{
    match a {
        NodeView::Directory(ea) => b matches NodeView::Directory(eb) && alike_entries(
            ea,
            ea.len(),
            eb,
            eb.len(),
        ),
        _ => a == b,
    }
}

/// Whether the first `na` entries of `ea` and the first `nb` of `eb` hold the
/// same sources: whether, once the entries called `__init__.py` are left
/// out, they have the same names in the same order, and alike nodes.
pub open spec fn alike_entries(ea: Seq<EntryView>, na: nat, eb: Seq<EntryView>, nb: nat) -> bool
    decreases ea, na + nb,
{
    if na > ea.len() || nb > eb.len() {
        false
    } else if na > 0 && ea[na - 1].name == index_name() {
        alike_entries(ea, (na - 1) as nat, eb, nb)
    } else if nb > 0 && eb[nb - 1].name == index_name() {
        alike_entries(ea, na, eb, (nb - 1) as nat)
    } else if na == 0 || nb == 0 {
        na == 0 && nb == 0
    } else {
        &&& ea[na - 1].name == eb[nb - 1].name
        &&& alike(ea[na - 1].node, eb[nb - 1].node)
        &&& alike_entries(ea, (na - 1) as nat, eb, (nb - 1) as nat)
    }
}

/// A walk does not see index files: two trees that hold the same sources
/// are walked alike.
pub proof fn lemma_index_files_unseen(maker: MakerView, a: NodeView, b: NodeView)
    requires
        alike(a, b),
    ensures
        walk(maker, a) == walk(maker, b),
    decreases a, 0nat,
{
    match a {
        NodeView::Directory(ea) => {
            let eb = b->Directory_0;
            lemma_walked_alike(maker, ea, ea.len(), eb, eb.len());
        },
        _ => {},
    }
}

proof fn lemma_walked_alike(
    maker: MakerView,
    ea: Seq<EntryView>,
    na: nat,
    eb: Seq<EntryView>,
    nb: nat,
)
    requires
        alike_entries(ea, na, eb, nb),
    ensures
        walked(maker, ea, na) == walked(maker, eb, nb),
    decreases ea, na + nb,
{
    if na > 0 && ea[na - 1].name == index_name() {
        lemma_walked_alike(maker, ea, (na - 1) as nat, eb, nb);
    } else if nb > 0 && eb[nb - 1].name == index_name() {
        lemma_walked_alike(maker, ea, na, eb, (nb - 1) as nat);
    } else if na > 0 && nb > 0 {
        let a = ea[na - 1];
        let b = eb[nb - 1];
        lemma_walked_alike(maker, ea, (na - 1) as nat, eb, (nb - 1) as nat);
        lemma_index_files_unseen(below(maker, a), a.node, b.node);
        assert(alike(a.node, b.node));
    }
}

proof fn lemma_alike_past_an_index(ea: Seq<EntryView>, na: nat, eb: Seq<EntryView>, nb: nat)
    requires
        0 < nb <= eb.len(),
        eb[nb - 1].name == index_name(),
        alike_entries(ea, na, eb, (nb - 1) as nat),
    ensures
        alike_entries(ea, na, eb, nb),
    decreases na,
{
    if na > 0 && ea[na - 1].name == index_name() {
        lemma_alike_past_an_index(ea, (na - 1) as nat, eb, nb);
    }
}

proof fn lemma_alike_entry_by_entry(ea: Seq<EntryView>, eb: Seq<EntryView>, count: nat)
    requires
        count <= ea.len(),
        count <= eb.len(),
        forall|i: int|
            0 <= i < count ==> (#[trigger] ea[i]).name == eb[i].name && (ea[i].name
                == index_name() || alike(ea[i].node, eb[i].node)),
    ensures
        alike_entries(ea, count, eb, count),
    decreases count,
{
    if count > 0 {
        lemma_alike_entry_by_entry(ea, eb, (count - 1) as nat);
        if ea[count - 1].name == index_name() {
            lemma_alike_past_an_index(ea, (count - 1) as nat, eb, count);
        }
    }
}

/// A directory's entries once a file called `__init__.py` with the given
/// text is written there: over what is called so, or as a new entry.
pub open spec fn with_index(entries: Seq<EntryView>, text: Seq<char>) -> Seq<EntryView> {
    let file = NodeView::File(ContentsView::Text(text));
    if exists|i: int| 0 <= i < entries.len() && entries[i].name == index_name() {
        Seq::new(
            entries.len(),
            |i: int|
                if entries[i].name == index_name() {
                    EntryView { name: entries[i].name, node: file }
                } else {
                    entries[i]
                },
        )
    } else {
        entries.push(EntryView { name: index_name(), node: file })
    }
}

/// The tree that a walk leaves behind: the tree that it found, with every
/// index file that it wrote.
pub open spec fn settled(maker: MakerView, node: NodeView) -> NodeView
    decreases node, 0nat,
{
    match node {
        NodeView::Directory(entries) => {
            let inside = settled_entries(maker, entries, entries.len());
            match walk(maker, node).result {
                Ok(statements) => match index_file(maker, statements) {
                    Some(file) => NodeView::Directory(with_index(inside, file.contents)),
                    None => NodeView::Directory(inside),
                },
                Err(_) => NodeView::Directory(inside),
            }
        },
        _ => node,
    }
}

/// The entries that a walk through the first `count` of them leaves behind.
pub open spec fn settled_entries(maker: MakerView, entries: Seq<EntryView>, count: nat) -> Seq<
    EntryView,
>
    decreases entries, count,
{
    if count == 0 || count > entries.len() {
        entries
    } else {
        let before = settled_entries(maker, entries, (count - 1) as nat);
        let entry = entries[count - 1];
        if walked(maker, entries, (count - 1) as nat).result is Ok && is_visited(entry) {
            before.update(
                count - 1,
                EntryView { name: entry.name, node: settled(below(maker, entry), entry.node) },
            )
        } else {
            before
        }
    }
}

/// The tree that a walk leaves behind holds the same sources as the tree
/// that it found.
pub proof fn lemma_settled_alike(maker: MakerView, node: NodeView)
    ensures
        alike(node, settled(maker, node)),
    decreases node, 0nat,
{
    match node {
        NodeView::Directory(entries) => {
            lemma_settled_entries_alike(maker, entries, entries.len());
            let after = settled(maker, node)->Directory_0;
            lemma_alike_entry_by_entry(entries, after, entries.len());
            if after.len() > entries.len() {
                lemma_alike_past_an_index(entries, entries.len(), after, after.len());
            }
        },
        _ => {},
    }
}

proof fn lemma_settled_entries_alike(maker: MakerView, entries: Seq<EntryView>, count: nat)
    ensures
        settled_entries(maker, entries, count).len() == entries.len(),
        forall|i: int|
            0 <= i < entries.len() ==> (#[trigger] entries[i]).name == settled_entries(
                maker,
                entries,
                count,
            )[i].name && alike(entries[i].node, settled_entries(maker, entries, count)[i].node),
    decreases entries, count,
{
    if count == 0 || count > entries.len() {
        assert forall|i: int| 0 <= i < entries.len() implies alike(
            (#[trigger] entries[i]).node,
            entries[i].node,
        ) by {
            lemma_alike_itself(entries[i].node);
        }
    } else {
        lemma_settled_entries_alike(maker, entries, (count - 1) as nat);
        let entry = entries[count - 1];
        lemma_settled_alike(below(maker, entry), entry.node);
    }
}

/// Every tree holds the same sources as itself.
pub proof fn lemma_alike_itself(node: NodeView)
    ensures
        alike(node, node),
    decreases node,
{
    match node {
        NodeView::Directory(entries) => {
            assert forall|i: int| 0 <= i < entries.len() implies alike(
                (#[trigger] entries[i]).node,
                entries[i].node,
            ) by {
                lemma_alike_itself(entries[i].node);
            }
            lemma_alike_entry_by_entry(entries, entries, entries.len());
        },
        _ => {},
    }
}

/// A second walk, over the tree that the first left behind, ends as the
/// first did: it writes the same files with the same text, and returns the
/// same.
pub proof fn lemma_idempotence(maker: MakerView, node: NodeView)
    ensures
        walk(maker, settled(maker, node)) == walk(maker, node),
{
    lemma_settled_alike(maker, node);
    lemma_index_files_unseen(maker, node, settled(maker, node));
}


/// Whether no name in a statement begins with an underscore.
pub open spec fn without_underscore(statement: ImportView) -> bool {
    match statement {
        ImportView::Import(module) => !begins_with_underscore(module),
        ImportView::FromImport(module, attribute) => !begins_with_underscore(module)
            && !begins_with_underscore(attribute),
    }
}

/// Whether a walk finds no name that begins with an underscore unless a
/// module's own source hides it: whether no module of the tree declares
/// public names that count, and no entry that the walk visits has a stem
/// that begins with an underscore.
pub open spec fn plain(maker: MakerView, node: NodeView) -> bool
    decreases node,
{
    match node {
        NodeView::Directory(entries) => forall|k: int|
            0 <= k < entries.len() && is_visited(#[trigger] entries[k]) ==> {
                &&& !begins_with_underscore(stem(entries[k]))
                &&& plain(below(maker, entries[k]), entries[k].node)
            },
        NodeView::File(ContentsView::Text(text)) => match parsed(
            text,
            maker.py_version.major,
            maker.py_version.minor,
        ) {
            Ok(SyntaxView::Module(body)) => effective_list(body, maker.respect_all) is None,
            _ => true,
        },
        _ => true,
    }
}

/// Without a public-name declaration that counts, and unless a file or
/// directory is itself called by such a name, no name that a walk returns
/// begins with an underscore.
pub proof fn lemma_underscore_rule_in_walk(maker: MakerView, node: NodeView, i: int)
    requires
        plain(maker, node),
        walk(maker, node).result is Ok,
        0 <= i < walk(maker, node).result->Ok_0.len(),
    ensures
        without_underscore(walk(maker, node).result->Ok_0[i]),
    decreases node, 0nat,
{
    match node {
        NodeView::Directory(entries) => {
            lemma_underscore_rule_in_walked(maker, entries, entries.len(), i);
        },
        NodeView::File(ContentsView::Text(text)) => {
            let syntax = parsed(text, maker.py_version.major, maker.py_version.minor)->Ok_0;
            lemma_underscore_rule(syntax, maker.respect_all);
        },
        _ => {},
    }
}

proof fn lemma_underscore_rule_in_walked(
    maker: MakerView,
    entries: Seq<EntryView>,
    count: nat,
    i: int,
)
    requires
        plain(maker, NodeView::Directory(entries)),
        walked(maker, entries, count).result is Ok,
        0 <= i < walked(maker, entries, count).result->Ok_0.len(),
    ensures
        without_underscore(walked(maker, entries, count).result->Ok_0[i]),
    decreases entries, count,
{
    if 0 < count <= entries.len() {
        let before = walked(maker, entries, (count - 1) as nat);
        let entry = entries[count - 1];
        let statements = before.result->Ok_0;
        if i < statements.len() {
            lemma_underscore_rule_in_walked(maker, entries, (count - 1) as nat, i);
        } else {
            let j = i - statements.len();
            if j > 0 {
                lemma_underscore_rule_in_walk(below(maker, entry), entry.node, j - 1);
            }
        }
    }
}

/// Whether an action leaves every file but index files alone: whether it
/// writes nothing, or a file called `__init__.py`.
pub open spec fn writes_an_index_at_most(action: ActionView) -> bool {
    action matches ActionView::Write { file } ==> exists|dir: Seq<char>|
        file.path == join(dir, index_name())
}

proof fn lemma_deliver_writes_an_index(
    maker: MakerView,
    frames: Seq<FrameView>,
    found: Seq<ImportView>,
    package: bool,
)
    ensures
        writes_an_index_at_most(deliver(maker, frames, found, package).1),
    decreases frames.len(), 1nat, 0nat,
{
    if frames.len() > 0 {
        let top = frames.last();
        if top.next < top.entries.len() {
            let statements = if package && found.len() == 0 {
                top.statements
            } else {
                top.statements + exposed_through(
                    stem_listed(top.entries[top.next as int]),
                    found,
                )
            };
            lemma_proceed_writes_an_index(
                maker,
                frames.drop_last().push(FrameView { next: top.next + 1, statements, ..top }),
            );
        } else {
            lemma_proceed_writes_an_index(maker, frames);
        }
    }
}

proof fn lemma_proceed_writes_an_index(maker: MakerView, frames: Seq<FrameView>)
    ensures
        writes_an_index_at_most(proceed(maker, frames).1),
    decreases frames.len(), 0nat, frames.last().entries.len() - frames.last().next,
{
    if frames.len() > 0 {
        let top = frames.last();
        if top.next >= top.entries.len() {
            match index_file(maker.at(top.path), top.statements) {
                Some(file) => {
                    assert(file.path == join(top.path, index_name()));
                },
                None => lemma_deliver_writes_an_index(
                    maker,
                    frames.drop_last(),
                    top.statements,
                    true,
                ),
            }
        } else if !visits_listed(top.entries[top.next as int]) {
            lemma_proceed_writes_an_index(
                maker,
                frames.drop_last().push(FrameView { next: top.next + 1, ..top }),
            );
        }
    }
}

/// Whatever a walk is told, it never asks for any file to be written but
/// one called `__init__.py`.
pub proof fn lemma_walk_writes_indexes_only(walk: WalkView, event: EventView)
    ensures
        writes_an_index_at_most(react(walk, event).1),
{
    let frames = walk.frames;
    let path = here(walk.maker, frames);
    match (walk.stage, event) {
        (StageView::Listing, EventView::Listing(entries)) => {
            lemma_proceed_writes_an_index(
                walk.maker,
                frames.push(FrameView { path, entries, next: 0, statements: Seq::empty() }),
            );
        },
        (StageView::Text, EventView::Text(text)) => {
            match module_imports(walk.maker.at(path), text) {
                Ok(found) => lemma_deliver_writes_an_index(walk.maker, frames, found, false),
                Err(_) => {},
            }
        },
        (StageView::Written, EventView::Written) => {
            if frames.len() > 0 {
                lemma_deliver_writes_an_index(
                    walk.maker,
                    frames.drop_last(),
                    frames.last().statements,
                    true,
                );
            }
        },
        _ => {},
    }
}

} // verus!
