//! A walk that is answered from a tree given as a value.

use vstd::prelude::*;
use crate::codegen::{IndexFile, IndexFileView, MakerView, exposed_through, index_file, index_views};
use crate::statement::ImportView;
use crate::tree::{
    Contents, ContentsView, EntryView, Node, NodeView, below, entry_views, is_visited, kind_of,
    lemma_directory_view, list, listing, stem, visits, walk, walked,
};
use crate::walker::{
    Action, ActionView, Event, EventView, FrameView, Kind, StageView, Walk, WalkView, deliver,
    here, over, proceed, react, stem_listed, visits_listed,
};

verus! {

/// How far a walk has come: the walk, the action that it asks for next, and
/// the index files that it had written on the way.
pub struct Answered {
    pub walk: WalkView,
    pub action: ActionView,
    pub written: Seq<IndexFileView>,
}

/// What reading a file tells a walk.
pub open spec fn reading(contents: ContentsView) -> EventView {
    match contents {
        ContentsView::Text(text) => EventView::Text(text),
        ContentsView::Unreadable(message) => EventView::Failed(message),
    }
}

/// How far a walk comes when what it asks about what stands where it is is
/// answered from `node`, until it is through with that.
///
/// The walk is told what `node` is. If it then asks for the text of a file,
/// it is given the file's. If it asks for the entries of a directory, it is
/// given the directory's, and is answered from each entry that it visits in
/// turn; if in the end it asks for the directory's index file to be
/// written, it is told that the file is written.
pub open spec fn answered(state: WalkView, node: NodeView) -> Answered
    decreases node, 0nat,
{
    let asked = react(state, EventView::Found(kind_of(node)));
    match node {
        NodeView::Directory(entries) => {
            let entered = react(asked.0, EventView::Listing(listing(entries)));
            let inside = answered_entries(
                Answered { walk: entered.0, action: entered.1, written: Seq::empty() },
                entries,
                entries.len(),
            );
            match inside.action {
                ActionView::Write { file } if inside.walk.frames.len() > state.frames.len() => {
                    let left = react(inside.walk, EventView::Written);
                    Answered { walk: left.0, action: left.1, written: inside.written.push(file) }
                },
                _ => inside,
            }
        },
        NodeView::File(contents) if asked.1 is Read => {
            let given = react(asked.0, reading(contents));
            Answered { walk: given.0, action: given.1, written: Seq::empty() }
        },
        _ => Answered { walk: asked.0, action: asked.1, written: Seq::empty() },
    }
}

/// How far a walk that has come as far as `start` comes when it is answered
/// from the first `count` of `entries` in turn. Entries that a walk does not
/// visit are passed over, and so is everything once the walk has failed.
pub open spec fn answered_entries(start: Answered, entries: Seq<EntryView>, count: nat) -> Answered
    decreases entries, count,
{
    if count == 0 || count > entries.len() {
        start
    } else {
        let before = answered_entries(start, entries, (count - 1) as nat);
        let entry = entries[count - 1];
        if is_visited(entry) && !(before.walk.stage matches StageView::Over(Err(_))) {
            let under = answered(before.walk, entry.node);
            Answered {
                walk: under.walk,
                action: under.action,
                written: before.written + under.written,
            }
        } else {
            before
        }
    }
}

/// A walk that takes something in, or proceeds, does not fail at that, and
/// comes no deeper than it was.
proof fn lemma_deliver_shape(
    maker: MakerView,
    frames: Seq<FrameView>,
    found: Seq<ImportView>,
    package: bool,
)
    ensures
        deliver(maker, frames, found, package).0.maker == maker,
        deliver(maker, frames, found, package).0.frames.len() <= frames.len(),
        !(deliver(maker, frames, found, package).0.stage matches StageView::Over(Err(_))),
    decreases frames.len(), 1nat, 0nat,
{
    if frames.len() > 0 {
        let top = frames.last();
        if top.next < top.entries.len() {
            let entry = top.entries[top.next as int];
            let statements = if package && found.len() == 0 {
                top.statements
            } else {
                top.statements + exposed_through(stem_listed(entry), found)
            };
            lemma_proceed_shape(
                maker,
                frames.drop_last().push(FrameView { next: top.next + 1, statements, ..top }),
            );
        } else {
            lemma_proceed_shape(maker, frames);
        }
    }
}

proof fn lemma_proceed_shape(maker: MakerView, frames: Seq<FrameView>)
    ensures
        proceed(maker, frames).0.maker == maker,
        proceed(maker, frames).0.frames.len() <= frames.len(),
        !(proceed(maker, frames).0.stage matches StageView::Over(Err(_))),
    decreases frames.len(), 0nat, frames.last().entries.len() - frames.last().next,
{
    if frames.len() > 0 {
        let top = frames.last();
        if top.next >= top.entries.len() {
            if index_file(maker.at(top.path), top.statements) is None {
                lemma_deliver_shape(maker, frames.drop_last(), top.statements, true);
            }
        } else if !visits_listed(top.entries[top.next as int]) {
            lemma_proceed_shape(
                maker,
                frames.drop_last().push(FrameView { next: top.next + 1, ..top }),
            );
        }
    }
}

/// The package that a walk is in when it is through `count` entries of the
/// directory at `path` and has found that they expose `statements`.
pub open spec fn frame_at(
    path: Seq<char>,
    entries: Seq<EntryView>,
    count: nat,
    statements: Seq<ImportView>,
) -> FrameView {
    FrameView { path, entries: listing(entries), next: count, statements }
}

/// A walk that is answered from a tree goes the way of the tree's walk: when
/// it is through with what stands where it is, it has had written what
/// `walk` says of that; it has failed if `walk` says so, with the same error;
/// and else goes on as a walk that has found what `walk` says.
pub proof fn lemma_answered_as_walked(state: WalkView, node: NodeView)
    requires
        state.stage is Kind,
    ensures
        ({
            let found = walk(state.maker.at(here(state.maker, state.frames)), node);
            let told = answered(state, node);
            &&& told.written == found.written
            &&& (told.walk, told.action) == match found.result {
                Ok(statements) => deliver(state.maker, state.frames, statements, node is Directory),
                Err(error) => over(state.maker, Err(error)),
            }
        }),
    decreases node, 0nat,
{
    let maker = state.maker;
    let frames = state.frames;
    let path = here(maker, frames);
    match node {
        NodeView::Directory(entries) => {
            let asked = react(state, EventView::Found(Kind::Directory));
            let entered = react(asked.0, EventView::Listing(listing(entries)));
            let start = Answered { walk: entered.0, action: entered.1, written: Seq::empty() };
            lemma_answered_entries_as_walked(maker, frames, path, start, entries, entries.len());
            let found = walked(maker.at(path), entries, entries.len());
            match found.result {
                Ok(statements) => {
                    let last = frames.push(frame_at(path, entries, entries.len(), statements));
                    assert(last.drop_last() =~= frames);
                    if index_file(maker.at(path), statements) is None {
                        lemma_deliver_shape(maker, frames, statements, true);
                    }
                },
                Err(_) => {},
            }
        },
        _ => {},
    }
}

proof fn lemma_answered_entries_as_walked(
    maker: MakerView,
    frames: Seq<FrameView>,
    path: Seq<char>,
    start: Answered,
    entries: Seq<EntryView>,
    count: nat,
)
    requires
        count <= entries.len(),
        (start.walk, start.action) == proceed(
            maker,
            frames.push(frame_at(path, entries, 0, Seq::empty())),
        ),
        start.written == Seq::<IndexFileView>::empty(),
    ensures
        ({
            let found = walked(maker.at(path), entries, count);
            let told = answered_entries(start, entries, count);
            &&& told.written == found.written
            &&& (told.walk, told.action) == match found.result {
                Ok(statements) => proceed(
                    maker,
                    frames.push(frame_at(path, entries, count, statements)),
                ),
                Err(error) => over(maker, Err(error)),
            }
        }),
    decreases entries, count,
{
    if count > 0 {
        lemma_answered_entries_as_walked(maker, frames, path, start, entries, (count - 1) as nat);
        let before = walked(maker.at(path), entries, (count - 1) as nat);
        let so_far = answered_entries(start, entries, (count - 1) as nat);
        let entry = entries[count - 1];
        match before.result {
            Ok(statements) => {
                let frame = frame_at(path, entries, (count - 1) as nat, statements);
                let inner = frames.push(frame);
                if is_visited(entry) {
                    lemma_answered_as_walked(so_far.walk, entry.node);
                    let under = walk(below(maker.at(path), entry), entry.node);
                    match under.result {
                        Ok(found) => {
                            let more = if entry.node is Directory && found.len() == 0 {
                                statements
                            } else {
                                statements + exposed_through(stem(entry), found)
                            };
                            assert(inner.drop_last().push(
                                FrameView { next: frame.next + 1, statements: more, ..frame },
                            ) == frames.push(frame_at(path, entries, count, more)));
                        },
                        Err(_) => {},
                    }
                } else {
                    assert(inner.drop_last().push(FrameView { next: frame.next + 1, ..frame })
                        == frames.push(frame_at(path, entries, count, statements)));
                }
            },
            Err(_) => {},
        }
    }
}

/// A walk that is answered from a tree ends as `walk` says of the tree: it
/// has had the same index files written, in the same order, and returns the
/// same.
pub proof fn lemma_walk_ends_as_walked(maker: MakerView, node: NodeView)
    ensures
        answered(crate::walker::begin(maker).0, node) == (Answered {
            walk: over(maker, walk(maker, node).result).0,
            action: ActionView::Finish,
            written: walk(maker, node).written,
        }),
{
    let state = crate::walker::begin(maker).0;
    lemma_answered_as_walked(state, node);
}

/// What reading a file tells a walk.
fn read(contents: &Contents) -> (event: Event)
    ensures
        event@ == reading(contents@),
{
    match contents {
        Contents::Text(text) => Event::Text(text.clone()),
        Contents::Unreadable(message) => Event::Failed(message.clone()),
    }
}

/// Answers from `node` what the walk asks about what stands where it is,
/// until the walk is through with that, and gives the action that the walk
/// asks for next. The index files that the walk has written on the way are
/// appended to `written`.
pub fn drive(run: &mut Walk, node: &Node, written: &mut Vec<IndexFile>) -> (action: Action)
    ensures
        final(run)@ == answered(old(run)@, node@).walk,
        action@ == answered(old(run)@, node@).action,
        index_views(final(written)@) == index_views(old(written)@) + answered(
            old(run)@,
            node@,
        ).written,
    decreases node,
{
    let ghost start = index_views(written@);
    match node {
        Node::Directory(entries) => {
            proof {
                lemma_directory_view(*entries);
            }
            let ghost inside = entry_views(entries@);
            let depth = run.depth();
            run.step(Event::Found(Kind::Directory));
            let mut action = run.step(Event::Listing(list(entries)));
            let ghost entered = Answered { walk: run@, action: action@, written: Seq::empty() };
            let mut i: usize = 0;
            assert(index_views(written@).skip(start.len() as int) =~= Seq::<
                IndexFileView,
            >::empty());
            while i < entries.len()
                invariant
                    i <= entries.len(),
                    inside == entry_views(entries@),
                    *node == Node::Directory(*entries),
                    node@ == NodeView::Directory(inside),
                    start.len() <= index_views(written@).len(),
                    index_views(written@).take(start.len() as int) == start,
                    answered_entries(entered, inside, i as nat) == (Answered {
                        walk: run@,
                        action: action@,
                        written: index_views(written@).skip(start.len() as int),
                    }),
                decreases entries.len() - i,
            {
                let ghost done = index_views(written@);
                let ghost was = run@;
                if visits(&entries[i]) && !run.has_failed() {
                    action = drive(run, &entries[i].node, written);
                    assert(index_views(written@).skip(start.len() as int) =~= done.skip(
                        start.len() as int,
                    ) + answered(was, inside[i as int].node).written);
                }
                i += 1;
            }
            if run.depth() > depth {
                match action {
                    Action::Write { file } => {
                        written.push(file);
                        run.step(Event::Written)
                    },
                    other => other,
                }
            } else {
                action
            }
        },
        Node::File(contents) => {
            match run.step(Event::Found(Kind::File)) {
                Action::Read { path } => run.step(read(contents)),
                other => other,
            }
        },
        Node::Missing => run.step(Event::Found(Kind::Missing)),
        Node::Other => run.step(Event::Found(Kind::Other)),
    }
}

} // verus!
