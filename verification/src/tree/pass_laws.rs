//! How a pass goes through a tree.

use vstd::prelude::*;

use crate::domain::{Message, Reason, Remote, RemoteItem, SyncDir, SyncError};
use crate::driver::{DriverView, MoveView, Step};
use crate::ignore;
use crate::ops::{Fact, RemoteFact, Side};
use crate::ports::{DirEntry, Effect, Next, Reply, Request};
use crate::text;
use crate::text_laws;
use crate::tree::admission::{Admission, Candidate, TreeItem};
use crate::tree::local_laws;
use crate::tree::pass;
use crate::tree::pass::{FoundView, FrameView, TreePassView};
use crate::tree::remote_laws;

verus! {

/// The ignore file stands in the synced directory.
pub open spec fn ignore_path(pass: TreePassView) -> Seq<char> {
    pass.sync_dir.local_path + seq!['/'] + ".sync-exclude.lst"@
}

/// The line about a path that is looked at.
pub open spec fn looking_at(pass: TreePassView, path: Seq<char>) -> Effect<Seq<char>> {
    pass.source.pending(
        match pass.side {
            Side::Local => Message::Examining(path),
            Side::Remote => Message::ExaminingRemote(path),
        },
    )
}

proof fn lemma_ignore_file(pass: TreePassView)
    ensures
        pass.ignore_file() == ignore_path(pass),
{
    text_laws::law_joined_parts(
        pass.sync_dir.local_path,
        ".sync-exclude.lst"@,
        pass.sync_dir.local_path,
    );
}

/// A pass begins in its root directory, once removals that were asked for
/// were carried out.
pub proof fn law_a_pass_begins_at_its_root(pass: TreePassView)
    requires
        pass.stage is Start,
        pass.frames.len() == 0,
    ensures
        ({
            let (after, turn) = pass.next(Reply::Begin);
            &&& turn.effects == seq![Effect::<Seq<char>>::ProcessDeletionRequests]
            &&& turn.next == match pass.side {
                Side::Local => Next::<(), Seq<char>>::Ask(Request::SyncDirExists),
                Side::Remote => Next::Ask(Request::ReadIgnoreFile(ignore_path(pass))),
            }
            &&& after.frames.len() == 1
            &&& after.frames[0].dir == pass.root
            &&& after.frames[0].index == 0
            &&& after.synced == pass.synced
        }),
{
    lemma_ignore_file(pass);
    assert(pass.frames.push(FrameView::fresh(pass.root))[0].dir == pass.root);
}

/// A directory that was entered is announced, where the pair is on record, and
/// then read: a local one from the disk, a remote one by listing it alone.
pub proof fn law_an_entered_directory_is_read(pass: TreePassView, found: Result<bool, String>)
    requires
        pass.stage is Announce,
        pass.frames.len() > 0,
    ensures
        ({
            let (after, turn) = pass.next(Reply::OnRecord(found));
            let dir = pass.frames.last().dir;
            &&& turn.effects == if found == Ok::<bool, String>(true) {
                seq![looking_at(pass, dir)]
            } else {
                Seq::empty()
            }
            &&& turn.next == match pass.side {
                Side::Local => Next::<(), Seq<char>>::Ask(Request::ReadDir(dir)),
                Side::Remote => Next::Ask(Request::List { path: dir, recursive: false }),
            }
            &&& after.frames == pass.frames
            &&& after.synced == pass.synced
            &&& after.stage is Read
        }),
{
}

/// What a directory holds is kept in full, and so are the lines of the ignore
/// file.
pub proof fn law_content_and_patterns_are_kept(
    pass: TreePassView,
    entries: Vec<DirEntry>,
    items: Vec<RemoteItem>,
    content: Option<String>,
)
    requires
        pass.frames.len() > 0,
    ensures
        pass.stage is Read && pass.side is Local ==> {
            let (after, turn) = pass.next(Reply::Entries(Ok(entries)));
            &&& turn.next == Next::<(), Seq<char>>::Ask(Request::ReadIgnoreFile(ignore_path(pass)))
            &&& turn.effects.len() == 0
            &&& after.frames.len() == pass.frames.len()
            &&& after.frames.last().found == FoundView::Entries(entries@)
            &&& after.frames.last().dir == pass.frames.last().dir
            &&& after.frames.last().index == pass.frames.last().index
        },
        pass.stage is Read && pass.side is Remote && 0 <= pass.frames.last().index < items@.len()
            ==> {
            let (after, turn) = pass.next(Reply::Items(Ok(items)));
            &&& turn.next == Next::<(), Seq<char>>::Ask(Request::IsCancelled)
            &&& turn.effects.len() == 0
            &&& after.frames.len() == pass.frames.len()
            &&& after.frames.last().found == FoundView::Items(items@)
            &&& after.frames.last().globs == pass.frames.last().globs
            &&& after.frames.last().index == pass.frames.last().index
        },
        pass.stage is Ignore && (pass.side is Remote || pass.frames.last().has_entry()) ==> {
            let (after, turn) = pass.next(Reply::Text(content));
            &&& turn.next == match pass.side {
                Side::Local => Next::<(), Seq<char>>::Ask(Request::IsCancelled),
                Side::Remote => Next::Ask(Request::SyncDirExists),
            }
            &&& after.frames.len() == pass.frames.len()
            &&& after.frames.last().globs == match content {
                Some(lines) => text::lines(lines@),
                None => Seq::empty(),
            }
            &&& after.frames.last().found == pass.frames.last().found
        },
{
    lemma_ignore_file(pass);
}

/// A directory that cannot be read is reported with the words of the failure,
/// and left.
pub proof fn law_unreadable_directories_are_reported(pass: TreePassView, words: String)
    requires
        pass.stage is Read,
        pass.frames.len() == 1,
    ensures
        ({
            let told = seq![
                pass.source.error(
                    SyncError::General(pass.frames[0].dir, Reason::Reported(words@)),
                ),
            ];
            let (entries, items) = (
                pass.next(Reply::Entries(Err(words))),
                pass.next(Reply::Items(Err(words))),
            );
            &&& entries.1.effects == told
            &&& entries.1.next == Next::<(), Seq<char>>::Done(())
            &&& items == entries
        }),
{
    reveal_with_fuel(TreePassView::leave, 2);
}

/// Before each entry it is asked whether the pass was called off and whether
/// the pair is still on record; where so, the entry is admitted by its side,
/// and one that is passed over leads to the next.
pub proof fn law_entries_are_taken_one_by_one(pass: TreePassView)
    requires
        pass.frames.len() > 0,
        pass.frames.last().has_entry(),
    ensures
        ({
            let yes = Ok::<bool, String>(true);
            let frame = pass.frames.last();
            let polled = pass.next(Reply::Flag(false));
            let (after, turn) = pass.next(Reply::OnRecord(yes));
            &&& pass.stage is Poll ==> {
                &&& polled.1.next == Next::<(), Seq<char>>::Ask(Request::SyncDirExists)
                &&& polled.1.effects == seq![Effect::<Seq<char>>::CheckOpenRequests]
                &&& polled.0.stage is Record
                &&& polled.0.frames == pass.frames
            }
            &&& pass.stage is Record ==> match frame.found.admission(frame.index, pass.sync_dir) {
                Admission::Item(candidate) => if pass.side is Remote && ignore::ignored(
                    frame.globs,
                    candidate.glob_text,
                ) {
                    frame.index + 1 < frame.found.len() ==> goes_on(pass, after) && turn.next
                        == Next::<(), Seq<char>>::Ask(Request::IsCancelled) && turn.effects.len()
                        == 0
                } else {
                    &&& turn.next == Next::<(), Seq<char>>::Ask(Request::SyncDirExists)
                    &&& turn.effects.len() == 0
                    &&& after.stage is Progress
                    &&& after.frames == pass.frames
                },
                Admission::Skip => frame.index + 1 < frame.found.len() ==> goes_on(pass, after)
                    && turn.next == Next::<(), Seq<char>>::Ask(Request::IsCancelled)
                    && turn.effects.len() == 0,
                Admission::Broken(words) => frame.index + 1 < frame.found.len() ==> goes_on(
                    pass,
                    after,
                ) && turn.next == Next::<(), Seq<char>>::Ask(Request::IsCancelled) && turn.effects
                    == seq![
                    pass.source.error(SyncError::General(frame.dir, Reason::Reported(words))),
                ],
                Admission::Fault => turn.next == Next::<(), Seq<char>>::Fault,
            }
        }),
{
    let frame = pass.frames.last();
    if frame.index + 1 < frame.found.len() {
        lemma_next_entry(pass, Seq::empty());
        if let Admission::Broken(words) = frame.found.admission(frame.index, pass.sync_dir) {
            lemma_next_entry(
                pass,
                seq![pass.source.error(SyncError::General(frame.dir, Reason::Reported(words)))],
            );
        }
    }
}

proof fn lemma_next_entry(pass: TreePassView, effects: Seq<Effect<Seq<char>>>)
    requires
        pass.frames.len() > 0,
        0 <= pass.frames.last().index,
        pass.frames.last().index + 1 < pass.frames.last().found.len(),
    ensures
        ({
            let (after, turn) = pass.with_top(pass.frames.last().advanced()).resume(effects);
            &&& goes_on(pass, after)
            &&& turn.next == Next::<(), Seq<char>>::Ask(Request::IsCancelled)
            &&& turn.effects == effects
        }),
{
    let moved = pass.with_top(pass.frames.last().advanced());
    assert(moved.frames.drop_last() =~= pass.frames.drop_last());
    assert(moved.frames.last() == pass.frames.last().advanced());
}

/// The pass stands at the next entry of the same directory.
pub open spec fn goes_on(pass: TreePassView, after: TreePassView) -> bool {
    &&& after.frames.len() == pass.frames.len()
    &&& after.frames.last().index == pass.frames.last().index + 1
    &&& after.frames.last().current is None
    &&& after.frames.last().found == pass.frames.last().found
    &&& after.frames.last().globs == pass.frames.last().globs
    &&& after.frames.last().dir == pass.frames.last().dir
    &&& after.frames.drop_last() == pass.frames.drop_last()
    &&& after.synced == pass.synced
}

/// An admitted local entry that no pattern matches is synced at its own two
/// paths, beginning with its time, and noted as synced; the line about it is
/// told where the pair is on record.
pub proof fn law_an_admitted_entry_is_synced(
    pass: TreePassView,
    candidate: Candidate<Seq<char>>,
    is_dir: Option<bool>,
    found: Result<bool, String>,
)
    requires
        pass.stage is Progress,
        pass.side is Local,
        pass.frames.len() > 0,
        pass.frames.last().has_entry(),
        pass.frames.last().found.admission(pass.frames.last().index, pass.sync_dir)
            == Admission::Item(candidate),
        candidate.machine == TreeItem::Local(local_laws::fresh(is_dir)),
        !ignore::ignored(pass.frames.last().globs, candidate.glob_text),
    ensures
        ({
            let (after, turn) = pass.next(Reply::OnRecord(found));
            &&& turn.next == Next::<(), Seq<char>>::Ask(Request::EntryTime(candidate.local_path))
            &&& turn.effects == if found == Ok::<bool, String>(true) {
                seq![looking_at(pass, candidate.local_path)]
            } else {
                Seq::empty()
            }
            &&& after.synced == pass.synced.push((candidate.local_path, candidate.remote_path))
            &&& after.stage is Item
            &&& after.frames.last().index == pass.frames.last().index
            &&& after.frames.last().current matches Some(driver) && driver.place.local_path
                == candidate.local_path && driver.place.remote_path == candidate.remote_path
                && driver.place.seen_on is Local && driver.place.source == pass.source
                && driver.machine == TreeItem::Local(
                local_laws::fresh(is_dir).next(Fact::Begin).0,
            )
        }),
{
}

/// An admitted remote item that was not synced already is synced at its own
/// two paths, beginning with the time of what is here.
pub proof fn law_an_admitted_item_is_synced(
    pass: TreePassView,
    candidate: Candidate<Seq<char>>,
    remote: RemoteFact,
    found: Result<bool, String>,
)
    requires
        pass.stage is Progress,
        pass.side is Remote,
        pass.frames.len() > 0,
        pass.frames.last().has_entry(),
        pass.frames.last().found.admission(pass.frames.last().index, pass.sync_dir)
            == Admission::Item(candidate),
        candidate.machine == TreeItem::Remote(remote_laws::fresh(remote)),
        !pass.synced.contains((candidate.local_path, candidate.remote_path)),
    ensures
        ({
            let (after, turn) = pass.next(Reply::OnRecord(found));
            &&& turn.next == Next::<(), Seq<char>>::Ask(Request::LocalTime(candidate.local_path))
            &&& turn.effects == if found == Ok::<bool, String>(true) {
                seq![looking_at(pass, candidate.remote_path)]
            } else {
                Seq::empty()
            }
            &&& after.synced == pass.synced
            &&& after.stage is Item
            &&& after.frames.last().index == pass.frames.last().index
            &&& after.frames.last().current matches Some(driver) && driver.place.local_path
                == candidate.local_path && driver.place.remote_path == candidate.remote_path
                && driver.place.seen_on is Remote && driver.place.source == pass.source
                && driver.machine == TreeItem::Remote(
                remote_laws::fresh(remote).next(Fact::Begin).0,
            )
        }),
{
}

/// What the entry being synced does reaches the world as it is: its requests
/// are asked and its effects carried out; once it is over the next entry
/// comes, and where it goes into a directory that directory is entered on the
/// pass's own side.
pub proof fn law_the_entry_being_synced_is_followed(
    pass: TreePassView,
    driver: DriverView<TreeItem>,
    reply: Reply,
)
    requires
        pass.stage is Item,
        pass.frames.len() > 0,
        pass.frames.last().has_entry(),
        pass.frames.last().current == Some(driver),
    ensures
        ({
            let (later, made): (DriverView<TreeItem>, MoveView) = driver.next(reply);
            let (after, turn) = pass.next(reply);
            let frame = pass.frames.last();
            match made.step {
                Step::Ask(request) => {
                    &&& turn.next == Next::<(), Seq<char>>::Ask(request)
                    &&& turn.effects == made.effects
                    &&& after.frames.len() == pass.frames.len()
                    &&& after.frames.last().current == Some(later)
                    &&& after.frames.last().index == frame.index
                    &&& after.synced == pass.synced
                },
                Step::Over => frame.index + 1 < frame.found.len() ==> goes_on(pass, after)
                    && turn.effects == made.effects && turn.next == Next::<(), Seq<char>>::Ask(
                    Request::IsCancelled,
                ),
                Step::Descend => {
                    let dir = match pass.side {
                        Side::Local => later.place.local_path,
                        Side::Remote => later.place.remote_path,
                    };
                    &&& after.frames.len() == pass.frames.len() + 1
                    &&& after.frames.last().dir == dir
                    &&& after.frames.last().index == 0
                    &&& after.frames[pass.frames.len() - 1].current == Some(later)
                    &&& turn.effects == made.effects.push(
                        Effect::<Seq<char>>::ProcessDeletionRequests,
                    )
                    &&& after.synced == pass.synced
                },
                Step::Fault => turn.next == Next::<(), Seq<char>>::Fault,
            }
        }),
{
    lemma_ignore_file(pass);
    let (later, made) = driver.next(reply);
    let frame = pass.frames.last();
    assert(Seq::empty() + made.effects =~= made.effects);
    if frame.index + 1 < frame.found.len() {
        lemma_next_entry(pass, made.effects);
    }
    let held = pass.with_top(FrameView { current: Some(later), ..frame });
    assert(held.frames.last().current == Some(later));
    assert(held.frames[pass.frames.len() - 1] == held.frames.last());
}

/// A pass that is through with its root is over; one that is through with a
/// directory inside tells the entry that led there so, and goes on with it.
pub proof fn law_a_pass_leaves_what_it_is_through_with(
    pass: TreePassView,
    outer: DriverView<TreeItem>,
)
    requires
        pass.stage is Poll,
        pass.frames.len() > 0,
    ensures
        ({
            let (after, turn) = pass.next(Reply::Flag(true));
            let above = pass.frames[pass.frames.len() - 2];
            let (later, made) = outer.advance(outer.words, Fact::Done);
            &&& pass.frames.len() == 1 ==> turn.next == Next::<(), Seq<char>>::Done(())
                && turn.effects.len() == 0 && after.synced == pass.synced
            &&& pass.frames.len() > 1 && above.current == Some(outer) && above.has_entry() && (
            made.step matches Step::Ask(request)) ==> {
                &&& turn.next == Next::<(), Seq<char>>::Ask(made.step->Ask_0)
                &&& turn.effects == made.effects
                &&& after.frames.len() == pass.frames.len() - 1
                &&& after.frames.last().current == Some(later)
                &&& after.frames.last().index == above.index
                &&& after.synced == pass.synced
            }
        }),
{
    reveal_with_fuel(TreePassView::leave, 2);
    reveal_with_fuel(TreePassView::moved, 2);
    if pass.frames.len() > 1 {
        assert(pass.frames.drop_last().last() == pass.frames[pass.frames.len() - 2]);
        let made = outer.advance(outer.words, Fact::Done).1;
        assert(Seq::empty() + made.effects =~= made.effects);
    }
}

/// A pass that was not started yet is for its own remote and directory, at the
/// directory that it was given, and counts as synced what it was given.
pub proof fn law_a_fresh_pass(
    side: Side,
    root: Seq<char>,
    remote: Remote<Seq<char>>,
    dir: SyncDir<Seq<char>>,
    synced: Seq<(Seq<char>, Seq<char>)>,
)
    ensures
        ({
            let fresh = pass::fresh_pass(side, root, remote, dir, synced);
            &&& fresh.source.remote_id == remote.id
            &&& fresh.source.sync_dir_id == dir.id
            &&& fresh.sync_dir == dir
            &&& fresh.side == side
            &&& fresh.root == root
            &&& fresh.synced == synced
            &&& fresh.frames.len() == 0
            &&& fresh.stage is Start
        }),
{
}

/// A pass is over once it is through with the last entry of its root, or
/// where its root holds nothing.
pub proof fn law_a_pass_ends_with_its_root(
    pass: TreePassView,
    driver: DriverView<TreeItem>,
    reply: Reply,
    content: Option<String>,
)
    requires
        pass.frames.len() == 1,
    ensures
        ({
            let frame = pass.frames[0];
            let made: MoveView = driver.next(reply).1;
            &&& pass.stage is Item && frame.has_entry() && frame.index + 1 == frame.found.len()
                && frame.current == Some(driver) && made.step is Over ==> {
                let (after, turn) = pass.next(reply);
                &&& turn.next == Next::<(), Seq<char>>::Done(())
                &&& turn.effects == made.effects
                &&& after.synced == pass.synced
            }
            &&& pass.stage is Ignore && pass.side is Local && !frame.has_entry() ==> {
                let (after, turn) = pass.next(Reply::Text(content));
                &&& turn.next == Next::<(), Seq<char>>::Done(())
                &&& turn.effects.len() == 0
                &&& after.synced == pass.synced
            }
        }),
{
    let frame = pass.frames.last();
    let made = driver.next(reply).1;
    assert(frame == pass.frames[0]);
    assert(Seq::empty() + made.effects =~= made.effects);
    let moved = pass.with_top(frame.advanced());
    assert(moved.frames.last() == frame.advanced());
    assert(moved.frames.drop_last().len() == 0);
}

} // verus!
