//! What a driven item machine asks of the world and hears from it.

use vstd::prelude::*;

use crate::domain::{Message, Reason, RemoteItem, SyncError, SyncItem};
use crate::driver;
use crate::driver::{DriverView, HeardView, MoveView, Place, Step};
use crate::item_laws::ItemMachine;
use crate::item_runs;
use crate::notices::Notice;
use crate::ops::{Fact, Note, Op, RemoteFact, RowFact, Side, Transfer};
use crate::paths;
use crate::ports::{Effect, Next, Reading, Reply, Request};
use crate::text_laws;

verus! {

/// The local paths that a request changes.
pub open spec fn changed_here(request: Request<Seq<char>>) -> Option<Seq<char>> {
    match request {
        Request::CopyToLocal { local_path, .. } => Some(local_path),
        Request::CreateDir(path)
        | Request::CreateDirAll(path)
        | Request::RemoveDirAll(path)
        | Request::RemoveFile(path) => Some(path),
        _ => None,
    }
}

/// The remote paths that a request changes.
pub open spec fn changed_there(request: Request<Seq<char>>) -> Option<Seq<char>> {
    match request {
        Request::CopyToRemote { remote_path, .. } => Some(remote_path),
        Request::Mkdir(path) | Request::DeleteFile(path) | Request::Purge(path) => Some(path),
        _ => None,
    }
}

/// An operation changes its own side at the item's own path there, and never
/// the other side; every other operation changes nothing.
pub proof fn law_operations_change_their_own_side(place: Place<Seq<char>>, op: Op)
    ensures
        match place.step(op) {
            Step::Ask(request) => {
                &&& changed_here(request) == if item_runs::changes_local(op) {
                    Some(place.local_path)
                } else {
                    None
                }
                &&& changed_there(request) == if item_runs::changes_remote(op) {
                    Some(place.remote_path)
                } else {
                    None
                }
            },
            _ => op is Descend || op is Finish || op is Fault,
        },
{
}

/// Transfers go between the item's two paths, directories are removed with
/// what is in them, and files alone.
pub proof fn law_changes_are_what_they_say(place: Place<Seq<char>>)
    ensures
        ({
            let (local_path, remote_path) = (place.local_path, place.remote_path);
            let up = Step::Ask(Request::CopyToRemote { local_path, remote_path });
            &&& place.step(Op::Upload) == up
            &&& place.step(Op::Push) == up
            &&& place.step(Op::Download) == Step::Ask(
                Request::CopyToLocal { local_path, remote_path },
            )
            &&& place.step(Op::Mkdir) == Step::Ask(Request::Mkdir(remote_path))
            &&& place.step(Op::Purge) == Step::Ask(Request::Purge(remote_path))
            &&& place.step(Op::DeleteFile) == Step::Ask(Request::DeleteFile(remote_path))
            &&& place.step(Op::RemoveTree) == Step::Ask(Request::RemoveDirAll(local_path))
            &&& place.step(Op::RemoveFile) == Step::Ask(Request::RemoveFile(local_path))
            &&& place.step(Op::CreateDir) == Step::Ask(Request::CreateDir(local_path))
            &&& place.step(Op::CreateDirAll) == Step::Ask(Request::CreateDirAll(local_path))
            &&& place.step(Op::Descend) == Step::<Seq<char>>::Descend
            &&& place.step(Op::Finish) == Step::<Seq<char>>::Over
            &&& place.step(Op::Fault) == Step::<Seq<char>>::Fault
        }),
{
}

/// Questions are asked about the item's own paths: rows by both, the local
/// side by the local one, the remote by the remote one, and whether it is
/// still listed of the directory that it is in.
pub proof fn law_questions_are_about_the_item(place: Place<Seq<char>>)
    ensures
        ({
            let (local_path, remote_path) = (place.local_path, place.remote_path);
            &&& place.step(Op::FindRow) == Step::Ask(
                Request::FindByPaths { local_path, remote_path },
            )
            &&& place.step(Op::Exists) == Step::Ask(Request::Exists(local_path))
            &&& place.step(Op::IsDir) == Step::Ask(Request::IsDir(local_path))
            &&& place.step(Op::LocalTime) == Step::Ask(Request::LocalTime(local_path))
            &&& place.step(Op::StrictTime) == Step::Ask(Request::LocalTime(local_path))
            &&& place.step(Op::EntryTime) == Step::Ask(Request::EntryTime(local_path))
            &&& place.step(Op::Stat) == Step::Ask(Request::Stat(remote_path))
            &&& place.step(Op::StillOnRecord) == Step::Ask(Request::<Seq<char>>::SyncDirExists)
            &&& place.step(Op::StillListed) == Step::Ask(
                Request::List { path: paths::parent(remote_path), recursive: false },
            )
        }),
{
}

/// Rows are changed for the item's own paths, with the times that the machine
/// named.
pub proof fn law_rows_are_the_items_own(
    place: Place<Seq<char>>,
    words: Seq<char>,
    note: Note,
)
    ensures
        match note {
            Note::InsertRow { local_time, remote_time } => place.effect(words, note)
                == (Effect::InsertItem {
                local_path: place.local_path,
                remote_path: place.remote_path,
                local_time,
                remote_time,
            }),
            Note::UpdateRow { id, local_time, remote_time } => place.effect(words, note)
                == (Effect::<Seq<char>>::UpdateTimestamps { id, local_time, remote_time }),
            Note::DropRow => place.effect(words, note) == (Effect::DeleteItemByPaths {
                local_path: place.local_path,
                remote_path: place.remote_path,
            }),
            Note::DropRowById(id) => place.effect(words, note) == Effect::<Seq<char>>::DeleteItem(
                id,
            ),
            Note::MakeParents => place.effect(words, note) == Effect::CreateParentDirs(
                place.local_path,
            ),
            Note::Destructive(kind) => place.effect(words, note) == (Effect::LogDestructive {
                kind,
                path: place.remote_path,
            }),
            _ => !(place.effect(words, note) is InsertItem) && !(place.effect(words, note)
                is UpdateTimestamps) && !(place.effect(words, note) is DeleteItem)
                && !(place.effect(words, note) is DeleteItemByPaths),
        },
{
}

/// A failure is told with its own words at the path of its side, a conflict
/// with both paths, and a transfer with the path that it changes or reads
/// here.
pub proof fn law_users_are_told_of_the_item(
    place: Place<Seq<char>>,
    words: Seq<char>,
    transfer: Transfer,
)
    ensures
        place.effect(words, Note::Failure(Side::Local)) == place.source.error(
            SyncError::General(place.local_path, Reason::Reported(words)),
        ),
        place.effect(words, Note::Failure(Side::Remote)) == place.source.error(
            SyncError::General(place.remote_path, Reason::Reported(words)),
        ),
        place.effect(words, Note::Conflict) == place.source.error(
            SyncError::BothMoreCurrent(place.local_path, place.remote_path),
        ),
        place.effect(words, Note::Status(transfer)) == place.source.status(
            match transfer {
                Transfer::Upload => Message::Uploading(place.progress, place.local_path),
                Transfer::Download => Message::Downloading(place.progress, place.local_path),
                Transfer::RemoveLocal => Message::RemovingLocally(place.progress, place.local_path),
                Transfer::RemoveRemote => Message::RemovingOnRemote(
                    place.progress,
                    place.remote_path,
                ),
            },
        ),
        place.effect(words, Note::Examining) == place.source.pending(
            match place.seen_on {
                Side::Local => Message::Examining(place.local_path),
                Side::Remote => Message::ExaminingRemote(place.remote_path),
            },
        ),
{
}

/// Every note becomes one effect, in its place.
pub proof fn law_every_note_is_carried_out(
    place: Place<Seq<char>>,
    words: Seq<char>,
    notes: Seq<Note>,
    i: int,
)
    requires
        0 <= i < notes.len(),
    ensures
        place.effects(words, notes).len() == notes.len(),
        place.effects(words, notes)[i] == place.effect(words, notes[i]),
{
}

/// What a row, an item or a time says is handed to the machine as it is; a row
/// that could not be read counts as none, and a pair of directories whose
/// record could not be read as gone.
pub proof fn law_findings_are_handed_on(
    remote_path: Seq<char>,
    row: SyncItem,
    item: RemoteItem,
    time: u64,
    flag: bool,
    words: String,
)
    ensures
        driver::heard(Op::FindRow, remote_path, Reply::Row(Ok(Some(row)))) == HeardView::Fact(
            Fact::Row(
                Some(
                    RowFact {
                        id: row.id,
                        local_time: row.last_local_timestamp,
                        remote_time: row.last_remote_timestamp,
                    },
                ),
            ),
        ),
        driver::heard(Op::FindRow, remote_path, Reply::Row(Ok(None))) == HeardView::Fact(
            Fact::Row(None),
        ),
        driver::heard(Op::FindRow, remote_path, Reply::Row(Err(words))) == HeardView::Fact(
            Fact::Row(None),
        ),
        driver::heard(Op::Stat, remote_path, Reply::Item(Ok(Some(item)))) == HeardView::Fact(
            Fact::Remote(Some(RemoteFact { is_dir: item.is_dir, time: item.mod_time })),
        ),
        driver::heard(Op::Stat, remote_path, Reply::Item(Ok(None))) == HeardView::Fact(
            Fact::Remote(None),
        ),
        driver::heard(Op::Stat, remote_path, Reply::Item(Err(words))) == HeardView::Failure(words@),
        driver::heard(Op::Exists, remote_path, Reply::Flag(flag)) == HeardView::Fact(
            Fact::Flag(flag),
        ),
        driver::heard(Op::IsDir, remote_path, Reply::Flag(flag)) == HeardView::Fact(
            Fact::Flag(flag),
        ),
        driver::heard(Op::StillOnRecord, remote_path, Reply::OnRecord(Ok(flag)))
            == HeardView::Fact(Fact::Flag(flag)),
        driver::heard(Op::StillOnRecord, remote_path, Reply::OnRecord(Err(words)))
            == HeardView::Fact(Fact::Flag(false)),
        forall|op: Op|
            op is LocalTime || op is EntryTime || op is StrictTime ==> #[trigger] driver::heard(
                op,
                remote_path,
                Reply::Time(Reading::At(time)),
            ) == HeardView::Fact(Fact::Time(Some(time))),
        forall|op: Op|
            op is LocalTime || op is EntryTime || op is StrictTime ==> #[trigger] driver::heard(
                op,
                remote_path,
                Reply::Time(Reading::Missing),
            ) == HeardView::Fact(Fact::Time(None)),
{
}

/// An item counts as still listed exactly where the listing shows its name, or
/// could not be had.
pub proof fn law_still_listed(
    parent: Seq<char>,
    name: Seq<char>,
    items: Vec<RemoteItem>,
    words: String,
)
    requires
        text_laws::slashless(name),
    ensures
        driver::heard(Op::StillListed, parent + seq!['/'] + name, Reply::Items(Ok(items)))
            == HeardView::Fact(
            Fact::Flag(
                exists|i: int| 0 <= i < items@.len() && (#[trigger] items@[i]).name@ == name,
            ),
        ),
        driver::heard(Op::StillListed, parent + seq!['/'] + name, Reply::Items(Err(words)))
            == HeardView::Fact(Fact::Flag(true)),
{
    text_laws::law_parent_and_name(parent, name);
}

/// A change that worked is handed on as done and one that failed as failed,
/// with its words. Of a single file's upload that failed it is asked first
/// whether the file is still there.
pub proof fn law_outcomes_are_handed_on<M: ItemMachine>(
    driver: DriverView<M>,
    done: (),
    words: String,
    there: bool,
)
    requires
        !driver.rechecking,
        item_runs::changes_local(driver.asked) || item_runs::changes_remote(driver.asked),
    ensures
        ({
            let worked = driver.next(Reply::Done(Ok(done)));
            let failed = driver.next(Reply::Done(Err(words)));
            let told = failed.0.next(Reply::Flag(there));
            &&& worked.0.machine == driver.machine.after(Fact::Done).0
            &&& worked.0.place == driver.place
            &&& worked.1.step == driver.place.step(driver.machine.after(Fact::Done).1.op)
            &&& worked.1.effects == driver.place.effects(
                driver.words,
                driver.machine.after(Fact::Done).1.notes,
            )
            &&& if driver.asked is Push {
                let fact = if there {
                    Fact::Failed
                } else {
                    Fact::SourceGone
                };
                &&& failed.1.effects.len() == 0
                &&& failed.1.step == Step::Ask(Request::Exists(driver.place.local_path))
                &&& told.0.machine == driver.machine.after(fact).0
                &&& told.1.step == driver.place.step(driver.machine.after(fact).1.op)
                &&& told.1.effects == driver.place.effects(
                    words@,
                    driver.machine.after(fact).1.notes,
                )
            } else {
                let answer = driver.machine.after(Fact::Failed).1;
                &&& failed.0.machine == driver.machine.after(Fact::Failed).0
                &&& failed.1.step == driver.place.step(answer.op)
                &&& failed.1.effects == driver.place.effects(words@, answer.notes)
            }
        }),
{
}

/// What was heard reaches the machine, and what the machine answers is asked
/// for and carried out at the same place.
pub proof fn law_the_machine_is_driven<M: ItemMachine>(
    driver: DriverView<M>,
    reply: Reply,
    fact: Fact,
)
    requires
        !driver.rechecking,
        driver::heard(driver.asked, driver.place.remote_path, reply) == HeardView::Fact(fact),
    ensures
        ({
            let (after, made) = driver.next(reply);
            let (machine, answer) = driver.machine.after(fact);
            &&& after.machine == machine
            &&& after.place == driver.place
            &&& after.asked == answer.op
            &&& !after.rechecking
            &&& made.step == driver.place.step(answer.op)
            &&& made.effects == driver.place.effects(driver.words, answer.notes)
        }),
{
}

/// A time that cannot be read counts as none, but where it has to be told
/// exactly the run is given up; so it is where the reply does not belong to
/// what was asked.
pub proof fn law_what_cannot_be_told(remote_path: Seq<char>, reply: Reply, done: Result<(), String>)
    ensures
        driver::heard(Op::LocalTime, remote_path, Reply::Time(Reading::Unreadable))
            == HeardView::Fact(Fact::Time(None)),
        driver::heard(Op::EntryTime, remote_path, Reply::Time(Reading::Unreadable))
            == HeardView::Fact(Fact::Time(None)),
        driver::heard(Op::StrictTime, remote_path, Reply::Time(Reading::Unreadable)) is Nonsense,
        driver::heard(Op::FindRow, remote_path, Reply::Done(done)) is Nonsense,
        driver::heard(Op::Finish, remote_path, Reply::Done(done)) is Nonsense,
        reply is Flag ==> driver::heard(Op::Stat, remote_path, reply) is Nonsense,
{
}

/// A pass over a single item asks what the item asks, carries out what it
/// tells, and is over with it.
pub proof fn law_a_single_item_is_the_whole_pass(made: MoveView)
    ensures
        ({
            let turn = driver::whole_turn(made);
            &&& turn.effects == made.effects
            &&& made.step matches Step::Ask(request) ==> turn.next == Next::<
                (),
                Seq<char>,
            >::Ask(request)
            &&& made.step is Over ==> turn.next == Next::<(), Seq<char>>::Done(())
            &&& made.step is Fault || made.step is Descend ==> turn.next == Next::<
                (),
                Seq<char>,
            >::Fault
        }),
{
}

/// The log tells of an upload whose source vanished with the local path and
/// the words that came, and of an item that is still listed with its path on
/// the remote.
pub proof fn law_the_log_is_told_of_the_item(place: Place<Seq<char>>, words: Seq<char>)
    ensures
        place.effect(words, Note::VanishedSource) == Effect::Log(
            Notice::VanishedSource { path: place.local_path, words },
        ),
        place.effect(words, Note::StillListed) == Effect::Log(
            Notice::StillListed { path: place.remote_path },
        ),
{
}

} // verus!
