//! What the machines that sync one item ask for, learn and report.
//!
//! An item machine works on one local path and the remote path that belongs
//! to it. It is handed a [`Fact`], answers with notes and one operation, and
//! is handed the fact that the operation gave. The paths themselves play no
//! part in its decisions.

use vstd::prelude::*;

use crate::domain::SyncItemId;

verus! {

/// What a remote tells of an item.
#[derive(Clone, Copy, Debug, PartialEq, Eq, Structural)]
pub struct RemoteFact {
    pub is_dir: bool,
    pub time: i64,
}

/// What was recorded of an item at its last sync.
#[derive(Clone, Copy, Debug, PartialEq, Eq, Structural)]
pub struct RowFact {
    pub id: SyncItemId,
    pub local_time: i64,
    pub remote_time: i64,
}

/// What an operation gave.
#[derive(Clone, Copy, Debug, PartialEq, Eq, Structural)]
pub enum Fact {
    /// Nothing was asked yet.
    Begin,
    Done,
    Failed,
    /// A push failed because its source is gone.
    SourceGone,
    Flag(bool),
    Time(Option<u64>),
    Remote(Option<RemoteFact>),
    Row(Option<RowFact>),
}

/// An operation on the item.
#[derive(Clone, Copy, Debug, PartialEq, Eq, Structural)]
pub enum Op {
    /// The recorded row: [`Fact::Row`].
    FindRow,
    /// Is there something at the local path: [`Fact::Flag`].
    Exists,
    /// Is there a directory at the local path: [`Fact::Flag`].
    IsDir,
    /// The modification time behind the local path, where it can be told:
    /// [`Fact::Time`].
    LocalTime,
    /// The same, but a time that is there and cannot be told is a fault.
    StrictTime,
    /// The modification time of the directory entry itself: [`Fact::Time`].
    EntryTime,
    /// Is the pair of directories still on record: [`Fact::Flag`].
    StillOnRecord,
    /// The remote item: [`Fact::Remote`] or [`Fact::Failed`].
    Stat,
    /// Does a fresh listing of the remote parent show the item, or fail:
    /// [`Fact::Flag`].
    StillListed,
    Mkdir,
    Purge,
    DeleteFile,
    Upload,
    /// An upload that tells a vanished source from a failure:
    /// [`Fact::SourceGone`].
    Push,
    Download,
    RemoveTree,
    RemoveFile,
    CreateDir,
    CreateDirAll,
    /// Sync what is inside: [`Fact::Done`].
    Descend,
    /// Nothing more is to be done.
    Finish,
    /// A fact came that cannot be gone on with.
    Fault,
}

/// One of the two sides.
#[derive(Clone, Copy, Debug, PartialEq, Eq, Structural)]
pub enum Side {
    Local,
    Remote,
}

/// What the status line says is going on.
#[derive(Clone, Copy, Debug, PartialEq, Eq, Structural)]
pub enum Transfer {
    Upload,
    Download,
    RemoveLocal,
    RemoveRemote,
}

/// Why something is about to be destroyed.
#[derive(Clone, Copy, Debug, PartialEq, Eq, Structural)]
pub enum Destruction {
    MirrorLocal,
    MirrorRemote,
    LocalGoneRemoteMatchesRow,
    PurgeOnTypeMismatch,
    LocalDeleteMirroringRemote,
    DeleteRemoteFileOnTypeMismatch,
    PurgeRemoteDirOnTypeMismatch,
    DeleteRemoteMirroringLocal,
    RemoveLocalOnTypeMismatch,
}

/// What a machine reports or changes beside the operation it asks for.
#[derive(Clone, Copy, Debug, PartialEq, Eq, Structural)]
pub enum Note {
    /// The last failure, put down to the item's path on that side.
    Failure(Side),
    /// Both sides are more current than the recorded row.
    Conflict,
    Status(Transfer),
    /// The item is being looked at.
    Examining,
    Destructive(Destruction),
    UpdateRow { id: SyncItemId, local_time: i64, remote_time: i64 },
    InsertRow { local_time: i64, remote_time: i64 },
    DropRow,
    DropRowById(SyncItemId),
    /// Create the directories above the local path.
    MakeParents,
    /// A push failed because its source vanished meanwhile.
    VanishedSource,
    /// A deletion is not mirrored: the remote still lists the item.
    StillListed,
}

/// What a machine answers to a fact.
#[derive(Debug, PartialEq, Eq)]
pub struct Answer {
    pub notes: Vec<Note>,
    pub op: Op,
}

/// What an [`Answer`] holds.
#[verifier::ext_equal]
pub struct AnswerView {
    pub notes: Seq<Note>,
    pub op: Op,
}

impl View for Answer {
    type V = AnswerView;

    open spec fn view(&self) -> AnswerView {
        AnswerView { notes: self.notes@, op: self.op }
    }
}

/// No notes, one operation.
pub open spec fn ask(op: Op) -> AnswerView {
    AnswerView { notes: Seq::empty(), op }
}

/// One note where `wanted`, then one operation.
pub open spec fn tell_if(wanted: bool, note: Note, op: Op) -> AnswerView {
    if wanted {
        tell(seq![note], op)
    } else {
        ask(op)
    }
}

/// Notes, then one operation.
pub open spec fn tell(notes: Seq<Note>, op: Op) -> AnswerView {
    AnswerView { notes, op }
}

/// No notes, one operation.
pub fn asking(op: Op) -> (answer: Answer)
    ensures
        answer@ == ask(op),
{
    Answer { notes: Vec::new(), op }
}

/// One note, then one operation.
pub fn telling(note: Note, op: Op) -> (answer: Answer)
    ensures
        answer@ == tell(seq![note], op),
{
    let mut notes: Vec<Note> = Vec::new();
    notes.push(note);
    let answer = Answer { notes, op };
    answer
}

/// One note where `wanted`, then one operation.
pub fn telling_if(wanted: bool, note: Note, op: Op) -> (answer: Answer)
    ensures
        answer@ == tell_if(wanted, note, op),
{
    if wanted {
        telling(note, op)
    } else {
        asking(op)
    }
}

/// Two notes, then one operation.
pub fn telling_both(first: Note, second: Note, op: Op) -> (answer: Answer)
    ensures
        answer@ == tell(seq![first, second], op),
{
    let mut notes: Vec<Note> = Vec::new();
    notes.push(first);
    notes.push(second);
    let answer = Answer { notes, op };
    answer
}

/// The operation destroys something on one of the sides.
pub open spec fn destroys(op: Op) -> bool {
    op is Purge || op is DeleteFile || op is RemoveTree || op is RemoveFile
}

/// The operation moves content from one side to the other, or makes a
/// directory.
pub open spec fn transfers(op: Op) -> bool {
    ||| op is Upload
    ||| op is Push
    ||| op is Download
    ||| op is Mkdir
    ||| op is CreateDir
    ||| op is CreateDirAll
}

/// The note changes what is recorded.
pub open spec fn changes_rows(note: Note) -> bool {
    note is UpdateRow || note is InsertRow || note is DropRow || note is DropRowById
}

/// No note changes what is recorded.
pub open spec fn keeps_rows(notes: Seq<Note>) -> bool {
    forall|i: int| 0 <= i < notes.len() ==> !changes_rows(#[trigger] notes[i])
}

/// One of the notes announces a destruction.
pub open spec fn announces(notes: Seq<Note>) -> bool {
    exists|i: int| 0 <= i < notes.len() && (#[trigger] notes[i]) is Destructive
}

/// The kinds of fact that an operation can give.
pub open spec fn fits(op: Op, fact: Fact) -> bool {
    match op {
        Op::FindRow => fact is Row,
        Op::Exists | Op::IsDir | Op::StillOnRecord | Op::StillListed => fact is Flag,
        Op::LocalTime | Op::StrictTime | Op::EntryTime => fact is Time,
        Op::Stat => fact is Remote || fact is Failed,
        Op::Push => fact is Done || fact is Failed || fact is SourceGone,
        Op::Descend => fact is Done,
        Op::Finish | Op::Fault => false,
        _ => fact is Done || fact is Failed,
    }
}

/// An answer holds exactly the notes and the operation that it was made of; a
/// note that is not wanted is left out.
pub proof fn law_answers_hold_what_they_are_made_of(note: Note, notes: Seq<Note>, op: Op)
    ensures
        ask(op).notes.len() == 0,
        ask(op).op == op,
        tell(notes, op).notes == notes,
        tell(notes, op).op == op,
        tell_if(true, note, op).notes == seq![note],
        tell_if(false, note, op).notes.len() == 0,
        forall|wanted: bool| (#[trigger] tell_if(wanted, note, op)).op == op,
{
}

} // verus!
