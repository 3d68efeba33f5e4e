//! The local walk: every entry below a directory, by its path on the remote,
//! and the places where the walk failed.

use vstd::prelude::*;

use crate::editor_temp;
use crate::editor_temp::is_editor_temp;
use crate::notices::Notice;
use crate::path_map::{PathMap, PathSet};
use crate::paths;
use crate::paths::join;
use crate::ports;
use crate::ports::{add_effect, DirEntry, Effect, Reading};
use crate::sync::snapshot;
use crate::sync::snapshot::{path_is_excluded, LocalEntry};
use crate::text;

verus! {

/// A local directory and its path on the remote.
pub struct WalkDir<S = String> {
    pub path: S,
    pub key: S,
}

impl View for WalkDir<String> {
    type V = WalkDir<Seq<char>>;

    open spec fn view(&self) -> WalkDir<Seq<char>> {
        WalkDir { path: self.path@, key: self.key@ }
    }
}

/// A directory that the walk is not through with. `left` are the entries
/// still to be looked at, the next one last; before the directory was read
/// there is nothing.
pub struct OpenDir {
    pub dir: WalkDir,
    pub left: Option<Vec<DirEntry>>,
}

/// What an [`OpenDir`] holds.
#[verifier::ext_equal]
pub struct OpenDirView {
    pub dir: WalkDir<Seq<char>>,
    pub left: Option<Seq<DirEntry>>,
}

impl View for OpenDir {
    type V = OpenDirView;

    open spec fn view(&self) -> OpenDirView {
        OpenDirView {
            dir: self.dir@,
            left: match self.left {
                Some(left) => Some(left@),
                None => None,
            },
        }
    }
}

/// What was found so far, and the directories that the walk is not through
/// with, the innermost one last.
pub struct Walk {
    pub local: PathMap<LocalEntry>,
    pub unreliable: PathSet,
    pub open: Vec<OpenDir>,
}

/// What a [`Walk`] holds.
#[verifier::ext_equal]
pub struct WalkView {
    pub local: Map<Seq<char>, LocalEntry<Seq<char>>>,
    pub unreliable: Set<Seq<char>>,
    pub open: Seq<OpenDirView>,
}

impl View for Walk {
    type V = WalkView;

    open spec fn view(&self) -> WalkView {
        WalkView {
            local: self.local@,
            unreliable: self.unreliable@,
            open: text::views(self.open@),
        }
    }
}

/// The path on the remote of an entry of the directory `dir`.
pub open spec fn child_key(dir: Seq<char>, name: Seq<char>) -> Seq<char> {
    if dir.len() == 0 {
        name
    } else {
        paths::joined(dir, name)
    }
}

/// A modification time as it is compared; zero where it cannot be told.
pub open spec fn seconds(time: Reading) -> i64 {
    match time {
        Reading::At(secs) => secs as i64,
        _ => 0,
    }
}

/// How an entry's path is shown.
pub open spec fn shown_path(path: Result<String, String>) -> Seq<char> {
    match path {
        Ok(whole) => whole@,
        Err(shown) => shown@,
    }
}

/// The log line about an entry of the directory `dir`: there is one where
/// the walk failed at the entry.
pub open spec fn entry_notice(dir: WalkDir<Seq<char>>, entry: DirEntry) -> Seq<
    Notice<Seq<char>>,
> {
    match entry {
        DirEntry::Broken(words) => seq![
            Notice::UnreadEntry { path: dir.path, key: dir.key, words: words@ },
        ],
        DirEntry::Nameless(raw) => seq![
            Notice::UnreadName { path: dir.path, key: dir.key, raw: raw@ },
        ],
        DirEntry::Named { name, path, is_dir, .. } => {
            let key = child_key(dir.key, name@);
            if editor_temp::editor_temp(name@) {
                Seq::empty()
            } else {
                match (is_dir, path) {
                    (Err(words), _) => seq![
                        Notice::UnknownType { path: shown_path(path), key, words: words@ },
                    ],
                    (Ok(_), Err(shown)) => seq![Notice::UnreadPath { path: shown@, key }],
                    (Ok(_), Ok(_)) => Seq::empty(),
                }
            }
        },
    }
}

/// The directory that an entry of `dir` is.
pub open spec fn inside(dir: WalkDir<Seq<char>>, entry: DirEntry) -> WalkDir<Seq<char>> {
    WalkDir { path: shown_path(entry->path), key: child_key(dir.key, entry->name@) }
}

/// The entry is a directory that the walk goes into.
pub open spec fn goes_into(entry: DirEntry, prefixes: Seq<Seq<char>>) -> bool {
    entry matches DirEntry::Named { name, path: Ok(path), is_dir: Ok(true), .. }
        && !editor_temp::editor_temp(name@) && !snapshot::excluded(path@, prefixes)
}

/// A directory still to be read.
pub open spec fn unread(dir: WalkDir<Seq<char>>) -> OpenDirView {
    OpenDirView { dir, left: None }
}

impl WalkView {
    /// The walk before anything was read.
    pub open spec fn start(path: Seq<char>, key: Seq<char>) -> WalkView {
        WalkView {
            local: Map::empty(),
            unreliable: Set::empty(),
            open: seq![unread(WalkDir { path, key })],
        }
    }

    /// With a place where the walk failed.
    pub open spec fn distrust(self, key: Seq<char>) -> WalkView {
        WalkView { unreliable: self.unreliable.insert(key), ..self }
    }

    /// The walk waits for a directory to be read.
    pub open spec fn waits(self) -> bool {
        self.open.len() > 0 && self.open.last().left is None
    }

    /// With one entry of the directory `dir`. Temp files of editors and
    /// excluded subtrees are passed over; an entry that cannot be read in
    /// full is a place where the walk failed.
    pub open spec fn with_entry(
        self,
        dir: Seq<char>,
        entry: DirEntry,
        prefixes: Seq<Seq<char>>,
    ) -> WalkView {
        match entry {
            DirEntry::Broken(_) => self.distrust(dir),
            DirEntry::Nameless(_) => self.distrust(dir),
            DirEntry::Named { name, path, is_dir, time } => {
                let key = child_key(dir, name@);
                if editor_temp::editor_temp(name@) {
                    self
                } else {
                    match (is_dir, path) {
                        (Ok(is_dir), Ok(path)) => if snapshot::excluded(path@, prefixes) {
                            self
                        } else {
                            WalkView {
                                local: self.local.insert(
                                    key,
                                    LocalEntry {
                                        absolute_path: path@,
                                        is_dir,
                                        mtime_secs: seconds(time),
                                    },
                                ),
                                ..self
                            }
                        },
                        _ => self.distrust(key),
                    }
                }
            },
        }
    }

    /// With the innermost directory in another state.
    pub open spec fn with_last(self, left: Seq<DirEntry>) -> WalkView {
        let last = OpenDirView { left: Some(left), ..self.open.last() };
        WalkView { open: self.open.drop_last().push(last), ..self }
    }

    /// With one more directory to be read.
    pub open spec fn with_unread(self, dir: WalkDir<Seq<char>>) -> WalkView {
        WalkView { open: self.open.push(unread(dir)), ..self }
    }

    /// How many entries of the innermost directory are still to be looked
    /// at.
    pub open spec fn left_in_last(self) -> nat {
        if self.open.len() > 0 {
            match self.open.last().left {
                Some(left) => left.len(),
                None => 0,
            }
        } else {
            0
        }
    }

    /// Looks at what was read, entry by entry, until a directory has to be
    /// read or nothing is left. Failures are logged.
    pub open spec fn settled(self, prefixes: Seq<Seq<char>>) -> (WalkView, Seq<Notice<Seq<char>>>)
        decreases self.open.len(), self.left_in_last(),
    {
        if self.open.len() == 0 {
            (self, Seq::empty())
        } else {
            match self.open.last().left {
                None => (self, Seq::empty()),
                Some(left) => if left.len() == 0 {
                    (WalkView { open: self.open.drop_last(), ..self }).settled(prefixes)
                } else {
                    let (dir, entry) = (self.open.last().dir, left.last());
                    let after = self.with_last(left.drop_last()).with_entry(
                        dir.key,
                        entry,
                        prefixes,
                    );
                    let told = entry_notice(dir, entry);
                    if goes_into(entry, prefixes) {
                        (after.with_unread(inside(dir, entry)), told)
                    } else {
                        let (end, more) = after.settled(prefixes);
                        (end, told + more)
                    }
                },
            }
        }
    }

    /// The innermost directory was read. A directory that could not be is a
    /// place where the walk failed.
    pub open spec fn read(
        self,
        entries: Result<Vec<DirEntry>, String>,
        prefixes: Seq<Seq<char>>,
    ) -> (WalkView, Seq<Notice<Seq<char>>>) {
        let dir = self.open.last().dir;
        match entries {
            Ok(list) => self.with_last(list@.reverse()).settled(prefixes),
            Err(words) => {
                let rest = WalkView { open: self.open.drop_last(), ..self };
                let (end, more) = rest.distrust(dir.key).settled(prefixes);
                let told = Notice::UnreadDir { path: dir.path, key: dir.key, words: words@ };
                (end, seq![told] + more)
            },
        }
    }
}

impl Walk {
    /// A walk that starts at `path`, whose path on the remote is `key`.
    pub fn new(path: &str, key: &str) -> (walk: Walk)
        ensures
            walk@ == WalkView::start(path@, key@),
    {
        let mut open: Vec<OpenDir> = Vec::new();
        let dir = WalkDir { path: path.to_owned(), key: key.to_owned() };
        open.push(OpenDir { dir, left: None });
        let walk = Walk { local: PathMap::new(), unreliable: PathSet::new(), open };
        assert(walk@ =~= WalkView::start(path@, key@));
        walk
    }

    fn add_entry(
        &mut self,
        dir: &WalkDir,
        entry: &DirEntry,
        prefixes: &Vec<String>,
        effects: &mut Vec<Effect>,
    ) -> (next: Option<WalkDir>)
        ensures
            final(self)@ == old(self)@.with_entry(dir@.key, *entry, text::views(prefixes@)),
            text::views(final(effects)@) == text::views(old(effects)@) + ports::logged(
                entry_notice(dir@, *entry),
            ),
            text::opt_view(next) == if goes_into(*entry, text::views(prefixes@)) {
                Some(inside(dir@, *entry))
            } else {
                None
            },
    {
        let ghost before = self@;
        let ghost earlier = text::views(effects@);
        let mut next: Option<WalkDir> = None;
        match entry {
            DirEntry::Broken(words) => {
                let notice = Notice::UnreadEntry {
                    path: dir.path.clone(),
                    key: dir.key.clone(),
                    words: words.clone(),
                };
                add_effect(effects, Effect::Log(notice));
                self.unreliable.insert(dir.key.clone());
            },
            DirEntry::Nameless(raw) => {
                let notice = Notice::UnreadName {
                    path: dir.path.clone(),
                    key: dir.key.clone(),
                    raw: raw.clone(),
                };
                add_effect(effects, Effect::Log(notice));
                self.unreliable.insert(dir.key.clone());
            },
            DirEntry::Named { name, path, is_dir, time } => {
                if !is_editor_temp(name.as_str()) {
                    let key = if dir.key.as_str().unicode_len() == 0 {
                        name.clone()
                    } else {
                        join(dir.key.as_str(), name.as_str())
                    };
                    match (is_dir, path) {
                        (Err(words), path) => {
                            let shown = match path {
                                Ok(whole) => whole.clone(),
                                Err(shown) => shown.clone(),
                            };
                            let notice = Notice::UnknownType {
                                path: shown,
                                key: key.clone(),
                                words: words.clone(),
                            };
                            add_effect(effects, Effect::Log(notice));
                            self.unreliable.insert(key);
                        },
                        (Ok(_), Err(shown)) => {
                            let notice = Notice::UnreadPath {
                                path: shown.clone(),
                                key: key.clone(),
                            };
                            add_effect(effects, Effect::Log(notice));
                            self.unreliable.insert(key);
                        },
                        (Ok(dir_flag), Ok(path)) => {
                            let is_dir: bool = *dir_flag;
                            if !path_is_excluded(path.as_str(), prefixes) {
                                let mtime_secs: i64 = match time {
                                    Reading::At(secs) => *secs as i64,
                                    _ => 0,
                                };
                                let found = LocalEntry {
                                    absolute_path: path.clone(),
                                    is_dir,
                                    mtime_secs,
                                };
                                let _ = self.local.insert(key.clone(), found);
                                if is_dir {
                                    next = Some(WalkDir { path: path.clone(), key });
                                }
                            }
                        },
                    }
                }
            },
        }
        assert(self@ =~= before.with_entry(dir@.key, *entry, text::views(prefixes@)));
        assert(text::views(effects@) =~= earlier + ports::logged(entry_notice(dir@, *entry)));
        next
    }

    fn settle(&mut self, prefixes: &Vec<String>, effects: &mut Vec<Effect>)
        ensures
            final(self)@ == old(self)@.settled(text::views(prefixes@)).0,
            text::views(final(effects)@) == text::views(old(effects)@) + ports::logged(
                old(self)@.settled(text::views(prefixes@)).1,
            ),
            final(self)@.open.len() == 0 || final(self)@.waits(),
    {
        let ghost skip = text::views(prefixes@);
        let ghost start = self@;
        let ghost before = text::views(effects@);
        let ghost mut told: Seq<Notice<Seq<char>>> = Seq::empty();
        let ghost all = start.settled(skip);
        assert(told + all.1 =~= all.1);
        assert(before + ports::logged(told) =~= before);
        loop
            invariant
                skip == text::views(prefixes@),
                all.0 == self@.settled(skip).0,
                all.1 == told + self@.settled(skip).1,
                text::views(effects@) == before + ports::logged(told),
            ensures
                all == (self@, told),
                text::views(effects@) == before + ports::logged(told),
                self@.open.len() == 0 || self@.waits(),
            decreases self@.open.len(), self@.left_in_last(),
        {
            let ghost here = self@;
            let (dir, mut entries): (WalkDir, Vec<DirEntry>) = match self.open.pop() {
                Some(OpenDir { dir, left: Some(entries) }) => (dir, entries),
                Some(OpenDir { dir, left: None }) => {
                    self.open.push(OpenDir { dir, left: None });
                    assert(self@ =~= here);
                    assert(told + Seq::<Notice<Seq<char>>>::empty() =~= told);
                    break;
                },
                None => {
                    assert(self@ =~= here);
                    assert(told + Seq::<Notice<Seq<char>>>::empty() =~= told);
                    break;
                },
            };
            let ghost (at, were) = (dir@, entries@);
            let ghost popped = self@;
            assert(popped.open =~= here.open.drop_last());
            assert(here.open.last() == (OpenDirView { dir: at, left: Some(were) }));
            let entry = match entries.pop() {
                Some(entry) => entry,
                None => {
                    assert(self@ =~= (WalkView { open: here.open.drop_last(), ..here }));
                    continue;
                },
            };
            let ghost more = entry_notice(at, entry);
            let ghost rest = here.with_last(were.drop_last());
            let next = self.add_entry(&dir, &entry, prefixes, effects);
            self.open.push(OpenDir { dir, left: Some(entries) });
            let ghost noted = self@;
            proof {
                assert(noted.open =~= rest.open);
                assert(noted =~= rest.with_entry(at.key, entry, skip));
                assert(ports::logged(told + more) =~= ports::logged(told) + ports::logged(more));
                assert(told + (more + noted.settled(skip).1) =~= told + more
                    + noted.settled(skip).1);
                told = told + more;
                assert(text::views(effects@) =~= before + ports::logged(told));
            }
            if let Some(next) = next {
                self.open.push(OpenDir { dir: next, left: None });
                assert(self@ =~= noted.with_unread(inside(at, entry)));
                break;
            }
        }
    }

    /// Takes in what reading the innermost directory gave, and goes on to the
    /// next directory that has to be read. The effects put every failure into
    /// the log.
    pub fn take_in(
        &mut self,
        entries: Result<Vec<DirEntry>, String>,
        prefixes: &Vec<String>,
    ) -> (effects: Vec<Effect>)
        requires
            old(self)@.waits(),
        ensures
            final(self)@ == old(self)@.read(entries, text::views(prefixes@)).0,
            text::views(effects@) == ports::logged(
                old(self)@.read(entries, text::views(prefixes@)).1,
            ),
            final(self)@.open.len() == 0 || final(self)@.waits(),
    {
        let ghost start = self@;
        let ghost skip = text::views(prefixes@);
        let mut effects: Vec<Effect> = Vec::new();
        assert(text::views(effects@) =~= ports::logged(Seq::empty()));
        match self.open.pop() {
            Some(top) => {
                let ghost held = top@;
                assert(held == start.open.last());
                let OpenDir { dir, left: _ } = top;
                match entries {
                    Ok(list) => {
                        let left = backwards(list);
                        self.open.push(OpenDir { dir, left: Some(left) });
                        assert(self@ =~= start.with_last(list@.reverse()));
                        self.settle(prefixes, &mut effects);
                        assert(text::views(effects@) =~= ports::logged(
                            start.read(entries, skip).1,
                        ));
                    },
                    Err(words) => {
                        let ghost told = Notice::UnreadDir {
                            path: dir@.path,
                            key: dir@.key,
                            words: words@,
                        };
                        let notice = Notice::UnreadDir {
                            path: dir.path,
                            key: dir.key.clone(),
                            words,
                        };
                        add_effect(&mut effects, Effect::Log(notice));
                        self.unreliable.insert(dir.key);
                        let ghost rest = WalkView { open: start.open.drop_last(), ..start };
                        assert(self@ =~= rest.distrust(held.dir.key));
                        self.settle(prefixes, &mut effects);
                        assert(text::views(effects@) =~= ports::logged(
                            seq![told] + rest.distrust(held.dir.key).settled(skip).1,
                        ));
                    },
                }
            },
            None => {},
        }
        effects
    }
}

/// The entries, the last one first.
fn backwards(list: Vec<DirEntry>) -> (turned: Vec<DirEntry>)
    ensures
        turned@ == list@.reverse(),
{
    let mut list = list;
    let ghost all = list@;
    let mut turned: Vec<DirEntry> = Vec::new();
    let total: usize = list.len();
    let mut n: usize = 0;
    while n < total
        invariant
            total == all.len(),
            n <= total,
            list@ == all.take(total - n),
            turned@ == all.reverse().take(n as int),
        decreases total - n,
    {
        if let Some(entry) = list.pop() {
            turned.push(entry);
        }
        n = n + 1;
    }
    turned
}

/// The line is about a failure at `key`.
pub open spec fn blames(notice: Notice<Seq<char>>, key: Seq<char>) -> bool {
    match notice {
        Notice::UnreadDir { key: at, .. }
        | Notice::UnreadEntry { key: at, .. }
        | Notice::UnreadName { key: at, .. }
        | Notice::UnknownType { key: at, .. }
        | Notice::UnreadPath { key: at, .. } => at == key,
        _ => false,
    }
}

/// One of the lines is about a failure at `key`.
pub open spec fn told_of(notices: Seq<Notice<Seq<char>>>, key: Seq<char>) -> bool {
    exists|i: int| 0 <= i < notices.len() && blames(#[trigger] notices[i], key)
}

/// Everything found so far may be synced: no entry is an editor's temp file
/// or inside an excluded subtree.
pub open spec fn admissible(walk: WalkView, prefixes: Seq<Seq<char>>) -> bool {
    forall|key: Seq<char>| #[trigger]
        walk.local.contains_key(key) ==> !snapshot::excluded(
            walk.local[key].absolute_path,
            prefixes,
        ) && exists|dir: Seq<char>, name: Seq<char>|
            key == #[trigger] child_key(dir, name) && !editor_temp::editor_temp(name)
}

proof fn lemma_entry_admissible(
    walk: WalkView,
    dir: Seq<char>,
    entry: DirEntry,
    prefixes: Seq<Seq<char>>,
)
    requires
        admissible(walk, prefixes),
    ensures
        admissible(walk.with_entry(dir, entry, prefixes), prefixes),
{
    let after = walk.with_entry(dir, entry, prefixes);
    match entry {
        DirEntry::Named { name, .. } => {
            assert forall|key: Seq<char>| #[trigger]
                after.local.contains_key(key) implies !snapshot::excluded(
                after.local[key].absolute_path,
                prefixes,
            ) && exists|d: Seq<char>, n: Seq<char>|
                key == #[trigger] child_key(d, n) && !editor_temp::editor_temp(n) by {
                if after.local != walk.local && key == child_key(dir, name@) {
                    assert(!editor_temp::editor_temp(name@));
                } else {
                    assert(walk.local.contains_key(key));
                    assert(after.local[key] == walk.local[key]);
                }
            }
        },
        _ => {
            assert(after.local == walk.local);
        },
    }
}

proof fn lemma_told_more(
    told: Seq<Notice<Seq<char>>>,
    more: Seq<Notice<Seq<char>>>,
    key: Seq<char>,
)
    ensures
        told_of(told + more, key) <==> told_of(told, key) || told_of(more, key),
{
    let all = told + more;
    if told_of(told, key) {
        let i = choose|i: int| 0 <= i < told.len() && blames(#[trigger] told[i], key);
        assert(all[i] == told[i]);
    }
    if told_of(more, key) {
        let i = choose|i: int| 0 <= i < more.len() && blames(#[trigger] more[i], key);
        assert(all[told.len() + i] == more[i]);
    }
    if told_of(all, key) {
        let i = choose|i: int| 0 <= i < all.len() && blames(#[trigger] all[i], key);
        if i < told.len() {
            assert(told[i] == all[i]);
        } else {
            assert(more[i - told.len()] == all[i]);
        }
    }
}

proof fn lemma_entry_told(
    walk: WalkView,
    dir: WalkDir<Seq<char>>,
    entry: DirEntry,
    prefixes: Seq<Seq<char>>,
    key: Seq<char>,
)
    ensures
        walk.with_entry(dir.key, entry, prefixes).unreliable.contains(key)
            <==> walk.unreliable.contains(key) || told_of(entry_notice(dir, entry), key),
{
    let told = entry_notice(dir, entry);
    if told.len() > 0 {
        assert(blames(told[0], key) <==> told_of(told, key));
    }
}

proof fn lemma_settled(walk: WalkView, prefixes: Seq<Seq<char>>, key: Seq<char>)
    ensures
        admissible(walk, prefixes) ==> admissible(walk.settled(prefixes).0, prefixes),
        walk.settled(prefixes).0.unreliable.contains(key) <==> walk.unreliable.contains(key)
            || told_of(walk.settled(prefixes).1, key),
    decreases walk.open.len(), walk.left_in_last(),
{
    if walk.open.len() > 0 {
        match walk.open.last().left {
            None => {},
            Some(left) => {
                if left.len() == 0 {
                    let rest = WalkView { open: walk.open.drop_last(), ..walk };
                    lemma_settled(rest, prefixes, key);
                } else {
                    let (dir, entry) = (walk.open.last().dir, left.last());
                    let rest = walk.with_last(left.drop_last());
                    let after = rest.with_entry(dir.key, entry, prefixes);
                    lemma_entry_told(rest, dir, entry, prefixes, key);
                    if admissible(walk, prefixes) {
                        lemma_entry_admissible(rest, dir.key, entry, prefixes);
                    }
                    if !goes_into(entry, prefixes) {
                        lemma_settled(after, prefixes, key);
                        lemma_told_more(
                            entry_notice(dir, entry),
                            after.settled(prefixes).1,
                            key,
                        );
                    }
                }
            },
        }
    }
}

/// A walk never finds an editor's temp file or anything in an excluded
/// subtree: it starts without entries, and no directory that is read adds
/// such a one.
pub proof fn law_walk_is_admissible(
    walk: WalkView,
    entries: Result<Vec<DirEntry>, String>,
    prefixes: Seq<Seq<char>>,
    path: Seq<char>,
    key: Seq<char>,
)
    ensures
        admissible(WalkView::start(path, key), prefixes),
        admissible(walk, prefixes) ==> admissible(walk.read(entries, prefixes).0, prefixes),
{
    match entries {
        Ok(list) => {
            lemma_settled(walk.with_last(list@.reverse()), prefixes, key);
        },
        Err(_) => {
            let rest = WalkView { open: walk.open.drop_last(), ..walk };
            lemma_settled(rest.distrust(walk.open.last().dir.key), prefixes, key);
        },
    }
}

/// A place is marked as one where the walk failed exactly when the log says
/// so: there is no mark without a line, and no line without a mark.
pub proof fn law_failures_are_told(
    walk: WalkView,
    entries: Result<Vec<DirEntry>, String>,
    prefixes: Seq<Seq<char>>,
    key: Seq<char>,
)
    ensures
        walk.read(entries, prefixes).0.unreliable.contains(key) <==> walk.unreliable.contains(key)
            || told_of(walk.read(entries, prefixes).1, key),
{
    let dir = walk.open.last().dir;
    match entries {
        Ok(list) => {
            lemma_settled(walk.with_last(list@.reverse()), prefixes, key);
        },
        Err(words) => {
            let rest = (WalkView { open: walk.open.drop_last(), ..walk }).distrust(dir.key);
            let told = seq![
                Notice::UnreadDir { path: dir.path, key: dir.key, words: words@ },
            ];
            lemma_settled(rest, prefixes, key);
            lemma_told_more(told, rest.settled(prefixes).1, key);
            assert(blames(told[0], key) <==> told_of(told, key));
        },
    }
}

/// A directory that cannot be read is remembered as a place where the walk
/// failed, and so is every earlier one.
pub proof fn law_failures_are_remembered(
    walk: WalkView,
    entries: Result<Vec<DirEntry>, String>,
    prefixes: Seq<Seq<char>>,
)
    requires
        walk.waits(),
    ensures
        walk.unreliable.subset_of(walk.read(entries, prefixes).0.unreliable),
        entries is Err ==> walk.read(entries, prefixes).0.unreliable.contains(
            walk.open.last().dir.key,
        ),
{
    let dir = walk.open.last().dir;
    assert forall|key: Seq<char>| #[trigger] walk.unreliable.contains(key) implies walk.read(
        entries,
        prefixes,
    ).0.unreliable.contains(key) by {
        law_failures_are_told(walk, entries, prefixes, key);
    }
    law_failures_are_told(walk, entries, prefixes, dir.key);
    match entries {
        Ok(_) => {},
        Err(_) => {
            assert(blames(walk.read(entries, prefixes).1[0], dir.key));
        },
    }
}

/// What reading each directory gives, by its local path.
pub type Disk = spec_fn(Seq<char>) -> Result<Vec<DirEntry>, String>;

/// The walk after `reads` directories were read; once it is through with all
/// it stays as it is.
pub open spec fn walked(
    start: WalkView,
    disk: Disk,
    prefixes: Seq<Seq<char>>,
    reads: nat,
) -> WalkView
    decreases reads,
{
    if reads == 0 {
        start
    } else {
        let walk = walked(start, disk, prefixes, (reads - 1) as nat);
        if walk.open.len() == 0 {
            walk
        } else {
            walk.read(disk(walk.open.last().dir.path), prefixes).0
        }
    }
}

/// The directory in which the entry at place `i` of a chain lies, where the
/// first one lies in `root` and each next one in the one before.
pub open spec fn dir_at(root: WalkDir<Seq<char>>, chain: Seq<DirEntry>, i: int) -> WalkDir<
    Seq<char>,
>
    decreases i,
{
    if i <= 0 {
        root
    } else {
        inside(dir_at(root, chain, i - 1), chain[i - 1])
    }
}

/// The entry is a directory that can be gone into.
pub open spec fn enterable(entry: DirEntry) -> bool {
    entry matches DirEntry::Named { path: Ok(_), is_dir: Ok(true), .. }
}

/// The disk holds the chain: each entry is among what reading its directory
/// gives, and each but the last is a directory.
pub open spec fn on_disk(root: WalkDir<Seq<char>>, disk: Disk, chain: Seq<DirEntry>) -> bool {
    forall|i: int|
        0 <= i < chain.len() ==> {
            &&& disk((#[trigger] dir_at(root, chain, i)).path) matches Ok(list)
                && list@.contains(chain[i])
            &&& i + 1 < chain.len() ==> enterable(chain[i])
        }
}

/// The entry is passed over on purpose: it is an editor's temp file or lies
/// in an excluded subtree.
pub open spec fn passed_over(entry: DirEntry, prefixes: Seq<Seq<char>>) -> bool {
    entry matches DirEntry::Named { name, path, .. } && (editor_temp::editor_temp(name@) || (
    path matches Ok(path) && snapshot::excluded(path@, prefixes)))
}

/// The walk failed at an entry of `dir`: at the directory or at the entry.
pub open spec fn failed_at(walk: WalkView, dir: WalkDir<Seq<char>>, entry: DirEntry) -> bool {
    walk.unreliable.contains(dir.key) || (entry is Named && walk.unreliable.contains(
        child_key(dir.key, entry->name@),
    ))
}

/// The directory waits to be read.
pub open spec fn awaits(walk: WalkView, dir: WalkDir<Seq<char>>) -> bool {
    walk.open.contains(unread(dir))
}

/// The entry of `dir` is still to be looked at.
pub open spec fn left_over(walk: WalkView, dir: WalkDir<Seq<char>>, entry: DirEntry) -> bool {
    exists|k: int|
        0 <= k < walk.open.len() && (#[trigger] walk.open[k]).dir == dir && (
        walk.open[k].left matches Some(left) && left.contains(entry))
}

/// The entry of `dir` was found; where it is a directory it was read, or
/// waits to be. `done` are the directories that were read.
pub open spec fn found(
    walk: WalkView,
    done: Set<WalkDir<Seq<char>>>,
    dir: WalkDir<Seq<char>>,
    entry: DirEntry,
) -> bool {
    &&& entry is Named
    &&& walk.local.contains_key(child_key(dir.key, entry->name@))
    &&& enterable(entry) ==> done.contains(inside(dir, entry)) || awaits(walk, inside(dir, entry))
}

/// The entry of `dir` is not lost.
pub open spec fn accounted(
    walk: WalkView,
    done: Set<WalkDir<Seq<char>>>,
    dir: WalkDir<Seq<char>>,
    entry: DirEntry,
    prefixes: Seq<Seq<char>>,
) -> bool {
    ||| found(walk, done, dir, entry)
    ||| failed_at(walk, dir, entry)
    ||| passed_over(entry, prefixes)
    ||| left_over(walk, dir, entry)
}

/// Nothing of what was read is lost: `done` are the directories that were
/// read, and the root is one of these or waits to be.
pub open spec fn in_progress(
    walk: WalkView,
    root: WalkDir<Seq<char>>,
    disk: Disk,
    done: Set<WalkDir<Seq<char>>>,
    prefixes: Seq<Seq<char>>,
) -> bool {
    &&& done.contains(root) || awaits(walk, root)
    &&& forall|dir: WalkDir<Seq<char>>, entry: DirEntry|
        done.contains(dir) && #[trigger] gives(disk, dir, entry) ==> #[trigger] accounted(
            walk,
            done,
            dir,
            entry,
            prefixes,
        )
    &&& forall|dir: WalkDir<Seq<char>>| #[trigger]
        done.contains(dir) && disk(dir.path) is Err ==> walk.unreliable.contains(dir.key)
}

/// Reading `dir` gives the entry.
pub open spec fn gives(disk: Disk, dir: WalkDir<Seq<char>>, entry: DirEntry) -> bool {
    disk(dir.path) matches Ok(list) && list@.contains(entry)
}

/// What `walk` knows, `later` knows too; the entry is either looked at in
/// `later`, or still to be looked at where it was before.
proof fn lemma_accounted_later(
    walk: WalkView,
    later: WalkView,
    done: Set<WalkDir<Seq<char>>>,
    more: Set<WalkDir<Seq<char>>>,
    dir: WalkDir<Seq<char>>,
    entry: DirEntry,
    prefixes: Seq<Seq<char>>,
)
    requires
        accounted(walk, done, dir, entry, prefixes),
        walk.local.dom().subset_of(later.local.dom()),
        walk.unreliable.subset_of(later.unreliable),
        forall|d: WalkDir<Seq<char>>|
            done.contains(d) || #[trigger] awaits(walk, d) ==> more.contains(d) || awaits(later, d),
        left_over(walk, dir, entry) ==> accounted(later, more, dir, entry, prefixes),
    ensures
        accounted(later, more, dir, entry, prefixes),
{
    if found(walk, done, dir, entry) {
        let (next, key) = (inside(dir, entry), child_key(dir.key, entry->name@));
        assert(walk.local.dom().contains(key));
        if enterable(entry) && !awaits(walk, next) {
            assert(done.contains(next));
        }
        assert(found(later, more, dir, entry));
    } else if failed_at(walk, dir, entry) {
        assert(failed_at(later, dir, entry));
    }
}

/// Dropping an innermost directory of which nothing is left.
proof fn lemma_drop_in_progress(
    walk: WalkView,
    root: WalkDir<Seq<char>>,
    disk: Disk,
    done: Set<WalkDir<Seq<char>>>,
    prefixes: Seq<Seq<char>>,
)
    requires
        in_progress(walk, root, disk, done, prefixes),
        walk.open.len() > 0,
        walk.open.last().left matches Some(left) && left.len() == 0,
    ensures
        in_progress(
            (WalkView { open: walk.open.drop_last(), ..walk }),
            root,
            disk,
            done,
            prefixes,
        ),
{
    let later = WalkView { open: walk.open.drop_last(), ..walk };
    assert forall|d: WalkDir<Seq<char>>| #[trigger] awaits(walk, d) implies awaits(later, d) by {
        let k = walk.open.index_of(unread(d));
        assert(walk.open[k] == unread(d));
        assert(later.open[k] == unread(d));
    }
    assert forall|dir: WalkDir<Seq<char>>, entry: DirEntry|
        done.contains(dir) && #[trigger] gives(disk, dir, entry) implies #[trigger] accounted(
        later,
        done,
        dir,
        entry,
        prefixes,
    ) by {
        assert(accounted(walk, done, dir, entry, prefixes));
        if left_over(walk, dir, entry) {
            let k = choose|k: int|
                0 <= k < walk.open.len() && (#[trigger] walk.open[k]).dir == dir && (
                walk.open[k].left matches Some(left) && left.contains(entry));
            assert(later.open[k] == walk.open[k]);
            assert(left_over(later, dir, entry));
        }
        lemma_accounted_later(walk, later, done, done, dir, entry, prefixes);
    }
}

/// Looking at the next entry of the innermost directory.
proof fn lemma_entry_in_progress(
    walk: WalkView,
    root: WalkDir<Seq<char>>,
    disk: Disk,
    done: Set<WalkDir<Seq<char>>>,
    prefixes: Seq<Seq<char>>,
)
    requires
        in_progress(walk, root, disk, done, prefixes),
        walk.open.len() > 0,
        walk.open.last().left matches Some(left) && left.len() > 0,
    ensures
        ({
            let (top, left) = (walk.open.last().dir, walk.open.last().left->0);
            let after = walk.with_last(left.drop_last()).with_entry(
                top.key,
                left.last(),
                prefixes,
            );
            in_progress(
                if goes_into(left.last(), prefixes) {
                    after.with_unread(inside(top, left.last()))
                } else {
                    after
                },
                root,
                disk,
                done,
                prefixes,
            )
        }),
{
    let (top, left) = (walk.open.last().dir, walk.open.last().left->0);
    let next = left.last();
    let rest = walk.with_last(left.drop_last());
    let after = rest.with_entry(top.key, next, prefixes);
    let later = if goes_into(next, prefixes) {
        after.with_unread(inside(top, next))
    } else {
        after
    };
    let last = walk.open.len() - 1;
    assert(after.open == rest.open);
    assert(forall|k: int| 0 <= k < last ==> later.open[k] == #[trigger] walk.open[k]);
    assert(later.open[last] == (OpenDirView { dir: top, left: Some(left.drop_last()) }));
    assert forall|d: WalkDir<Seq<char>>| #[trigger] awaits(walk, d) implies awaits(later, d) by {
        let k = walk.open.index_of(unread(d));
        assert(walk.open[k] == unread(d));
        assert(later.open[k] == unread(d));
    }
    assert(walk.local.dom().subset_of(later.local.dom()));
    assert(accounted(later, done, top, next, prefixes)) by {
        if goes_into(next, prefixes) {
            assert(later.open[last + 1] == unread(inside(top, next)));
            assert(awaits(later, inside(top, next)));
        }
    }
    assert forall|dir: WalkDir<Seq<char>>, entry: DirEntry|
        done.contains(dir) && #[trigger] gives(disk, dir, entry) implies #[trigger] accounted(
        later,
        done,
        dir,
        entry,
        prefixes,
    ) by {
        assert(accounted(walk, done, dir, entry, prefixes));
        if left_over(walk, dir, entry) && !(dir == top && entry == next) {
            let k = choose|k: int|
                0 <= k < walk.open.len() && (#[trigger] walk.open[k]).dir == dir && (
                walk.open[k].left matches Some(left) && left.contains(entry));
            if k == last {
                let i = left.index_of(entry);
                assert(left[i] == entry);
                assert(left.drop_last()[i] == entry);
                assert(left.drop_last().contains(entry));
            }
            assert(later.open[k].dir == dir);
            assert(left_over(later, dir, entry));
        }
        lemma_accounted_later(walk, later, done, done, dir, entry, prefixes);
    }
}

proof fn lemma_settled_in_progress(
    walk: WalkView,
    root: WalkDir<Seq<char>>,
    disk: Disk,
    done: Set<WalkDir<Seq<char>>>,
    prefixes: Seq<Seq<char>>,
)
    requires
        in_progress(walk, root, disk, done, prefixes),
    ensures
        in_progress(walk.settled(prefixes).0, root, disk, done, prefixes),
    decreases walk.open.len(), walk.left_in_last(),
{
    if walk.open.len() > 0 {
        match walk.open.last().left {
            None => {},
            Some(left) => {
                if left.len() == 0 {
                    let rest = WalkView { open: walk.open.drop_last(), ..walk };
                    lemma_drop_in_progress(walk, root, disk, done, prefixes);
                    lemma_settled_in_progress(rest, root, disk, done, prefixes);
                } else {
                    let (top, next) = (walk.open.last().dir, left.last());
                    let rest = walk.with_last(left.drop_last());
                    lemma_entry_in_progress(walk, root, disk, done, prefixes);
                    if !goes_into(next, prefixes) {
                        let after = rest.with_entry(top.key, next, prefixes);
                        lemma_settled_in_progress(after, root, disk, done, prefixes);
                    }
                }
            },
        }
    }
}

proof fn lemma_read_in_progress(
    walk: WalkView,
    root: WalkDir<Seq<char>>,
    disk: Disk,
    done: Set<WalkDir<Seq<char>>>,
    prefixes: Seq<Seq<char>>,
)
    requires
        in_progress(walk, root, disk, done, prefixes),
        walk.waits(),
    ensures
        in_progress(
            walk.read(disk(walk.open.last().dir.path), prefixes).0,
            root,
            disk,
            done.insert(walk.open.last().dir),
            prefixes,
        ),
{
    let top = walk.open.last().dir;
    let last = walk.open.len() - 1;
    let more = done.insert(top);
    let later = match disk(top.path) {
        Ok(list) => walk.with_last(list@.reverse()),
        Err(_) => (WalkView { open: walk.open.drop_last(), ..walk }).distrust(top.key),
    };
    assert(walk.open[last] == unread(top));
    assert(forall|k: int| 0 <= k < last ==> later.open[k] == #[trigger] walk.open[k]);
    assert forall|d: WalkDir<Seq<char>>| #[trigger] awaits(walk, d) implies more.contains(d)
        || awaits(later, d) by {
        let k = walk.open.index_of(unread(d));
        assert(walk.open[k] == unread(d));
        if k < last {
            assert(later.open[k] == unread(d));
        }
    }
    assert forall|dir: WalkDir<Seq<char>>, entry: DirEntry|
        more.contains(dir) && #[trigger] gives(disk, dir, entry) implies #[trigger] accounted(
        later,
        more,
        dir,
        entry,
        prefixes,
    ) by {
        if dir == top {
            let list = disk(top.path)->Ok_0@;
            let i = list.index_of(entry);
            assert(list[i] == entry);
            assert(list.reverse()[list.len() - 1 - i] == entry);
            assert(list.reverse().contains(entry));
            assert(later.open[last].dir == dir);
            assert(left_over(later, dir, entry));
        } else {
            assert(accounted(walk, done, dir, entry, prefixes));
            if left_over(walk, dir, entry) {
                let k = choose|k: int|
                    0 <= k < walk.open.len() && (#[trigger] walk.open[k]).dir == dir && (
                    walk.open[k].left matches Some(left) && left.contains(entry));
                assert(later.open[k] == walk.open[k]);
                assert(left_over(later, dir, entry));
            }
            lemma_accounted_later(walk, later, done, more, dir, entry, prefixes);
        }
    }
    lemma_settled_in_progress(later, root, disk, more, prefixes);
}

proof fn lemma_settled_waits(walk: WalkView, prefixes: Seq<Seq<char>>)
    ensures
        walk.settled(prefixes).0.open.len() == 0 || walk.settled(prefixes).0.waits(),
    decreases walk.open.len(), walk.left_in_last(),
{
    if walk.open.len() > 0 {
        match walk.open.last().left {
            None => {},
            Some(left) => {
                if left.len() == 0 {
                    lemma_settled_waits(
                        (WalkView { open: walk.open.drop_last(), ..walk }),
                        prefixes,
                    );
                } else if !goes_into(left.last(), prefixes) {
                    let rest = walk.with_last(left.drop_last());
                    let dir = walk.open.last().dir;
                    lemma_settled_waits(
                        rest.with_entry(dir.key, left.last(), prefixes),
                        prefixes,
                    );
                }
            },
        }
    }
}

proof fn lemma_walked_in_progress(
    root: WalkDir<Seq<char>>,
    disk: Disk,
    prefixes: Seq<Seq<char>>,
    reads: nat,
) -> (done: Set<WalkDir<Seq<char>>>)
    ensures
        ({
            let walk = walked(WalkView::start(root.path, root.key), disk, prefixes, reads);
            &&& in_progress(walk, root, disk, done, prefixes)
            &&& walk.open.len() == 0 || walk.waits()
        }),
    decreases reads,
{
    let start = WalkView::start(root.path, root.key);
    if reads == 0 {
        assert(start.open[0] == unread(root));
        assert(awaits(start, root));
        Set::empty()
    } else {
        let done = lemma_walked_in_progress(root, disk, prefixes, (reads - 1) as nat);
        let walk = walked(start, disk, prefixes, (reads - 1) as nat);
        if walk.open.len() == 0 {
            done
        } else {
            let dir = walk.open.last().dir;
            lemma_read_in_progress(walk, root, disk, done, prefixes);
            match disk(dir.path) {
                Ok(list) => {
                    lemma_settled_waits(walk.with_last(list@.reverse()), prefixes);
                },
                Err(_) => {
                    let rest = WalkView { open: walk.open.drop_last(), ..walk };
                    lemma_settled_waits(rest.distrust(dir.key), prefixes);
                },
            }
            done.insert(dir)
        }
    }
}

proof fn lemma_chain_is_read(
    walk: WalkView,
    root: WalkDir<Seq<char>>,
    disk: Disk,
    done: Set<WalkDir<Seq<char>>>,
    prefixes: Seq<Seq<char>>,
    chain: Seq<DirEntry>,
    i: int,
)
    requires
        in_progress(walk, root, disk, done, prefixes),
        walk.open.len() == 0,
        on_disk(root, disk, chain),
        0 <= i <= chain.len(),
        i == chain.len() && i > 0 ==> enterable(chain.last()),
    ensures
        done.contains(dir_at(root, chain, i)) || exists|k: int|
            0 <= k < i && (failed_at(walk, #[trigger] dir_at(root, chain, k), chain[k])
                || passed_over(chain[k], prefixes)),
    decreases i,
{
    if i > 0 {
        lemma_chain_is_read(walk, root, disk, done, prefixes, chain, i - 1);
        let dir = dir_at(root, chain, i - 1);
        if done.contains(dir) {
            assert(gives(disk, dir, chain[i - 1]));
            assert(accounted(walk, done, dir, chain[i - 1], prefixes));
        } else {
            let k = choose|k: int|
                0 <= k < i - 1 && (failed_at(walk, #[trigger] dir_at(root, chain, k), chain[k])
                    || passed_over(chain[k], prefixes));
            assert(0 <= k < i);
        }
    }
}

/// A walk loses nothing: once it is through, every entry on the disk below
/// the root, however deep, was found, or the walk is known to have failed at
/// it or at a directory above it, or it or a directory above it was passed
/// over on purpose.
pub proof fn law_walk_is_complete(
    root: WalkDir<Seq<char>>,
    disk: Disk,
    prefixes: Seq<Seq<char>>,
    reads: nat,
    chain: Seq<DirEntry>,
)
    requires
        walked(WalkView::start(root.path, root.key), disk, prefixes, reads).open.len() == 0,
        on_disk(root, disk, chain),
        chain.len() > 0,
    ensures
        ({
            let walk = walked(WalkView::start(root.path, root.key), disk, prefixes, reads);
            let last = chain.len() - 1;
            ||| chain[last] is Named && walk.local.contains_key(
                child_key(dir_at(root, chain, last).key, chain[last]->name@),
            )
            ||| exists|i: int|
                0 <= i <= last && failed_at(walk, #[trigger] dir_at(root, chain, i), chain[i])
            ||| exists|i: int| 0 <= i <= last && passed_over(#[trigger] chain[i], prefixes)
        }),
{
    let walk = walked(WalkView::start(root.path, root.key), disk, prefixes, reads);
    let last = chain.len() - 1;
    let done = lemma_walked_in_progress(root, disk, prefixes, reads);
    lemma_chain_is_read(walk, root, disk, done, prefixes, chain, last);
    let dir = dir_at(root, chain, last);
    if done.contains(dir) {
        assert(gives(disk, dir, chain[last]));
        assert(accounted(walk, done, dir, chain[last], prefixes));
    } else {
        let k = choose|k: int|
            0 <= k < last && (failed_at(walk, #[trigger] dir_at(root, chain, k), chain[k])
                || passed_over(chain[k], prefixes));
        assert(0 <= k <= last);
    }
}

/// Every directory that the walk goes into is read: once it is through, one
/// that cannot be read is known as a place where the walk failed, unless the
/// walk failed or passed something over on the way to it.
pub proof fn law_unreadable_directories_are_known(
    root: WalkDir<Seq<char>>,
    disk: Disk,
    prefixes: Seq<Seq<char>>,
    reads: nat,
    chain: Seq<DirEntry>,
)
    requires
        walked(WalkView::start(root.path, root.key), disk, prefixes, reads).open.len() == 0,
        on_disk(root, disk, chain),
        chain.len() > 0 ==> enterable(chain.last()),
        disk(dir_at(root, chain, chain.len() as int).path) is Err,
    ensures
        ({
            let walk = walked(WalkView::start(root.path, root.key), disk, prefixes, reads);
            ||| walk.unreliable.contains(dir_at(root, chain, chain.len() as int).key)
            ||| exists|i: int|
                0 <= i < chain.len() && failed_at(
                    walk,
                    #[trigger] dir_at(root, chain, i),
                    chain[i],
                )
            ||| exists|i: int|
                0 <= i < chain.len() && passed_over(#[trigger] chain[i], prefixes)
        }),
{
    let walk = walked(WalkView::start(root.path, root.key), disk, prefixes, reads);
    let total = chain.len() as int;
    let done = lemma_walked_in_progress(root, disk, prefixes, reads);
    lemma_chain_is_read(walk, root, disk, done, prefixes, chain, total);
    if !done.contains(dir_at(root, chain, total)) {
        let k = choose|k: int|
            0 <= k < total && (failed_at(walk, #[trigger] dir_at(root, chain, k), chain[k])
                || passed_over(chain[k], prefixes));
        assert(0 <= k < total);
    }
}

} // verus!
