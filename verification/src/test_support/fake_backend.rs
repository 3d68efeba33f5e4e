//! A remote whose every answer can be set. What is not set works, and finds
//! nothing. Every call is noted.

use vstd::prelude::*;

use crate::domain::RemoteItem;
use crate::path_map::PathMap;
use crate::text;

verus! {

/// What came of an operation, by its words.
pub open spec fn outcome_view(outcome: Result<(), String>) -> Result<(), Seq<char>> {
    match outcome {
        Ok(_) => Ok(()),
        Err(words) => Err(words@),
    }
}

fn copied_outcome(outcome: &Result<(), String>) -> (copy: Result<(), String>)
    ensures
        outcome_view(copy) == outcome_view(*outcome),
{
    match outcome {
        Ok(_) => Ok(()),
        Err(words) => Err(words.clone()),
    }
}

/// What a look at one item gives.
pub struct StatAnswer(pub Result<Option<RemoteItem>, String>);

impl View for StatAnswer {
    type V = Result<Option<RemoteItem<Seq<char>>>, Seq<char>>;

    open spec fn view(&self) -> Result<Option<RemoteItem<Seq<char>>>, Seq<char>> {
        match self.0 {
            Ok(item) => Ok(text::opt_view(item)),
            Err(words) => Err(words@),
        }
    }
}

impl StatAnswer {
    fn copied(&self) -> (copy: StatAnswer)
        ensures
            copy@ == self@,
    {
        match &self.0 {
            Ok(Some(item)) => StatAnswer(Ok(Some(item.clone()))),
            Ok(None) => StatAnswer(Ok(None)),
            Err(words) => StatAnswer(Err(words.clone())),
        }
    }
}

/// What the next looks at one item give.
pub struct StatAnswers(pub Vec<StatAnswer>);

impl View for StatAnswers {
    type V = Seq<Result<Option<RemoteItem<Seq<char>>>, Seq<char>>>;

    open spec fn view(&self) -> Seq<Result<Option<RemoteItem<Seq<char>>>, Seq<char>>> {
        text::views(self.0@)
    }
}

/// What listing a directory gives.
pub struct ListAnswer(pub Result<Vec<RemoteItem>, String>);

impl View for ListAnswer {
    type V = Result<Seq<RemoteItem<Seq<char>>>, Seq<char>>;

    open spec fn view(&self) -> Result<Seq<RemoteItem<Seq<char>>>, Seq<char>> {
        match self.0 {
            Ok(items) => Ok(text::views(items@)),
            Err(words) => Err(words@),
        }
    }
}

impl ListAnswer {
    fn copied(&self) -> (copy: ListAnswer)
        ensures
            copy@ == self@,
    {
        match &self.0 {
            Ok(items) => {
                let total: usize = items.len();
                let mut list: Vec<RemoteItem> = Vec::new();
                let mut i: usize = 0;
                while i < total
                    invariant
                        i <= total,
                        total == items@.len(),
                        text::views(list@) == text::views(items@).take(i as int),
                    decreases total - i,
                {
                    let ghost before = text::views(list@);
                    let item = items[i].clone();
                    list.push(item);
                    assert(text::views(list@) =~= before.push(item@));
                    i = i + 1;
                }
                assert(text::views(list@) =~= text::views(items@));
                ListAnswer(Ok(list))
            },
            Err(words) => ListAnswer(Err(words.clone())),
        }
    }
}

/// A remote for tests.
pub struct FakeBackend {
    pub stat_map: PathMap<StatAnswer>,
    pub stat_sequence: PathMap<StatAnswers>,
    pub list_map: PathMap<ListAnswer>,
    pub copy_to_remote_result: Result<(), String>,
    pub copy_to_local_result: Result<(), String>,
    pub delete_file_result: Result<(), String>,
    pub purge_result: Result<(), String>,
    pub mkdir_result: Result<(), String>,
    pub stat_calls: Vec<String>,
    pub list_calls: Vec<String>,
    pub copy_to_remote_calls: Vec<(String, String)>,
    pub copy_to_local_calls: Vec<(String, String)>,
    pub delete_file_calls: Vec<String>,
    pub purge_calls: Vec<String>,
    pub mkdir_calls: Vec<String>,
}

/// What a [`FakeBackend`] holds.
#[verifier::ext_equal]
pub struct FakeBackendView {
    pub stat_map: Map<Seq<char>, Result<Option<RemoteItem<Seq<char>>>, Seq<char>>>,
    pub stat_sequence: Map<Seq<char>, Seq<Result<Option<RemoteItem<Seq<char>>>, Seq<char>>>>,
    pub list_map: Map<Seq<char>, Result<Seq<RemoteItem<Seq<char>>>, Seq<char>>>,
    pub copy_to_remote_result: Result<(), Seq<char>>,
    pub copy_to_local_result: Result<(), Seq<char>>,
    pub delete_file_result: Result<(), Seq<char>>,
    pub purge_result: Result<(), Seq<char>>,
    pub mkdir_result: Result<(), Seq<char>>,
    pub stat_calls: Seq<Seq<char>>,
    pub list_calls: Seq<Seq<char>>,
    pub copy_to_remote_calls: Seq<(Seq<char>, Seq<char>)>,
    pub copy_to_local_calls: Seq<(Seq<char>, Seq<char>)>,
    pub delete_file_calls: Seq<Seq<char>>,
    pub purge_calls: Seq<Seq<char>>,
    pub mkdir_calls: Seq<Seq<char>>,
}

impl View for FakeBackend {
    type V = FakeBackendView;

    open spec fn view(&self) -> FakeBackendView {
        FakeBackendView {
            stat_map: self.stat_map@,
            stat_sequence: self.stat_sequence@,
            list_map: self.list_map@,
            copy_to_remote_result: outcome_view(self.copy_to_remote_result),
            copy_to_local_result: outcome_view(self.copy_to_local_result),
            delete_file_result: outcome_view(self.delete_file_result),
            purge_result: outcome_view(self.purge_result),
            mkdir_result: outcome_view(self.mkdir_result),
            stat_calls: text::views(self.stat_calls@),
            list_calls: text::views(self.list_calls@),
            copy_to_remote_calls: text::views(self.copy_to_remote_calls@),
            copy_to_local_calls: text::views(self.copy_to_local_calls@),
            delete_file_calls: text::views(self.delete_file_calls@),
            purge_calls: text::views(self.purge_calls@),
            mkdir_calls: text::views(self.mkdir_calls@),
        }
    }
}

impl FakeBackendView {
    /// Nothing set, and nothing called.
    pub open spec fn blank() -> FakeBackendView {
        FakeBackendView {
            stat_map: Map::empty(),
            stat_sequence: Map::empty(),
            list_map: Map::empty(),
            copy_to_remote_result: Ok(()),
            copy_to_local_result: Ok(()),
            delete_file_result: Ok(()),
            purge_result: Ok(()),
            mkdir_result: Ok(()),
            stat_calls: Seq::empty(),
            list_calls: Seq::empty(),
            copy_to_remote_calls: Seq::empty(),
            copy_to_local_calls: Seq::empty(),
            delete_file_calls: Seq::empty(),
            purge_calls: Seq::empty(),
            mkdir_calls: Seq::empty(),
        }
    }

    /// The answers queued for a path are not used up.
    pub open spec fn queued(self, path: Seq<char>) -> bool {
        self.stat_sequence.contains_key(path) && self.stat_sequence[path].len() > 0
    }

    /// The answer to a look at an item: the next that is queued, else the
    /// one that is set, else that there is none.
    pub open spec fn stat_answer(self, path: Seq<char>) -> Result<
        Option<RemoteItem<Seq<char>>>,
        Seq<char>,
    > {
        if self.queued(path) {
            self.stat_sequence[path][0]
        } else if self.stat_map.contains_key(path) {
            self.stat_map[path]
        } else {
            Ok(None)
        }
    }

    /// After a look at an item: the call is noted, and what was queued for
    /// it used up.
    pub open spec fn after_stat(self, path: Seq<char>) -> FakeBackendView {
        FakeBackendView {
            stat_calls: self.stat_calls.push(path),
            stat_sequence: if self.queued(path) {
                self.stat_sequence.insert(path, self.stat_sequence[path].drop_first())
            } else {
                self.stat_sequence
            },
            ..self
        }
    }

    /// The answer to a listing: the one that is set, else that there is
    /// nothing.
    pub open spec fn list_answer(self, path: Seq<char>) -> Result<
        Seq<RemoteItem<Seq<char>>>,
        Seq<char>,
    > {
        if self.list_map.contains_key(path) {
            self.list_map[path]
        } else {
            Ok(Seq::empty())
        }
    }
}

impl Default for FakeBackend {
    fn default() -> (backend: FakeBackend)
        ensures
            backend@ == FakeBackendView::blank(),
    {
        let backend = FakeBackend {
            stat_map: PathMap::new(),
            stat_sequence: PathMap::new(),
            list_map: PathMap::new(),
            copy_to_remote_result: Ok(()),
            copy_to_local_result: Ok(()),
            delete_file_result: Ok(()),
            purge_result: Ok(()),
            mkdir_result: Ok(()),
            stat_calls: Vec::new(),
            list_calls: Vec::new(),
            copy_to_remote_calls: Vec::new(),
            copy_to_local_calls: Vec::new(),
            delete_file_calls: Vec::new(),
            purge_calls: Vec::new(),
            mkdir_calls: Vec::new(),
        };
        backend
    }
}

fn note(calls: &mut Vec<String>, path: &str)
    ensures
        text::views(final(calls)@) == text::views(old(calls)@).push(path@),
{
    calls.push(path.to_owned());
}

fn note_pair(calls: &mut Vec<(String, String)>, local: &str, path: &str)
    ensures
        text::views(final(calls)@) == text::views(old(calls)@).push((local@, path@)),
{
    calls.push((local.to_owned(), path.to_owned()));
}

impl FakeBackend {
    /// Sets what a look at an item gives.
    pub fn set_stat(&mut self, path: &str, resp: Result<Option<RemoteItem>, String>)
        ensures
            final(self)@ == (FakeBackendView {
                stat_map: old(self)@.stat_map.insert(path@, StatAnswer(resp)@),
                ..old(self)@
            }),
    {
        let _ = self.stat_map.insert(path.to_owned(), StatAnswer(resp));
    }

    /// Queues what the next looks at an item give. Each look uses up one;
    /// once all are used up, what is set counts again.
    pub fn set_stat_sequence(&mut self, path: &str, responses: Vec<StatAnswer>)
        ensures
            final(self)@ == (FakeBackendView {
                stat_sequence: old(self)@.stat_sequence.insert(path@, text::views(responses@)),
                ..old(self)@
            }),
    {
        let _ = self.stat_sequence.insert(path.to_owned(), StatAnswers(responses));
    }

    /// Sets what listing a directory gives.
    pub fn set_list(&mut self, path: &str, resp: Result<Vec<RemoteItem>, String>)
        ensures
            final(self)@ == (FakeBackendView {
                list_map: old(self)@.list_map.insert(path@, ListAnswer(resp)@),
                ..old(self)@
            }),
    {
        let _ = self.list_map.insert(path.to_owned(), ListAnswer(resp));
    }

    /// Sets what comes of uploads.
    pub fn set_copy_to_remote(&mut self, resp: Result<(), String>)
        ensures
            final(self)@ == (FakeBackendView {
                copy_to_remote_result: outcome_view(resp),
                ..old(self)@
            }),
    {
        self.copy_to_remote_result = resp;
    }

    /// Sets what comes of downloads.
    pub fn set_copy_to_local(&mut self, resp: Result<(), String>)
        ensures
            final(self)@ == (FakeBackendView {
                copy_to_local_result: outcome_view(resp),
                ..old(self)@
            }),
    {
        self.copy_to_local_result = resp;
    }

    /// Sets what comes of deleting a file.
    pub fn set_delete_file(&mut self, resp: Result<(), String>)
        ensures
            final(self)@ == (FakeBackendView {
                delete_file_result: outcome_view(resp),
                ..old(self)@
            }),
    {
        self.delete_file_result = resp;
    }

    /// Sets what comes of purging a directory.
    pub fn set_purge(&mut self, resp: Result<(), String>)
        ensures
            final(self)@ == (FakeBackendView { purge_result: outcome_view(resp), ..old(self)@ }),
    {
        self.purge_result = resp;
    }

    /// Looks at an item.
    pub fn stat(&mut self, path: &str) -> (answer: Result<Option<RemoteItem>, String>)
        ensures
            StatAnswer(answer)@ == old(self)@.stat_answer(path@),
            final(self)@ == old(self)@.after_stat(path@),
    {
        note(&mut self.stat_calls, path);
        if self.stat_sequence.contains_key(path) {
            let held = self.stat_sequence.insert(path.to_owned(), StatAnswers(Vec::new()));
            match held {
                Some(StatAnswers(mut answers)) => {
                    let ghost all = text::views(answers@);
                    if answers.len() > 0 {
                        let answer = answers.remove(0);
                        assert(text::views(answers@) =~= all.drop_first());
                        let _ = self.stat_sequence.insert(path.to_owned(), StatAnswers(answers));
                        return answer.0;
                    }
                    let _ = self.stat_sequence.insert(path.to_owned(), StatAnswers(answers));
                },
                None => {},
            }
        }
        match self.stat_map.get(path) {
            Some(answer) => answer.copied().0,
            None => Ok(None),
        }
    }

    /// Lists a directory.
    pub fn list(&mut self, path: &str) -> (answer: Result<Vec<RemoteItem>, String>)
        ensures
            ListAnswer(answer)@ == old(self)@.list_answer(path@),
            final(self)@ == (FakeBackendView {
                list_calls: old(self)@.list_calls.push(path@),
                ..old(self)@
            }),
    {
        note(&mut self.list_calls, path);
        match self.list_map.get(path) {
            Some(answer) => answer.copied().0,
            None => {
                let none: Vec<RemoteItem> = Vec::new();
                assert(text::views(none@) =~= Seq::empty());
                Ok(none)
            },
        }
    }

    /// Creates a directory.
    pub fn mkdir(&mut self, path: &str) -> (outcome: Result<(), String>)
        ensures
            outcome_view(outcome) == old(self)@.mkdir_result,
            final(self)@ == (FakeBackendView {
                mkdir_calls: old(self)@.mkdir_calls.push(path@),
                ..old(self)@
            }),
    {
        note(&mut self.mkdir_calls, path);
        copied_outcome(&self.mkdir_result)
    }

    /// Deletes a file.
    pub fn delete_file(&mut self, path: &str) -> (outcome: Result<(), String>)
        ensures
            outcome_view(outcome) == old(self)@.delete_file_result,
            final(self)@ == (FakeBackendView {
                delete_file_calls: old(self)@.delete_file_calls.push(path@),
                ..old(self)@
            }),
    {
        note(&mut self.delete_file_calls, path);
        copied_outcome(&self.delete_file_result)
    }

    /// Purges a directory.
    pub fn purge(&mut self, path: &str) -> (outcome: Result<(), String>)
        ensures
            outcome_view(outcome) == old(self)@.purge_result,
            final(self)@ == (FakeBackendView {
                purge_calls: old(self)@.purge_calls.push(path@),
                ..old(self)@
            }),
    {
        note(&mut self.purge_calls, path);
        copied_outcome(&self.purge_result)
    }

    /// Uploads a file.
    pub fn copy_to_remote(&mut self, local: &str, path: &str) -> (outcome: Result<(), String>)
        ensures
            outcome_view(outcome) == old(self)@.copy_to_remote_result,
            final(self)@ == (FakeBackendView {
                copy_to_remote_calls: old(self)@.copy_to_remote_calls.push((local@, path@)),
                ..old(self)@
            }),
    {
        note_pair(&mut self.copy_to_remote_calls, local, path);
        copied_outcome(&self.copy_to_remote_result)
    }

    /// Downloads a file.
    pub fn copy_to_local(&mut self, local: &str, path: &str) -> (outcome: Result<(), String>)
        ensures
            outcome_view(outcome) == old(self)@.copy_to_local_result,
            final(self)@ == (FakeBackendView {
                copy_to_local_calls: old(self)@.copy_to_local_calls.push((local@, path@)),
                ..old(self)@
            }),
    {
        note_pair(&mut self.copy_to_local_calls, local, path);
        copied_outcome(&self.copy_to_local_result)
    }
}

/// Queued answers come out in their order, one for each look; the other
/// answers are left as they are.
pub proof fn law_queued_answers_come_in_order(backend: FakeBackendView, path: Seq<char>)
    requires
        backend.queued(path),
    ensures
        backend.stat_answer(path) == backend.stat_sequence[path][0],
        backend.after_stat(path).stat_sequence[path] == backend.stat_sequence[path].drop_first(),
        backend.after_stat(path).stat_map == backend.stat_map,
{
}

/// Where nothing is queued for a path the answer that is set for it counts,
/// and without one there is nothing at the path; each look is noted.
pub proof fn law_set_answers_come_unless_queued(backend: FakeBackendView, path: Seq<char>)
    requires
        !backend.queued(path),
    ensures
        backend.stat_map.contains_key(path) ==> backend.stat_answer(path) == backend.stat_map[path],
        !backend.stat_map.contains_key(path) ==> backend.stat_answer(path) == Ok::<
            Option<RemoteItem<Seq<char>>>,
            Seq<char>,
        >(None),
        backend.after_stat(path).stat_sequence == backend.stat_sequence,
        backend.after_stat(path).stat_calls == backend.stat_calls.push(path),
        backend.list_map.contains_key(path) ==> backend.list_answer(path) == backend.list_map[path],
        !backend.list_map.contains_key(path) ==> backend.list_answer(path) == Ok::<
            Seq<RemoteItem<Seq<char>>>,
            Seq<char>,
        >(Seq::empty()),
{
}

} // verus!
