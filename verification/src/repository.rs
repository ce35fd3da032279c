//! The store of download tasks.
//!
//! The repository holds at most one task per id and keeps the tasks in the
//! order in which their ids were first saved. Its value is the sequence of
//! the values of its tasks.

use vstd::prelude::*;
use crate::error::RepositoryError;
use crate::status::DownloadStatus;
use crate::task::{DownloadTask, TaskView};

verus! {

/// The first index at or after `i` of a task with the given id, or the
/// number of tasks if there is none.
pub open spec fn position_from(tasks: Seq<TaskView>, id: Seq<char>, i: int) -> int
    decreases tasks.len() - i,
{
    if i >= tasks.len() {
        tasks.len() as int
    } else if tasks[i].id == id {
        i
    } else {
        position_from(tasks, id, i + 1)
    }
}

/// The index of the first task with the given id, or the number of tasks if
/// there is none.
pub open spec fn position(tasks: Seq<TaskView>, id: Seq<char>) -> int {
    position_from(tasks, id, 0)
}

/// Whether a task with the given id is among `tasks`.
pub open spec fn has_id(tasks: Seq<TaskView>, id: Seq<char>) -> bool {
    position(tasks, id) < tasks.len()
}

/// Whether no two of the tasks share an id.
pub open spec fn distinct_ids(tasks: Seq<TaskView>) -> bool {
    forall|i: int, j: int|
        0 <= i < j < tasks.len() ==> (#[trigger] tasks[i]).id != (#[trigger] tasks[j]).id
}

/// Whether each of the tasks is valid.
pub open spec fn all_valid(tasks: Seq<TaskView>) -> bool {
    forall|i: int| 0 <= i < tasks.len() ==> (#[trigger] tasks[i]).valid()
}

/// The ids of the tasks, in their order.
pub open spec fn task_ids(tasks: Seq<TaskView>) -> Seq<Seq<char>> {
    tasks.map_values(|t: TaskView| t.id)
}

/// The task with the given id, if there is one.
pub open spec fn found(tasks: Seq<TaskView>, id: Seq<char>) -> Option<TaskView> {
    if has_id(tasks, id) {
        Some(tasks[position(tasks, id)])
    } else {
        None
    }
}

/// The tasks after `task` was saved: it takes the place of the task with
/// its id, or comes last if there was none.
pub open spec fn saved(tasks: Seq<TaskView>, task: TaskView) -> Seq<TaskView> {
    if has_id(tasks, task.id) {
        tasks.update(position(tasks, task.id), task)
    } else {
        tasks.push(task)
    }
}

/// The tasks after the one with the given id was deleted.
pub open spec fn deleted(tasks: Seq<TaskView>, id: Seq<char>) -> Seq<TaskView> {
    if has_id(tasks, id) {
        tasks.remove(position(tasks, id))
    } else {
        tasks
    }
}

/// The values of a sequence of tasks.
pub open spec fn views(tasks: Seq<DownloadTask>) -> Seq<TaskView> {
    tasks.map_values(|t: DownloadTask| t@)
}

/// `position_from` stays within `i..=len` and names the first task with the id.
pub proof fn lemma_position_from(tasks: Seq<TaskView>, id: Seq<char>, i: int)
    requires
        0 <= i <= tasks.len(),
    ensures
        i <= position_from(tasks, id, i) <= tasks.len(),
        position_from(tasks, id, i) < tasks.len() ==> tasks[position_from(tasks, id, i)].id == id,
        forall|k: int| i <= k < position_from(tasks, id, i) ==> (#[trigger] tasks[k]).id != id,
    decreases tasks.len() - i,
{
    if i < tasks.len() && tasks[i].id != id {
        lemma_position_from(tasks, id, i + 1);
    }
}

/// Among tasks with distinct ids, the task at index `k` is the one that its
/// id is found at.
pub proof fn lemma_position_of_member(tasks: Seq<TaskView>, k: int)
    requires
        distinct_ids(tasks),
        0 <= k < tasks.len(),
    ensures
        position(tasks, tasks[k].id) == k,
        has_id(tasks, tasks[k].id),
        found(tasks, tasks[k].id) == Some(tasks[k]),
{
    lemma_position_from(tasks, tasks[k].id, 0);
}

/// A task is found exactly if some task has the id.
pub proof fn lemma_has_id(tasks: Seq<TaskView>, id: Seq<char>)
    ensures
        has_id(tasks, id) <==> exists|k: int| 0 <= k < tasks.len() && (#[trigger] tasks[k]).id == id,
        has_id(tasks, id) ==> 0 <= position(tasks, id) < tasks.len() && tasks[position(tasks, id)].id
            == id,
{
    lemma_position_from(tasks, id, 0);
}

/// A task with an id is stored exactly if the id is among the ids of the
/// stored tasks.
pub proof fn lemma_task_ids(tasks: Seq<TaskView>, id: Seq<char>)
    ensures
        has_id(tasks, id) <==> task_ids(tasks).contains(id),
        task_ids(tasks).len() == tasks.len(),
{
    lemma_has_id(tasks, id);
    if has_id(tasks, id) {
        let p = position(tasks, id);
        assert(task_ids(tasks)[p] == id);
    }
    if task_ids(tasks).contains(id) {
        let k = choose|k: int| 0 <= k < task_ids(tasks).len() && task_ids(tasks)[k] == id;
        assert(tasks[k].id == id);
    }
}

/// Saving keeps ids distinct and tasks valid, and afterwards the saved task
/// is found under its id while every other id is found as before.
pub proof fn lemma_saved(tasks: Seq<TaskView>, task: TaskView, other: Seq<char>)
    requires
        distinct_ids(tasks),
    ensures
        distinct_ids(saved(tasks, task)),
        all_valid(tasks) && task.valid() ==> all_valid(saved(tasks, task)),
        found(saved(tasks, task), task.id) == Some(task),
        other != task.id ==> found(saved(tasks, task), other) == found(tasks, other),
        saved(tasks, task).len() == if has_id(tasks, task.id) {
            tasks.len()
        } else {
            tasks.len() + 1
        },
{
    let after = saved(tasks, task);
    lemma_position_from(tasks, task.id, 0);
    let p = position(tasks, task.id);
    assert forall|i: int, j: int| 0 <= i < j < after.len() implies (#[trigger] after[i]).id != (
    #[trigger] after[j]).id by {
        if p < tasks.len() {
            assert(after[i].id == tasks[i].id);
            assert(after[j].id == tasks[j].id);
        } else {
            if j < tasks.len() {
                assert(after[i] == tasks[i]);
                assert(after[j] == tasks[j]);
            } else {
                assert(after[i] == tasks[i]);
            }
        }
    }
    if p < tasks.len() {
        assert(after[p] == task);
        lemma_position_of_member(after, p);
    } else {
        assert(after[tasks.len() as int] == task);
        lemma_position_of_member(after, tasks.len() as int);
    }
    if other != task.id {
        lemma_position_from(tasks, other, 0);
        lemma_position_from(after, other, 0);
        let q = position(tasks, other);
        if q < tasks.len() {
            assert(after[q] == tasks[q]);
            lemma_position_of_member(after, q);
        } else {
            let r = position(after, other);
            if r < after.len() {
                if r < tasks.len() {
                    assert(after[r].id == tasks[r].id);
                }
            }
        }
    }
}

/// Deleting keeps ids distinct and tasks valid, and afterwards the id is
/// not found while every other id is found as before.
pub proof fn lemma_deleted(tasks: Seq<TaskView>, id: Seq<char>, other: Seq<char>)
    requires
        distinct_ids(tasks),
    ensures
        distinct_ids(deleted(tasks, id)),
        all_valid(tasks) ==> all_valid(deleted(tasks, id)),
        !has_id(deleted(tasks, id), id),
        other != id ==> found(deleted(tasks, id), other) == found(tasks, other),
        deleted(tasks, id).len() == if has_id(tasks, id) {
            tasks.len() - 1
        } else {
            tasks.len() as int
        },
{
    let after = deleted(tasks, id);
    lemma_position_from(tasks, id, 0);
    let p = position(tasks, id);
    if p < tasks.len() {
        assert forall|k: int| 0 <= k < after.len() implies #[trigger] after[k] == tasks[if k < p {
            k
        } else {
            k + 1
        }] by {}
        assert forall|i: int, j: int| 0 <= i < j < after.len() implies (#[trigger] after[i]).id != (
        #[trigger] after[j]).id by {
            let i0 = if i < p { i } else { i + 1 };
            let j0 = if j < p { j } else { j + 1 };
            assert(after[i] == tasks[i0]);
            assert(after[j] == tasks[j0]);
        }
        assert forall|k: int| 0 <= k < after.len() implies (#[trigger] after[k]).id != id by {
            let k0 = if k < p { k } else { k + 1 };
            assert(after[k] == tasks[k0]);
        }
        lemma_has_id(after, id);
        if all_valid(tasks) {
            assert forall|k: int| 0 <= k < after.len() implies (#[trigger] after[k]).valid() by {
                let k0 = if k < p { k } else { k + 1 };
                assert(after[k] == tasks[k0]);
            }
        }
        if other != id {
            lemma_position_from(tasks, other, 0);
            lemma_position_from(after, other, 0);
            let q = position(tasks, other);
            if q < tasks.len() {
                let q1 = if q < p { q } else { q - 1 };
                assert(after[q1] == tasks[q]);
                lemma_position_of_member(after, q1);
            } else {
                let r = position(after, other);
                if r < after.len() {
                    let r0 = if r < p { r } else { r + 1 };
                    assert(after[r] == tasks[r0]);
                }
            }
        }
    }
}

/// The tasks that have the given status.
pub open spec fn with_status(status: DownloadStatus) -> spec_fn(TaskView) -> bool {
    |t: TaskView| t.status == status
}

/// The tasks that are not completed.
pub open spec fn unfinished() -> spec_fn(TaskView) -> bool {
    |t: TaskView| !(t.status is Completed)
}

/// How many of the tasks have the given status.
pub open spec fn count_with_status(tasks: Seq<TaskView>, status: DownloadStatus) -> nat {
    tasks.filter(with_status(status)).len()
}

/// The tasks after each of the given ids was deleted, one after the other.
pub open spec fn deleted_all(tasks: Seq<TaskView>, ids: Seq<Seq<char>>) -> Seq<TaskView>
    decreases ids.len(),
{
    if ids.len() == 0 {
        tasks
    } else {
        deleted(deleted_all(tasks, ids.drop_last()), ids.last())
    }
}

/// Leaving tasks out keeps the ids of the others distinct and the others
/// valid.
pub proof fn lemma_filter_keeps_order(tasks: Seq<TaskView>, pred: spec_fn(TaskView) -> bool)
    requires
        distinct_ids(tasks),
    ensures
        distinct_ids(tasks.filter(pred)),
        all_valid(tasks) ==> all_valid(tasks.filter(pred)),
        forall|id: Seq<char>| has_id(tasks.filter(pred), id) ==> has_id(tasks, id),
    decreases tasks.len(),
{
    reveal(Seq::filter);
    let kept = tasks.filter(pred);
    if tasks.len() > 0 {
        let front = tasks.drop_last();
        let last = tasks.last();
        assert forall|i: int, j: int| 0 <= i < j < front.len() implies (#[trigger] front[i]).id != (
        #[trigger] front[j]).id by {
            assert(front[i] == tasks[i]);
            assert(front[j] == tasks[j]);
        }
        if all_valid(tasks) {
            assert forall|i: int| 0 <= i < front.len() implies (#[trigger] front[i]).valid() by {
                assert(front[i] == tasks[i]);
            }
        }
        lemma_filter_keeps_order(front, pred);
        let kept_front = front.filter(pred);
        assert forall|id: Seq<char>| has_id(kept, id) implies has_id(tasks, id) by {
            lemma_has_id(kept, id);
            lemma_has_id(tasks, id);
            lemma_has_id(kept_front, id);
            lemma_has_id(front, id);
            let k = choose|k: int| 0 <= k < kept.len() && (#[trigger] kept[k]).id == id;
            if k < kept_front.len() {
                assert(kept[k] == kept_front[k]);
                assert(has_id(kept_front, id));
                let m = choose|m: int| 0 <= m < front.len() && (#[trigger] front[m]).id == id;
                assert(tasks[m] == front[m]);
            } else {
                assert(kept[k] == last);
                assert(tasks[tasks.len() - 1] == last);
            }
        }
        if pred(last) {
            assert forall|i: int, j: int| 0 <= i < j < kept.len() implies (#[trigger] kept[i]).id
                != (#[trigger] kept[j]).id by {
                if j < kept_front.len() {
                    assert(kept[i] == kept_front[i]);
                    assert(kept[j] == kept_front[j]);
                } else {
                    assert(kept[i] == kept_front[i]);
                    assert(kept[j] == last);
                    if kept[i].id == last.id {
                        lemma_has_id(kept_front, last.id);
                        assert(has_id(front, last.id));
                        lemma_has_id(front, last.id);
                        let m = choose|m: int|
                            0 <= m < front.len() && (#[trigger] front[m]).id == last.id;
                        assert(tasks[m] == front[m]);
                        assert(tasks[tasks.len() - 1] == last);
                    }
                }
            }
            if all_valid(tasks) {
                assert forall|i: int| 0 <= i < kept.len() implies (#[trigger] kept[i]).valid() by {
                    if i < kept_front.len() {
                        assert(kept[i] == kept_front[i]);
                    } else {
                        assert(kept[i] == tasks[tasks.len() - 1]);
                    }
                }
            }
        }
    }
}

/// Deleting several ids keeps the ids of the others distinct and the others
/// valid, and never adds a task.
pub proof fn lemma_deleted_all(tasks: Seq<TaskView>, ids: Seq<Seq<char>>)
    requires
        distinct_ids(tasks),
    ensures
        distinct_ids(deleted_all(tasks, ids)),
        all_valid(tasks) ==> all_valid(deleted_all(tasks, ids)),
        deleted_all(tasks, ids).len() <= tasks.len(),
    decreases ids.len(),
{
    if ids.len() > 0 {
        lemma_deleted_all(tasks, ids.drop_last());
        lemma_deleted(deleted_all(tasks, ids.drop_last()), ids.last(), ids.last());
    }
}

/// Two tasks with different ids, saved one after the other in either
/// order, are both found afterwards, each under its id and as it was
/// saved; no id occurs twice; and under every id the same is found whichever
/// of the two was saved first.
pub proof fn lemma_two_saves(
    tasks: Seq<TaskView>,
    first: TaskView,
    second: TaskView,
    other: Seq<char>,
)
    requires
        distinct_ids(tasks),
        first.id != second.id,
    ensures
        found(saved(saved(tasks, first), second), first.id) == Some(first),
        found(saved(saved(tasks, first), second), second.id) == Some(second),
        distinct_ids(saved(saved(tasks, first), second)),
        found(saved(saved(tasks, second), first), first.id) == Some(first),
        found(saved(saved(tasks, second), first), second.id) == Some(second),
        distinct_ids(saved(saved(tasks, second), first)),
        found(saved(saved(tasks, first), second), other) == found(
            saved(saved(tasks, second), first),
            other,
        ),
        saved(saved(tasks, first), second).len() == saved(saved(tasks, second), first).len(),
{
    lemma_saved(tasks, first, second.id);
    lemma_saved(tasks, first, other);
    lemma_saved(saved(tasks, first), second, first.id);
    lemma_saved(saved(tasks, first), second, other);
    lemma_saved(tasks, second, first.id);
    lemma_saved(tasks, second, other);
    lemma_saved(saved(tasks, second), first, second.id);
    lemma_saved(saved(tasks, second), first, other);
}

/// An update under an id that is not stored is refused and changes
/// nothing; under a stored id it does what saving does.
pub open spec fn updated(tasks: Seq<TaskView>, task: TaskView) -> (
    Result<(), RepositoryError>,
    Seq<TaskView>,
) {
    if has_id(tasks, task.id) {
        (Ok(()), saved(tasks, task))
    } else {
        (Err(RepositoryError::NotFound), tasks)
    }
}

/// A store of download tasks, whatever it keeps them in. Its value is the
/// sequence of its tasks; an id is looked up from the front.
pub trait DownloadTaskRepository {
    /// The stored tasks.
    spec fn tasks(&self) -> Seq<TaskView>;

    /// Stores `task` under its id, in place of a task stored under that id
    /// before.
    fn save(&mut self, task: &DownloadTask)
        ensures
            final(self).tasks() == saved(old(self).tasks(), task@),
    ;

    /// A copy of the task with the given id.
    fn find_by_id(&self, task_id: &str) -> (r: Option<DownloadTask>)
        ensures
            r is Some <==> has_id(self.tasks(), task_id@),
            r matches Some(t) ==> found(self.tasks(), task_id@) == Some(t@),
    ;

    /// Copies of all stored tasks.
    fn find_all(&self) -> (r: Vec<DownloadTask>)
        ensures
            views(r@) == self.tasks(),
    ;

    /// Replaces the stored task that has the id of `task`; without such a
    /// task the result is `NotFound` and nothing changes.
    fn update(&mut self, task: &DownloadTask) -> (r: Result<(), RepositoryError>)
        ensures
            (r, final(self).tasks()) == updated(old(self).tasks(), task@),
    ;

    /// Removes the task with the given id; without such a task the result
    /// is `NotFound` and nothing changes.
    fn delete(&mut self, task_id: &str) -> (r: Result<(), RepositoryError>)
        ensures
            r is Ok <==> has_id(old(self).tasks(), task_id@),
            r is Err ==> r == Err::<(), RepositoryError>(RepositoryError::NotFound),
            final(self).tasks() == deleted(old(self).tasks(), task_id@),
    ;
}

/// The sole authoritative store of task records, kept in memory.
pub struct InMemoryDownloadTaskRepository {
    tasks: Vec<DownloadTask>,
}

impl View for InMemoryDownloadTaskRepository {
    type V = Seq<TaskView>;

    closed spec fn view(&self) -> Seq<TaskView> {
        views(self.tasks@)
    }
}

impl InMemoryDownloadTaskRepository {
    /// No two stored tasks share an id, and every stored task is valid.
    #[verifier::type_invariant]
    pub open spec fn well_formed(&self) -> bool {
        distinct_ids(self@) && all_valid(self@)
    }

    /// An empty repository.
    pub fn new() -> (r: Self)
        ensures
            r@ == Seq::<TaskView>::empty(),
    {
        let r = InMemoryDownloadTaskRepository { tasks: Vec::new() };
        assert(views(r.tasks@) =~= Seq::<TaskView>::empty());
        r
    }

    /// The number of stored tasks. No two of them share an id.
    pub fn len(&self) -> (r: usize)
        ensures
            r == self@.len(),
            distinct_ids(self@),
            all_valid(self@),
    {
        proof {
            use_type_invariant(self);
        }
        self.tasks.len()
    }

    fn index_of(&self, id: &String) -> (r: usize)
        ensures
            r == position(self@, id@),
            r <= self@.len(),
            self@.len() == self.tasks@.len(),
    {
        let mut i: usize = 0;
        while i < self.tasks.len()
            invariant
                i <= self.tasks@.len(),
                self@ == views(self.tasks@),
                position(self@, id@) == position_from(self@, id@, i as int),
            decreases self.tasks@.len() - i,
        {
            if *self.tasks[i].id() == *id {
                return i;
            }
            i += 1;
        }
        i
    }

    /// Tells whether a task with the given id is stored.
    pub fn contains(&self, task_id: &str) -> (r: bool)
        ensures
            r == has_id(self@, task_id@),
    {
        let key = task_id.to_string();
        self.index_of(&key) < self.tasks.len()
    }

    /// Stores `task` under its id, in place of a task stored under that id
    /// before.
    pub fn save(&mut self, task: &DownloadTask)
        ensures
            final(self)@ == saved(old(self)@, task@),
            found(final(self)@, task@.id) == Some(task@),
            distinct_ids(final(self)@),
            all_valid(final(self)@),
    {
        proof {
            use_type_invariant(&*self);
            use_type_invariant(task);
            lemma_saved(self@, task@, task@.id);
        }
        let copy = task.clone();
        let ghost before = self@;
        let i = self.index_of(task.id());
        let mut tasks: Vec<DownloadTask> = Vec::new();
        assert(views(tasks@) =~= Seq::<TaskView>::empty());
        std::mem::swap(&mut self.tasks, &mut tasks);
        if i < tasks.len() {
            tasks.set(i, copy);
            assert(views(tasks@) =~= before.update(i as int, task@));
        } else {
            tasks.push(copy);
            assert(views(tasks@) =~= before.push(task@));
        }
        std::mem::swap(&mut self.tasks, &mut tasks);
    }

    /// A copy of the task with the given id.
    pub fn find_by_id(&self, task_id: &str) -> (r: Option<DownloadTask>)
        ensures
            r is Some <==> has_id(self@, task_id@),
            r matches Some(t) ==> found(self@, task_id@) == Some(t@) && t@.id == task_id@ && t@.valid(),
    {
        proof {
            use_type_invariant(self);
            lemma_has_id(self@, task_id@);
        }
        let key = task_id.to_string();
        let i = self.index_of(&key);
        if i < self.tasks.len() {
            Some(self.tasks[i].clone())
        } else {
            None
        }
    }

    /// Copies of all stored tasks, each id once, in the order in which the
    /// ids were first saved.
    pub fn find_all(&self) -> (r: Vec<DownloadTask>)
        ensures
            views(r@) == self@,
            distinct_ids(views(r@)),
            all_valid(views(r@)),
    {
        proof {
            use_type_invariant(self);
        }
        let mut all: Vec<DownloadTask> = Vec::new();
        let mut i: usize = 0;
        while i < self.tasks.len()
            invariant
                i <= self.tasks@.len(),
                self@ == views(self.tasks@),
                views(all@) == self@.subrange(0, i as int),
            decreases self.tasks@.len() - i,
        {
            let ghost before = all@;
            all.push(self.tasks[i].clone());
            assert(views(all@) =~= views(before).push(self.tasks@[i as int]@));
            assert(views(all@) =~= self@.subrange(0, i + 1));
            i += 1;
        }
        assert(self@.subrange(0, i as int) =~= self@);
        all
    }

    /// Replaces the stored task that has the id of `task`. Where no task is
    /// stored under that id, nothing changes.
    pub fn update(&mut self, task: &DownloadTask) -> (r: Result<(), RepositoryError>)
        ensures
            r is Ok <==> has_id(old(self)@, task@.id),
            r is Ok ==> final(self)@ == old(self)@.update(position(old(self)@, task@.id), task@),
            r is Ok ==> final(self)@ == saved(old(self)@, task@),
            r is Err ==> r == Err::<(), RepositoryError>(RepositoryError::NotFound) && final(self)@
                == old(self)@,
            (r, final(self)@) == updated(old(self)@, task@),
            distinct_ids(final(self)@),
            all_valid(final(self)@),
    {
        proof {
            use_type_invariant(&*self);
            use_type_invariant(task);
            lemma_saved(self@, task@, task@.id);
        }
        let ghost before = self@;
        let i = self.index_of(task.id());
        if i < self.tasks.len() {
            let copy = task.clone();
            let mut tasks: Vec<DownloadTask> = Vec::new();
            assert(views(tasks@) =~= Seq::<TaskView>::empty());
            std::mem::swap(&mut self.tasks, &mut tasks);
            tasks.set(i, copy);
            assert(views(tasks@) =~= before.update(i as int, task@));
            std::mem::swap(&mut self.tasks, &mut tasks);
            Ok(())
        } else {
            Err(RepositoryError::NotFound)
        }
    }

    /// Removes the task with the given id for good. Where no task is stored
    /// under that id, nothing changes.
    pub fn delete(&mut self, task_id: &str) -> (r: Result<(), RepositoryError>)
        ensures
            r is Ok <==> has_id(old(self)@, task_id@),
            final(self)@ == deleted(old(self)@, task_id@),
            r is Err ==> r == Err::<(), RepositoryError>(RepositoryError::NotFound) && final(self)@
                == old(self)@,
            !has_id(final(self)@, task_id@),
            distinct_ids(final(self)@),
            all_valid(final(self)@),
    {
        proof {
            use_type_invariant(&*self);
            lemma_deleted(self@, task_id@, task_id@);
        }
        let ghost before = self@;
        let key = task_id.to_string();
        let i = self.index_of(&key);
        if i < self.tasks.len() {
            let mut tasks: Vec<DownloadTask> = Vec::new();
            assert(views(tasks@) =~= Seq::<TaskView>::empty());
            std::mem::swap(&mut self.tasks, &mut tasks);
            tasks.remove(i);
            assert(views(tasks@) =~= before.remove(i as int));
            std::mem::swap(&mut self.tasks, &mut tasks);
            Ok(())
        } else {
            Err(RepositoryError::NotFound)
        }
    }

    /// How many stored tasks have the given status.
    pub fn count_status(&self, status: DownloadStatus) -> (r: usize)
        ensures
            r == count_with_status(self@, status),
    {
        let ghost pred = with_status(status);
        let mut count: usize = 0;
        let mut i: usize = 0;
        proof {
            reveal(Seq::filter);
            assert(self@.subrange(0, 0).filter(pred).len() == 0);
        }
        while i < self.tasks.len()
            invariant
                i <= self.tasks@.len(),
                self@ == views(self.tasks@),
                pred == with_status(status),
                count <= i,
                count == self@.subrange(0, i as int).filter(pred).len(),
            decreases self.tasks@.len() - i,
        {
            proof {
                assert(self@.subrange(0, i + 1) =~= self@.subrange(0, i as int).push(self@[i as int]));
                self@.subrange(0, i as int).lemma_filter_push(self@[i as int], pred);
            }
            if self.tasks[i].status() == status {
                count += 1;
            }
            i += 1;
        }
        assert(self@.subrange(0, i as int) =~= self@);
        count
    }

    /// Removes the completed tasks for good and keeps the others in their
    /// order.
    pub fn remove_completed(&mut self)
        ensures
            final(self)@ == old(self)@.filter(unfinished()),
            distinct_ids(final(self)@),
            all_valid(final(self)@),
    {
        proof {
            use_type_invariant(&*self);
        }
        let ghost before = self@;
        let ghost pred = unfinished();
        let mut kept: Vec<DownloadTask> = Vec::new();
        let mut i: usize = 0;
        proof {
            reveal(Seq::filter);
            assert(views(kept@) =~= before.subrange(0, 0).filter(pred));
        }
        while i < self.tasks.len()
            invariant
                i <= self.tasks@.len(),
                before == views(self.tasks@),
                pred == unfinished(),
                views(kept@) == before.subrange(0, i as int).filter(pred),
            decreases self.tasks@.len() - i,
        {
            proof {
                assert(before.subrange(0, i + 1) =~= before.subrange(0, i as int).push(
                    before[i as int],
                ));
                before.subrange(0, i as int).lemma_filter_push(before[i as int], pred);
            }
            match self.tasks[i].status() {
                DownloadStatus::Completed => {},
                _ => {
                    let ghost so_far = kept@;
                    kept.push(self.tasks[i].clone());
                    assert(views(kept@) =~= views(so_far).push(before[i as int]));
                },
            }
            i += 1;
        }
        proof {
            assert(before.subrange(0, i as int) =~= before);
            lemma_filter_keeps_order(before, pred);
        }
        std::mem::swap(&mut self.tasks, &mut kept);
    }
}

impl DownloadTaskRepository for InMemoryDownloadTaskRepository {
    open spec fn tasks(&self) -> Seq<TaskView> {
        self@
    }

    fn save(&mut self, task: &DownloadTask) {
        InMemoryDownloadTaskRepository::save(self, task)
    }

    fn find_by_id(&self, task_id: &str) -> (r: Option<DownloadTask>) {
        InMemoryDownloadTaskRepository::find_by_id(self, task_id)
    }

    fn find_all(&self) -> (r: Vec<DownloadTask>) {
        InMemoryDownloadTaskRepository::find_all(self)
    }

    fn update(&mut self, task: &DownloadTask) -> (r: Result<(), RepositoryError>) {
        InMemoryDownloadTaskRepository::update(self, task)
    }

    fn delete(&mut self, task_id: &str) -> (r: Result<(), RepositoryError>) {
        InMemoryDownloadTaskRepository::delete(self, task_id)
    }
}

/// A reader of the progress of tasks, for those who may look at tasks but
/// not change them.
pub struct ProgressTracker<R: DownloadTaskRepository> {
    task_repository: R,
}

impl<R: DownloadTaskRepository> ProgressTracker<R> {
    /// The tasks that the tracker can see.
    pub closed spec fn tasks(&self) -> Seq<TaskView> {
        self.task_repository.tasks()
    }

    /// A tracker that reads from the given repository.
    pub fn new(task_repository: R) -> (r: Self)
        ensures
            r.tasks() == task_repository.tasks(),
    {
        ProgressTracker { task_repository }
    }

    /// A copy of the task with the given id, as it stands now.
    pub fn get_progress(&self, task_id: &str) -> (r: Option<DownloadTask>)
        ensures
            r is Some <==> has_id(self.tasks(), task_id@),
            r matches Some(t) ==> found(self.tasks(), task_id@) == Some(t@),
    {
        self.task_repository.find_by_id(task_id)
    }
}

} // verus!
