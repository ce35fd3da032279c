//! Batches: one resource fetched in several formats, each by a task of its
//! own. The status and the progress of a batch are never stored; they are
//! worked out from its tasks whenever they are asked for.

use vstd::prelude::*;
use vstd::string::*;
use crate::error::RepositoryError;
use crate::platform::{copy_strings, texts};
use crate::status::DownloadStatus;
use crate::task::{DownloadTask, TaskView, FULL_PROGRESS};
use crate::ids::{first_open, group_prefix, has_prefix};
use crate::repository::{task_ids, views};
use crate::text::{append_decimal, decimal_text};

verus! {

/// The mathematical value of a batch.
pub struct BatchView {
    pub id: Seq<char>,
    pub url: Seq<char>,
    pub format_ids: Seq<Seq<char>>,
    pub created_at: int,
}

/// A group of tasks that share one address and differ in the format.
#[derive(Debug)]
pub struct BatchDownloadTask {
    pub id: String,
    pub url: String,
    pub format_ids: Vec<String>,
    /// Seconds since the Unix epoch.
    pub created_at: i64,
}

impl View for BatchDownloadTask {
    type V = BatchView;

    open spec fn view(&self) -> BatchView {
        BatchView {
            id: self.id@,
            url: self.url@,
            format_ids: texts(self.format_ids@),
            created_at: self.created_at as int,
        }
    }
}

impl Clone for BatchDownloadTask {
    fn clone(&self) -> (r: Self)
        ensures
            r@ == self@,
    {
        BatchDownloadTask {
            id: self.id.clone(),
            url: self.url.clone(),
            format_ids: copy_strings(&self.format_ids),
            created_at: self.created_at,
        }
    }
}

/// The id of the batch with the given number, a time in milliseconds since
/// the Unix epoch.
pub open spec fn batch_id_text(now_millis: nat) -> Seq<char> {
    "batch_"@ + decimal_text(now_millis)
}

/// The id of the task that fetches one format of a batch.
pub open spec fn child_id_text(batch_id: Seq<char>, format_id: Seq<char>) -> Seq<char> {
    "task_"@ + batch_id + "_"@ + format_id
}

/// What the id of every batch begins with.
pub open spec fn batch_prefix() -> Seq<char> {
    "batch_"@
}

/// What the id of every task of a batch begins with, up to the number of
/// the batch.
pub open spec fn child_lead() -> Seq<char> {
    "task_"@ + "batch_"@
}

/// The ids of the batches, in their order.
pub open spec fn batch_ids(batches: Seq<BatchView>) -> Seq<Seq<char>> {
    batches.map_values(|b: BatchView| b.id)
}

/// The number of the batch that is created at the given time while
/// `batches` and `tasks` are stored: the first millisecond from that time
/// onwards whose batch id is not stored and to whose batch no stored task
/// belongs.
pub open spec fn free_batch_time(batches: Seq<BatchView>, tasks: Seq<TaskView>, now_millis: nat) -> nat {
    first_open(batch_ids(batches), batch_prefix(), task_ids(tasks), child_lead(), now_millis)
}

/// The formats without those that were named before, in their order.
pub open spec fn distinct(formats: Seq<Seq<char>>) -> Seq<Seq<char>>
    decreases formats.len(),
{
    if formats.len() == 0 {
        formats
    } else {
        let front = distinct(formats.drop_last());
        if front.contains(formats.last()) {
            front
        } else {
            front.push(formats.last())
        }
    }
}

/// The distinct formats hold each format that was named, once, and no
/// other.
pub proof fn lemma_distinct(formats: Seq<Seq<char>>)
    ensures
        distinct(formats).no_duplicates(),
        forall|f: Seq<char>| #[trigger] distinct(formats).contains(f) ==> formats.contains(f),
        forall|f: Seq<char>| #[trigger] formats.contains(f) ==> distinct(formats).contains(f),
        distinct(formats).len() <= formats.len(),
    decreases formats.len(),
{
    if formats.len() > 0 {
        let front = formats.drop_last();
        let last = formats.last();
        lemma_distinct(front);
        let kept = distinct(formats);
        assert forall|f: Seq<char>| #[trigger] kept.contains(f) implies formats.contains(f) by {
            let k = choose|k: int| 0 <= k < kept.len() && kept[k] == f;
            if k < distinct(front).len() {
                assert(distinct(front)[k] == f);
                assert(distinct(front).contains(f));
                let j = choose|j: int| 0 <= j < front.len() && front[j] == f;
                assert(formats[j] == f);
            } else {
                assert(formats[formats.len() - 1] == f);
            }
        }
        assert forall|f: Seq<char>| #[trigger] formats.contains(f) implies kept.contains(f) by {
            let j = choose|j: int| 0 <= j < formats.len() && formats[j] == f;
            if j < front.len() {
                assert(front[j] == f);
                assert(front.contains(f));
                let k = choose|k: int| 0 <= k < distinct(front).len() && distinct(front)[k] == f;
                assert(kept[k] == f);
            } else if !distinct(front).contains(last) {
                assert(kept[kept.len() - 1] == f);
            }
        }
        if !distinct(front).contains(last) {
            assert forall|i: int, j: int|
                0 <= i < kept.len() && 0 <= j < kept.len() && i != j implies kept[i] != kept[j] by {
                if i < distinct(front).len() && j < distinct(front).len() {
                } else if i < distinct(front).len() {
                    assert(distinct(front)[i] == kept[i]);
                } else {
                    assert(distinct(front)[j] == kept[j]);
                }
            }
        }
    }
}

/// A batch is stored exactly if its id is among the ids of the stored
/// batches.
pub proof fn lemma_batch_ids(batches: Seq<BatchView>, id: Seq<char>)
    ensures
        has_batch(batches, id) <==> batch_ids(batches).contains(id),
        batch_ids(batches).len() == batches.len(),
{
    lemma_batch_position_from(batches, id, 0);
    if has_batch(batches, id) {
        let p = batch_position(batches, id);
        assert(batch_ids(batches)[p] == id);
    }
    if batch_ids(batches).contains(id) {
        let k = choose|k: int| 0 <= k < batch_ids(batches).len() && batch_ids(batches)[k] == id;
        assert(batches[k].id == id);
    }
}

/// The id of a task of the batch with the number `n` begins as the ids of
/// the group with that number do, and what follows is the format.
pub proof fn lemma_child_in_group(n: nat, format: Seq<char>)
    ensures
        child_id_text(batch_id_text(n), format) == group_prefix(child_lead(), n) + format,
        has_prefix(child_id_text(batch_id_text(n), format), group_prefix(child_lead(), n)),
{
    reveal_strlit("_");
    let prefix = group_prefix(child_lead(), n);
    let id = child_id_text(batch_id_text(n), format);
    assert("_"@ =~= seq!['_']);
    assert(id =~= prefix + format);
    assert(id.subrange(0, prefix.len() as int) =~= prefix);
}

/// Two tasks of one batch have the same id only if they fetch the same
/// format.
pub proof fn lemma_child_ids_differ(batch_id: Seq<char>, first: Seq<char>, second: Seq<char>)
    requires
        child_id_text(batch_id, first) == child_id_text(batch_id, second),
    ensures
        first == second,
{
    let lead = "task_"@ + batch_id + "_"@;
    let a = child_id_text(batch_id, first);
    let b = child_id_text(batch_id, second);
    assert(a.subrange(lead.len() as int, a.len() as int) =~= first);
    assert(b.subrange(lead.len() as int, b.len() as int) =~= second);
}

/// The sum of the progress of the tasks.
pub open spec fn progress_sum(children: Seq<TaskView>) -> nat
    decreases children.len(),
{
    if children.len() == 0 {
        0
    } else {
        progress_sum(children.drop_last()) + children.last().progress
    }
}

/// The progress of a batch: the mean of the progress of its tasks, rounded
/// down; nothing for a batch without tasks.
pub open spec fn batch_progress(children: Seq<TaskView>) -> nat {
    if children.len() == 0 {
        0
    } else {
        progress_sum(children) / children.len()
    }
}

/// Whether every task has the given status.
pub open spec fn all_are(children: Seq<TaskView>, status: DownloadStatus) -> bool {
    forall|i: int| 0 <= i < children.len() ==> (#[trigger] children[i]).status == status
}

/// Whether some task has the given status.
pub open spec fn some_is(children: Seq<TaskView>, status: DownloadStatus) -> bool {
    exists|i: int| 0 <= i < children.len() && (#[trigger] children[i]).status == status
}

/// Whether every task is completed, failed or cancelled.
pub open spec fn all_ended(children: Seq<TaskView>) -> bool {
    forall|i: int| 0 <= i < children.len() ==> (#[trigger] children[i]).status.is_terminal()
}

/// The status of a batch. A batch without tasks is pending. A batch is
/// completed only when all of its tasks are. When all have ended and not
/// all are completed, it is failed if one of them failed and cancelled
/// otherwise. While some task has not ended, the batch is pending if none
/// has begun, paused if none is pending or downloading, and downloading in
/// every other case.
pub open spec fn batch_status(children: Seq<TaskView>) -> DownloadStatus {
    if children.len() == 0 {
        DownloadStatus::Pending
    } else if all_are(children, DownloadStatus::Completed) {
        DownloadStatus::Completed
    } else if all_ended(children) {
        if some_is(children, DownloadStatus::Failed) {
            DownloadStatus::Failed
        } else {
            DownloadStatus::Cancelled
        }
    } else if all_are(children, DownloadStatus::Pending) {
        DownloadStatus::Pending
    } else if !some_is(children, DownloadStatus::Pending) && !some_is(
        children,
        DownloadStatus::Downloading,
    ) {
        DownloadStatus::Paused
    } else {
        DownloadStatus::Downloading
    }
}

/// The sum of the progress of valid tasks is at most full progress for each
/// of them, and exactly that if all are completed.
pub proof fn lemma_progress_sum(children: Seq<TaskView>)
    requires
        forall|i: int| 0 <= i < children.len() ==> (#[trigger] children[i]).valid(),
    ensures
        progress_sum(children) <= children.len() * FULL_PROGRESS,
        all_are(children, DownloadStatus::Completed) ==> progress_sum(children) == children.len()
            * FULL_PROGRESS,
    decreases children.len(),
{
    if children.len() > 0 {
        let front = children.drop_last();
        assert forall|i: int| 0 <= i < front.len() implies (#[trigger] front[i]).valid() by {
            assert(front[i] == children[i]);
        }
        lemma_progress_sum(front);
        assert(children.last() == children[children.len() - 1]);
        assert(children.last().valid());
        assert(children.len() * FULL_PROGRESS == front.len() * FULL_PROGRESS + FULL_PROGRESS)
            by (nonlinear_arith)
            requires
                children.len() == front.len() + 1,
        ;
        if all_are(children, DownloadStatus::Completed) {
            assert forall|i: int| 0 <= i < front.len() implies (#[trigger] front[i]).status
                == DownloadStatus::Completed by {
                assert(front[i] == children[i]);
            }
        }
    }
}

/// A batch is completed exactly if it has tasks and all of them are
/// completed; its progress is at most full, and full when it is completed.
pub proof fn lemma_batch_summary(children: Seq<TaskView>)
    requires
        forall|i: int| 0 <= i < children.len() ==> (#[trigger] children[i]).valid(),
    ensures
        batch_status(children) is Completed <==> children.len() > 0 && all_are(
            children,
            DownloadStatus::Completed,
        ),
        batch_progress(children) <= FULL_PROGRESS,
        batch_status(children) is Completed ==> batch_progress(children) == FULL_PROGRESS,
{
    lemma_progress_sum(children);
    let n = children.len();
    if n > 0 {
        let total = progress_sum(children);
        assert(total / n <= FULL_PROGRESS) by (nonlinear_arith)
            requires
                total <= n * FULL_PROGRESS,
                n > 0,
        ;
        if all_are(children, DownloadStatus::Completed) {
            assert(total / n == FULL_PROGRESS) by (nonlinear_arith)
                requires
                    total == n * FULL_PROGRESS,
                    n > 0,
            ;
        }
    }
}

impl BatchDownloadTask {
    /// A batch for the given address and formats.
    pub fn new(id: String, url: String, format_ids: Vec<String>, now: i64) -> (r: Self)
        ensures
            r@ == (BatchView {
                id: id@,
                url: url@,
                format_ids: texts(format_ids@),
                created_at: now as int,
            }),
    {
        BatchDownloadTask { id, url, format_ids, created_at: now }
    }

    /// The id that is made of the given time. A batch created at that time
    /// gets it if it is open.
    pub fn batch_id(now_millis: u64) -> (r: String)
        ensures
            r@ == batch_id_text(now_millis as nat),
    {
        let mut id = "batch_".to_string();
        append_decimal(&mut id, now_millis as u128);
        id
    }

    /// The id of the batch with the given number.
    pub fn numbered_id(n: u128) -> (r: String)
        ensures
            r@ == batch_id_text(n as nat),
    {
        let mut id = "batch_".to_string();
        append_decimal(&mut id, n);
        id
    }

    /// The id of the task that fetches the given format of this batch.
    pub fn child_id(&self, format_id: &str) -> (r: String)
        ensures
            r@ == child_id_text(self@.id, format_id@),
    {
        let mut id = "task_".to_string();
        id.append(self.id.as_str());
        id.append("_");
        id.append(format_id);
        assert(id@ =~= child_id_text(self@.id, format_id@));
        id
    }

    /// The status and the progress of a batch with the given tasks.
    pub fn summary(children: &Vec<DownloadTask>) -> (r: (DownloadStatus, u32))
        ensures
            r.0 == batch_status(views(children@)),
            r.1 == batch_progress(views(children@)),
            r.1 <= FULL_PROGRESS,
            r.0 is Completed ==> r.1 == FULL_PROGRESS,
    {
        let ghost all = views(children@);
        let n = children.len();
        let mut all_completed = true;
        let mut all_terminal = true;
        let mut all_pending = true;
        let mut any_failed = false;
        let mut any_pending = false;
        let mut any_downloading = false;
        let mut total: u128 = 0;
        let mut i: usize = 0;
        while i < n
            invariant
                i <= n == children@.len(),
                all == views(children@),
                forall|k: int| 0 <= k < i ==> (#[trigger] all[k]).valid(),
                all_completed == all_are(all.subrange(0, i as int), DownloadStatus::Completed),
                all_terminal == all_ended(all.subrange(0, i as int)),
                all_pending == all_are(all.subrange(0, i as int), DownloadStatus::Pending),
                any_failed == some_is(all.subrange(0, i as int), DownloadStatus::Failed),
                any_pending == some_is(all.subrange(0, i as int), DownloadStatus::Pending),
                any_downloading == some_is(all.subrange(0, i as int), DownloadStatus::Downloading),
                total == progress_sum(all.subrange(0, i as int)),
                total <= i * FULL_PROGRESS,
            decreases n - i,
        {
            let ghost before = all.subrange(0, i as int);
            let ghost after = all.subrange(0, i + 1);
            let status = children[i].status();
            let progress = children[i].progress();
            proof {
                assert(after.drop_last() =~= before);
                assert(after.last() == all[i as int]);
                assert(forall|k: int| 0 <= k < before.len() ==> before[k] == after[k]);
                assert((i + 1) * FULL_PROGRESS == i * FULL_PROGRESS + FULL_PROGRESS)
                    by (nonlinear_arith);
                assert(i * FULL_PROGRESS <= 0x1_0000_0000_0000_0000 * FULL_PROGRESS)
                    by (nonlinear_arith)
                    requires
                        i <= 0x1_0000_0000_0000_0000,
                ;
                // What holds of all of `after` holds of `before` and of the last.
                assert(all_are(after, DownloadStatus::Completed) == (all_are(
                    before,
                    DownloadStatus::Completed,
                ) && status == DownloadStatus::Completed)) by {
                    if all_are(after, DownloadStatus::Completed) {
                        assert(after[i as int].status == DownloadStatus::Completed);
                    }
                }
                assert(all_are(after, DownloadStatus::Pending) == (all_are(
                    before,
                    DownloadStatus::Pending,
                ) && status == DownloadStatus::Pending)) by {
                    if all_are(after, DownloadStatus::Pending) {
                        assert(after[i as int].status == DownloadStatus::Pending);
                    }
                }
                assert(all_ended(after) == (all_ended(before) && status.is_terminal())) by {
                    if all_ended(after) {
                        assert(after[i as int].status.is_terminal());
                    }
                }
                assert(some_is(after, DownloadStatus::Failed) == (some_is(
                    before,
                    DownloadStatus::Failed,
                ) || status == DownloadStatus::Failed)) by {
                    lemma_some_is_step(before, after, DownloadStatus::Failed);
                }
                assert(some_is(after, DownloadStatus::Pending) == (some_is(
                    before,
                    DownloadStatus::Pending,
                ) || status == DownloadStatus::Pending)) by {
                    lemma_some_is_step(before, after, DownloadStatus::Pending);
                }
                assert(some_is(after, DownloadStatus::Downloading) == (some_is(
                    before,
                    DownloadStatus::Downloading,
                ) || status == DownloadStatus::Downloading)) by {
                    lemma_some_is_step(before, after, DownloadStatus::Downloading);
                }
            }
            all_completed = all_completed && status == DownloadStatus::Completed;
            all_terminal = all_terminal && status.terminal();
            all_pending = all_pending && status == DownloadStatus::Pending;
            any_failed = any_failed || status == DownloadStatus::Failed;
            any_pending = any_pending || status == DownloadStatus::Pending;
            any_downloading = any_downloading || status == DownloadStatus::Downloading;
            total = total + progress as u128;
            i += 1;
        }
        proof {
            assert(all.subrange(0, n as int) =~= all);
            lemma_batch_summary(all);
        }
        if n == 0 {
            return (DownloadStatus::Pending, 0);
        }
        let mean = (total / (n as u128)) as u32;
        let status = if all_completed {
            DownloadStatus::Completed
        } else if all_terminal {
            if any_failed {
                DownloadStatus::Failed
            } else {
                DownloadStatus::Cancelled
            }
        } else if all_pending {
            DownloadStatus::Pending
        } else if !any_pending && !any_downloading {
            DownloadStatus::Paused
        } else {
            DownloadStatus::Downloading
        };
        (status, mean)
    }
}

/// Some task of a sequence has a status exactly if one of all but the last
/// has it or the last has it.
pub proof fn lemma_some_is_step(before: Seq<TaskView>, after: Seq<TaskView>, status: DownloadStatus)
    requires
        after.len() == before.len() + 1,
        forall|k: int| 0 <= k < before.len() ==> before[k] == after[k],
    ensures
        some_is(after, status) == (some_is(before, status) || after[after.len() - 1].status
            == status),
{
    if some_is(before, status) {
        let k = choose|k: int| 0 <= k < before.len() && (#[trigger] before[k]).status == status;
        assert(after[k].status == status);
    }
    if some_is(after, status) {
        let k = choose|k: int| 0 <= k < after.len() && (#[trigger] after[k]).status == status;
        if k < before.len() {
            assert(before[k].status == status);
        }
    }
    if after[after.len() - 1].status == status {
        assert(some_is(after, status));
    }
}

/// The values of a sequence of batches.
pub open spec fn batch_views(batches: Seq<BatchDownloadTask>) -> Seq<BatchView> {
    batches.map_values(|b: BatchDownloadTask| b@)
}

/// The index of the first batch with the given id, from `i` on, or the
/// number of batches if there is none.
pub open spec fn batch_position_from(batches: Seq<BatchView>, id: Seq<char>, i: int) -> int
    decreases batches.len() - i,
{
    if i >= batches.len() {
        batches.len() as int
    } else if batches[i].id == id {
        i
    } else {
        batch_position_from(batches, id, i + 1)
    }
}

/// The index of the first batch with the given id, or the number of batches
/// if there is none.
pub open spec fn batch_position(batches: Seq<BatchView>, id: Seq<char>) -> int {
    batch_position_from(batches, id, 0)
}

/// Whether a batch with the given id is among `batches`.
pub open spec fn has_batch(batches: Seq<BatchView>, id: Seq<char>) -> bool {
    batch_position(batches, id) < batches.len()
}

/// The batch with the given id, if there is one.
pub open spec fn found_batch(batches: Seq<BatchView>, id: Seq<char>) -> Option<BatchView> {
    if has_batch(batches, id) {
        Some(batches[batch_position(batches, id)])
    } else {
        None
    }
}

/// The batches after `batch` was saved: it takes the place of the batch
/// with its id, or comes last if there was none.
pub open spec fn saved_batch(batches: Seq<BatchView>, batch: BatchView) -> Seq<BatchView> {
    if has_batch(batches, batch.id) {
        batches.update(batch_position(batches, batch.id), batch)
    } else {
        batches.push(batch)
    }
}

/// The batches after the one with the given id was deleted.
pub open spec fn deleted_batch(batches: Seq<BatchView>, id: Seq<char>) -> Seq<BatchView> {
    if has_batch(batches, id) {
        batches.remove(batch_position(batches, id))
    } else {
        batches
    }
}

/// What an update reports, and the batches after it: under a stored id it
/// does what saving does, under any other it is refused and changes
/// nothing.
pub open spec fn updated_batch(batches: Seq<BatchView>, batch: BatchView) -> (
    Result<(), RepositoryError>,
    Seq<BatchView>,
) {
    if has_batch(batches, batch.id) {
        (Ok(()), saved_batch(batches, batch))
    } else {
        (Err(RepositoryError::NotFound), batches)
    }
}

/// `batch_position_from` stays within `i..=len` and names the first batch
/// with the id.
pub proof fn lemma_batch_position_from(batches: Seq<BatchView>, id: Seq<char>, i: int)
    requires
        0 <= i <= batches.len(),
    ensures
        i <= batch_position_from(batches, id, i) <= batches.len(),
        batch_position_from(batches, id, i) < batches.len() ==> batches[batch_position_from(
            batches,
            id,
            i,
        )].id == id,
        forall|k: int|
            i <= k < batch_position_from(batches, id, i) ==> (#[trigger] batches[k]).id != id,
    decreases batches.len() - i,
{
    if i < batches.len() && batches[i].id != id {
        lemma_batch_position_from(batches, id, i + 1);
    }
}

/// A saved batch is found under its id, as it was saved.
pub proof fn lemma_saved_batch(batches: Seq<BatchView>, batch: BatchView)
    ensures
        found_batch(saved_batch(batches, batch), batch.id) == Some(batch),
{
    lemma_batch_position_from(batches, batch.id, 0);
    let after = saved_batch(batches, batch);
    lemma_batch_position_from(after, batch.id, 0);
    let p = batch_position(batches, batch.id);
    assert(after[p] == batch);
    let q = batch_position(after, batch.id);
    if q < p {
        assert(after[q] == batches[q]);
    }
}

/// The formats without those that were named before, in their order.
pub fn distinct_formats(formats: &Vec<String>) -> (r: Vec<String>)
    ensures
        texts(r@) == distinct(texts(formats@)),
        texts(r@).no_duplicates(),
{
    let ghost all = texts(formats@);
    let mut kept: Vec<String> = Vec::new();
    let mut i: usize = 0;
    assert(texts(kept@) =~= distinct(all.subrange(0, 0)));
    while i < formats.len()
        invariant
            i <= formats@.len(),
            all == texts(formats@),
            texts(kept@) == distinct(all.subrange(0, i as int)),
        decreases formats@.len() - i,
    {
        let ghost upto = all.subrange(0, i + 1);
        proof {
            assert(upto.drop_last() =~= all.subrange(0, i as int));
            assert(upto.last() == formats@[i as int]@);
        }
        let mut known = false;
        let mut j: usize = 0;
        while j < kept.len()
            invariant
                j <= kept@.len(),
                i < formats@.len(),
                known == exists|k: int| 0 <= k < j && texts(kept@)[k] == formats@[i as int]@,
            decreases kept@.len() - j,
        {
            if kept[j] == formats[i] {
                assert(texts(kept@)[j as int] == formats@[i as int]@);
                known = true;
            }
            j += 1;
        }
        assert(known == texts(kept@).contains(formats@[i as int]@));
        if !known {
            let ghost before = kept@;
            kept.push(formats[i].clone());
            assert(texts(kept@) =~= texts(before).push(formats@[i as int]@));
        }
        i += 1;
    }
    proof {
        assert(all.subrange(0, i as int) =~= all);
        lemma_distinct(all);
    }
    kept
}

/// A store of batches, whatever it keeps them in. Its value is the sequence
/// of its batches; an id is looked up from the front.
pub trait BatchDownloadTaskRepository {
    /// The stored batches.
    spec fn batches(&self) -> Seq<BatchView>;

    /// Stores the batch under its id, in place of a batch stored under that
    /// id before.
    fn save(&mut self, batch_task: &BatchDownloadTask)
        ensures
            final(self).batches() == saved_batch(old(self).batches(), batch_task@),
    ;

    /// A copy of the batch with the given id.
    fn find_by_id(&self, batch_id: &str) -> (r: Option<BatchDownloadTask>)
        ensures
            r is Some <==> has_batch(self.batches(), batch_id@),
            r matches Some(b) ==> found_batch(self.batches(), batch_id@) == Some(b@),
    ;

    /// Copies of all stored batches.
    fn find_all(&self) -> (r: Vec<BatchDownloadTask>)
        ensures
            batch_views(r@) == self.batches(),
    ;

    /// Replaces the stored batch that has the id of `batch_task`; without
    /// such a batch the result is `NotFound` and nothing changes.
    fn update(&mut self, batch_task: &BatchDownloadTask) -> (r: Result<(), RepositoryError>)
        ensures
            (r, final(self).batches()) == updated_batch(old(self).batches(), batch_task@),
    ;

    /// Removes the batch with the given id; without such a batch the result
    /// is `NotFound` and nothing changes.
    fn delete(&mut self, batch_id: &str) -> (r: Result<(), RepositoryError>)
        ensures
            r is Ok <==> has_batch(old(self).batches(), batch_id@),
            r is Err ==> r == Err::<(), RepositoryError>(RepositoryError::NotFound),
            final(self).batches() == deleted_batch(old(self).batches(), batch_id@),
    ;
}

/// A store of batches, kept in memory in the order in which their ids were
/// first saved.
pub struct InMemoryBatchDownloadTaskRepository {
    batches: Vec<BatchDownloadTask>,
}

impl View for InMemoryBatchDownloadTaskRepository {
    type V = Seq<BatchView>;

    closed spec fn view(&self) -> Seq<BatchView> {
        batch_views(self.batches@)
    }
}

impl InMemoryBatchDownloadTaskRepository {
    /// An empty store.
    pub fn new() -> (r: Self)
        ensures
            r@ == Seq::<BatchView>::empty(),
    {
        let r = InMemoryBatchDownloadTaskRepository { batches: Vec::new() };
        assert(batch_views(r.batches@) =~= Seq::<BatchView>::empty());
        r
    }

    fn index_of(&self, id: &String) -> (r: usize)
        ensures
            r == batch_position(self@, id@),
            r <= self@.len(),
            self@.len() == self.batches@.len(),
    {
        let mut i: usize = 0;
        while i < self.batches.len()
            invariant
                i <= self.batches@.len(),
                batch_position(self@, id@) == batch_position_from(self@, id@, i as int),
            decreases self.batches@.len() - i,
        {
            if self.batches[i].id == *id {
                return i;
            }
            i += 1;
        }
        i
    }
}

impl BatchDownloadTaskRepository for InMemoryBatchDownloadTaskRepository {
    open spec fn batches(&self) -> Seq<BatchView> {
        self@
    }

    fn save(&mut self, batch_task: &BatchDownloadTask) {
        let ghost before = self@;
        let i = self.index_of(&batch_task.id);
        if i < self.batches.len() {
            self.batches.set(i, batch_task.clone());
            assert(batch_views(self.batches@) =~= before.update(i as int, batch_task@));
        } else {
            self.batches.push(batch_task.clone());
            assert(batch_views(self.batches@) =~= before.push(batch_task@));
        }
    }

    fn find_by_id(&self, batch_id: &str) -> (r: Option<BatchDownloadTask>) {
        let key = batch_id.to_string();
        let i = self.index_of(&key);
        if i < self.batches.len() {
            Some(self.batches[i].clone())
        } else {
            None
        }
    }

    fn find_all(&self) -> (r: Vec<BatchDownloadTask>) {
        let mut all: Vec<BatchDownloadTask> = Vec::new();
        let mut i: usize = 0;
        while i < self.batches.len()
            invariant
                i <= self.batches@.len(),
                batch_views(all@) == self@.subrange(0, i as int),
            decreases self.batches@.len() - i,
        {
            let ghost before = all@;
            all.push(self.batches[i].clone());
            assert(batch_views(all@) =~= batch_views(before).push(self.batches@[i as int]@));
            assert(batch_views(all@) =~= self@.subrange(0, i + 1));
            i += 1;
        }
        assert(self@.subrange(0, i as int) =~= self@);
        all
    }

    fn update(&mut self, batch_task: &BatchDownloadTask) -> (r: Result<(), RepositoryError>) {
        let ghost before = self@;
        let i = self.index_of(&batch_task.id);
        if i < self.batches.len() {
            self.batches.set(i, batch_task.clone());
            assert(batch_views(self.batches@) =~= before.update(i as int, batch_task@));
            Ok(())
        } else {
            Err(RepositoryError::NotFound)
        }
    }

    fn delete(&mut self, batch_id: &str) -> (r: Result<(), RepositoryError>) {
        let ghost before = self@;
        let key = batch_id.to_string();
        let i = self.index_of(&key);
        if i < self.batches.len() {
            self.batches.remove(i);
            assert(batch_views(self.batches@) =~= before.remove(i as int));
            Ok(())
        } else {
            Err(RepositoryError::NotFound)
        }
    }
}

} // verus!
