//! Replacing a file as a whole: the new contents go to a temporary file, which
//! takes the place of the old file once it is complete.

use crate::ids::{is_fresh_id, new_id};
use crate::text::{failure, joined};
use vstd::prelude::*;
use vstd::string::StringExecFns;

verus! {

/// What is to be done next to replace a file.
#[derive(Debug)]
pub enum WriteStep {
    /// Create the temporary file, which must not exist.
    Create,
    /// Write the contents to it.
    Write,
    /// Flush it.
    Flush,
    /// Bring it to the disk.
    Sync,
    /// Close it and put it in the place of the file.
    Commit,
    /// Remove the temporary file; the replacement failed for this reason.
    Cleanup(String),
    /// Nothing: the file was replaced, or the replacement failed for this reason.
    Done(Result<(), String>),
}

/// What a step is.
pub enum WriteModel {
    Create,
    Write,
    Flush,
    Sync,
    Commit,
    Cleanup(Seq<char>),
    Replaced,
    Failed(Seq<char>),
}

impl View for WriteStep {
    type V = WriteModel;

    open spec fn view(&self) -> WriteModel {
        match self {
            WriteStep::Create => WriteModel::Create,
            WriteStep::Write => WriteModel::Write,
            WriteStep::Flush => WriteModel::Flush,
            WriteStep::Sync => WriteModel::Sync,
            WriteStep::Commit => WriteModel::Commit,
            WriteStep::Cleanup(reason) => WriteModel::Cleanup(reason@),
            WriteStep::Done(Ok(_)) => WriteModel::Replaced,
            WriteStep::Done(Err(reason)) => WriteModel::Failed(reason@),
        }
    }
}

/// The step that follows a step. A step that fails leads to the removal of the
/// temporary file, and whether that succeeds does not matter.
pub open spec fn next(step: WriteModel, failed: Option<Seq<char>>) -> WriteModel {
    match (step, failed) {
        (WriteModel::Create, None) => WriteModel::Write,
        (WriteModel::Write, None) => WriteModel::Flush,
        (WriteModel::Flush, None) => WriteModel::Sync,
        (WriteModel::Sync, None) => WriteModel::Commit,
        (WriteModel::Commit, None) => WriteModel::Replaced,
        (WriteModel::Create, Some(reason)) => WriteModel::Cleanup(
            "Could not create a temporary history file: "@ + reason,
        ),
        (WriteModel::Write, Some(reason)) => WriteModel::Cleanup(
            "Could not save the history item: "@ + reason,
        ),
        (WriteModel::Flush, Some(reason)) => WriteModel::Cleanup(
            "Could not save the history item: "@ + reason,
        ),
        (WriteModel::Sync, Some(reason)) => WriteModel::Cleanup(
            "Could not save the history item: "@ + reason,
        ),
        (WriteModel::Commit, Some(reason)) => WriteModel::Cleanup(reason),
        (WriteModel::Cleanup(reason), _) => WriteModel::Failed(reason),
        (WriteModel::Replaced, _) => WriteModel::Replaced,
        (WriteModel::Failed(reason), _) => WriteModel::Failed(reason),
    }
}

/// The first step of replacing a file. A file without a folder cannot be replaced.
pub fn atomic_write(has_parent: bool) -> (step: WriteStep)
    ensures
        step@ == if has_parent {
            WriteModel::Create
        } else {
            WriteModel::Failed("The history path has no parent folder."@)
        },
{
    if has_parent {
        WriteStep::Create
    } else {
        WriteStep::Done(Err("The history path has no parent folder.".to_owned()))
    }
}

/// The step that follows a step with the given outcome.
pub fn next_write_step(step: WriteStep, outcome: Result<(), String>) -> (following: WriteStep)
    ensures
        following@ == next(step@, failure(outcome)),
{
    match (step, outcome) {
        (WriteStep::Create, Ok(_)) => WriteStep::Write,
        (WriteStep::Write, Ok(_)) => WriteStep::Flush,
        (WriteStep::Flush, Ok(_)) => WriteStep::Sync,
        (WriteStep::Sync, Ok(_)) => WriteStep::Commit,
        (WriteStep::Commit, Ok(_)) => WriteStep::Done(Ok(())),
        (WriteStep::Create, Err(reason)) => WriteStep::Cleanup(
            joined("Could not create a temporary history file: ", reason.as_str()),
        ),
        (WriteStep::Write, Err(reason)) => WriteStep::Cleanup(
            joined("Could not save the history item: ", reason.as_str()),
        ),
        (WriteStep::Flush, Err(reason)) => WriteStep::Cleanup(
            joined("Could not save the history item: ", reason.as_str()),
        ),
        (WriteStep::Sync, Err(reason)) => WriteStep::Cleanup(
            joined("Could not save the history item: ", reason.as_str()),
        ),
        (WriteStep::Commit, Err(reason)) => WriteStep::Cleanup(reason),
        (WriteStep::Cleanup(reason), _) => WriteStep::Done(Err(reason)),
        (WriteStep::Done(result), _) => WriteStep::Done(result),
    }
}

/// The name of a temporary file.
pub open spec fn temporary_name(id: Seq<char>) -> Seq<char> {
    "."@ + id + ".tmp"@
}

/// The name of the temporary file with an identifier.
pub fn temporary_file_name(id: &str) -> (name: String)
    ensures
        name@ == temporary_name(id@),
{
    let mut name = joined(".", id);
    name.append(".tmp");
    name
}

/// The name of a new temporary file.
pub fn new_temporary_name() -> (name: String)
    ensures
        exists|id: Seq<char>| is_fresh_id(id) && name@ == #[trigger] temporary_name(id),
{
    let id = new_id();
    temporary_file_name(id.as_str())
}

/// The steps that are taken, when the step `i` has the outcome `failed[i]`.
pub open spec fn steps(failed: Seq<Option<Seq<char>>>) -> Seq<WriteModel>
    decreases failed.len(),
{
    if failed.len() == 0 {
        seq![WriteModel::Create]
    } else {
        let before = steps(failed.drop_last());
        before.push(next(before.last(), failed.last()))
    }
}

/// The replacement of a file ends after six steps at most.
pub proof fn replacement_ends(failed: Seq<Option<Seq<char>>>)
    requires
        failed.len() >= 6,
    ensures
        steps(failed).last() is Replaced || steps(failed).last() is Failed,
    decreases failed.len(),
{
    reveal_with_fuel(steps, 7);
    if failed.len() > 6 {
        replacement_ends(failed.drop_last());
    }
}

/// The old file is only touched once the new contents are complete on the disk:
/// a commit follows nothing but a successful sync, a sync nothing but a successful
/// flush, and so on.
pub proof fn commit_needs_complete_contents(step: WriteModel, failed: Option<Seq<char>>)
    ensures
        next(step, failed) is Commit <==> step is Sync && failed is None,
        next(step, failed) is Sync <==> step is Flush && failed is None,
        next(step, failed) is Flush <==> step is Write && failed is None,
        next(step, failed) is Write <==> step is Create && failed is None,
        !(next(step, failed) is Create),
{
}

/// A file is replaced exactly when every step succeeds.
pub proof fn replaced_when_all_succeed(failed: Seq<Option<Seq<char>>>)
    requires
        failed.len() == 5,
    ensures
        steps(failed).last() is Replaced <==> forall|i: int| 0 <= i < 5 ==> #[trigger] failed[i] is None,
{
    reveal_with_fuel(steps, 6);
    assert(failed.drop_last().last() == failed[3]);
    assert(failed.drop_last().drop_last().last() == failed[2]);
    assert(failed.drop_last().drop_last().drop_last().last() == failed[1]);
    assert(failed.drop_last().drop_last().drop_last().drop_last().last() == failed[0]);
}

/// A step that fails is followed by the removal of the temporary file and then by
/// the end, and a replacement that succeeds removes nothing.
pub proof fn failure_is_cleaned_up(
    step: WriteModel,
    reason: Seq<char>,
    cleaned: Option<Seq<char>>,
    later: Option<Seq<char>>,
)
    requires
        !(step is Cleanup) && !(step is Replaced) && !(step is Failed),
    ensures
        next(step, Some(reason)) is Cleanup,
        next(next(step, Some(reason)), cleaned) == WriteModel::Failed(
            next(step, Some(reason))->Cleanup_0,
        ),
        next(WriteModel::Replaced, later) is Replaced,
        step is Commit ==> next(step, Some(reason))->Cleanup_0 == reason,
{
}

/// What the disk holds of the file that is replaced and of the temporary file, as far
/// as they exist.
#[verifier::ext_equal]
pub struct Disk {
    pub file: Option<Seq<u8>>,
    pub temporary: Option<Seq<u8>>,
}

/// What the disk may hold after a step. A step that fails may leave a part of the
/// contents in the temporary file, and otherwise has no effect; putting the temporary
/// file in the place of the file has either its whole effect or none.
pub open spec fn may_become(
    before: Disk,
    step: WriteModel,
    contents: Seq<u8>,
    failed: bool,
    after: Disk,
) -> bool {
    match step {
        WriteModel::Create => if failed {
            after == before
        } else {
            after == (Disk { temporary: Some(seq![]), ..before })
        },
        WriteModel::Write => {
            &&& after.file == before.file
            &&& !failed ==> after.temporary == Some(before.temporary->0 + contents)
        },
        WriteModel::Commit => if failed {
            after == before
        } else {
            after == (Disk { file: before.temporary, temporary: None })
        },
        WriteModel::Cleanup(_) => {
            &&& after.file == before.file
            &&& !failed ==> after.temporary is None
        },
        _ => after == before,
    }
}

/// What the disk holds before each step, and after the last one, of a replacement in
/// which the step `i` has the outcome `failed[i]`.
pub open spec fn is_history(
    disks: Seq<Disk>,
    contents: Seq<u8>,
    failed: Seq<Option<Seq<char>>>,
) -> bool {
    &&& disks.len() == failed.len() + 1
    &&& forall|i: int|
        0 <= i < failed.len() ==> may_become(
            #[trigger] disks[i],
            steps(failed)[i],
            contents,
            failed[i] is Some,
            disks[i + 1],
        )
}

/// What holds of the disk when a step is to be taken.
spec fn fits(disk: Disk, old_file: Option<Seq<u8>>, contents: Seq<u8>, step: WriteModel) -> bool {
    match step {
        WriteModel::Create => disk.file == old_file,
        WriteModel::Write => disk.file == old_file && disk.temporary == Some(Seq::<u8>::empty()),
        WriteModel::Flush => disk.file == old_file && disk.temporary == Some(contents),
        WriteModel::Sync => disk.file == old_file && disk.temporary == Some(contents),
        WriteModel::Commit => disk.file == old_file && disk.temporary == Some(contents),
        WriteModel::Cleanup(_) => disk.file == old_file,
        WriteModel::Failed(_) => disk.file == old_file,
        WriteModel::Replaced => disk.file == Some(contents) && disk.temporary is None,
    }
}

proof fn lemma_disk_fits(disks: Seq<Disk>, contents: Seq<u8>, failed: Seq<Option<Seq<char>>>)
    requires
        is_history(disks, contents, failed),
    ensures
        steps(failed).len() == failed.len() + 1,
        fits(disks.last(), disks[0].file, contents, steps(failed).last()),
    decreases failed.len(),
{
    if failed.len() > 0 {
        let fewer = failed.drop_last();
        let earlier = disks.drop_last();
        let n = fewer.len() as int;
        assert forall|i: int| 0 <= i < fewer.len() implies may_become(
            #[trigger] earlier[i],
            steps(fewer)[i],
            contents,
            fewer[i] is Some,
            earlier[i + 1],
        ) by {
            lemma_steps_len(fewer);
            assert(earlier[i] == disks[i]);
            assert(steps(failed)[i] == steps(fewer)[i]);
        }
        lemma_disk_fits(earlier, contents, fewer);
        assert(earlier[n] == disks[n]);
        assert(steps(failed)[n] == steps(fewer)[n]);
        assert(failed[n] == failed.last());
        assert(Seq::<u8>::empty() + contents =~= contents);
    }
}

proof fn lemma_steps_len(failed: Seq<Option<Seq<char>>>)
    ensures
        steps(failed).len() == failed.len() + 1,
    decreases failed.len(),
{
    if failed.len() > 0 {
        lemma_steps_len(failed.drop_last());
    }
}

/// A file is replaced as a whole or not at all: up to the end of a replacement, and
/// for ever where it fails, the file is what it was; after a replacement it holds the
/// new contents, and the temporary file is gone.
pub proof fn file_is_whole(disks: Seq<Disk>, contents: Seq<u8>, failed: Seq<Option<Seq<char>>>)
    requires
        is_history(disks, contents, failed),
    ensures
        steps(failed).last() is Replaced ==> disks.last() == (Disk {
            file: Some(contents),
            temporary: None,
        }),
        !(steps(failed).last() is Replaced) ==> disks.last().file == disks[0].file,
{
    lemma_disk_fits(disks, contents, failed);
}

/// A temporary file that could be removed does not stay behind.
pub proof fn removed_temporary_is_gone(
    disks: Seq<Disk>,
    contents: Seq<u8>,
    failed: Seq<Option<Seq<char>>>,
    at: int,
)
    requires
        is_history(disks, contents, failed),
        0 <= at < failed.len(),
        steps(failed)[at] is Cleanup,
        failed[at] is None,
    ensures
        disks[at + 1].temporary is None,
        disks.last() == disks[at + 1],
        steps(failed).last() is Failed,
{
    lemma_after_cleanup(disks, contents, failed, at, failed.len() as int);
}

proof fn lemma_after_cleanup(
    disks: Seq<Disk>,
    contents: Seq<u8>,
    failed: Seq<Option<Seq<char>>>,
    at: int,
    n: int,
)
    requires
        is_history(disks, contents, failed),
        0 <= at < n <= failed.len(),
        steps(failed)[at] is Cleanup,
        failed[at] is None,
    ensures
        disks[at + 1].temporary is None,
        disks[n] == disks[at + 1],
        steps(failed).len() == failed.len() + 1,
        steps(failed)[n] is Failed,
    decreases n,
{
    lemma_step_follows(failed, n - 1);
    assert(may_become(disks[n - 1], steps(failed)[n - 1], contents, failed[n - 1] is Some, disks[n]));
    if at < n - 1 {
        lemma_after_cleanup(disks, contents, failed, at, n - 1);
    }
}

proof fn lemma_step_follows(failed: Seq<Option<Seq<char>>>, i: int)
    requires
        0 <= i < failed.len(),
    ensures
        steps(failed).len() == failed.len() + 1,
        steps(failed)[i + 1] == next(steps(failed)[i], failed[i]),
    decreases failed.len(),
{
    lemma_steps_len(failed);
    let fewer = failed.drop_last();
    lemma_steps_len(fewer);
    if i < fewer.len() {
        lemma_step_follows(fewer, i);
    }
}

/// Steps are seen as they are.
pub proof fn steps_are_seen_whole(reason: String)
    ensures
        WriteStep::Create@ == WriteModel::Create,
        WriteStep::Write@ == WriteModel::Write,
        WriteStep::Flush@ == WriteModel::Flush,
        WriteStep::Sync@ == WriteModel::Sync,
        WriteStep::Commit@ == WriteModel::Commit,
        WriteStep::Cleanup(reason)@ == WriteModel::Cleanup(reason@),
        WriteStep::Done(Ok(()))@ == WriteModel::Replaced,
        WriteStep::Done(Err(reason))@ == WriteModel::Failed(reason@),
{
}

/// A replacement whose steps all succeed takes the five steps in their order and is done.
pub proof fn successful_steps_come_in_order()
    ensures
        next(WriteModel::Create, None) == WriteModel::Write,
        next(WriteModel::Write, None) == WriteModel::Flush,
        next(WriteModel::Flush, None) == WriteModel::Sync,
        next(WriteModel::Sync, None) == WriteModel::Commit,
        next(WriteModel::Commit, None) == WriteModel::Replaced,
{
}

/// A failed replacement ends with the reason of the step that failed, and says what could
/// not be done; whether the temporary file could then be removed does not matter.
pub proof fn failed_step_is_reported(reason: Seq<char>, cleaned: Option<Seq<char>>)
    ensures
        next(next(WriteModel::Create, Some(reason)), cleaned) == WriteModel::Failed(
            "Could not create a temporary history file: "@ + reason,
        ),
        next(next(WriteModel::Write, Some(reason)), cleaned) == WriteModel::Failed(
            "Could not save the history item: "@ + reason,
        ),
        next(next(WriteModel::Flush, Some(reason)), cleaned) == WriteModel::Failed(
            "Could not save the history item: "@ + reason,
        ),
        next(next(WriteModel::Sync, Some(reason)), cleaned) == WriteModel::Failed(
            "Could not save the history item: "@ + reason,
        ),
        next(next(WriteModel::Commit, Some(reason)), cleaned) == WriteModel::Failed(reason),
        next(WriteModel::Replaced, cleaned) == WriteModel::Replaced,
        next(WriteModel::Failed(reason), cleaned) == WriteModel::Failed(reason),
{
}

/// Temporary files have names of their own: a dot, the identifier and `.tmp`, so that
/// different identifiers never share a file and none is taken for a session.
pub proof fn temporary_names_differ(id: Seq<char>, other: Seq<char>)
    ensures
        temporary_name(id).len() == id.len() + 5,
        temporary_name(id)[0] == '.',
        temporary_name(id).subrange(1, 1 + id.len() as int) == id,
        temporary_name(id).skip(1 + id.len() as int) == ".tmp"@,
        temporary_name(id) == temporary_name(other) ==> id == other,
        !crate::ids::is_session_file_name(temporary_name(id)),
{
    reveal_strlit(".");
    reveal_strlit(".tmp");
    reveal_strlit(".jsonl");
    let name = temporary_name(id);
    assert(name.subrange(1, 1 + id.len() as int) =~= id);
    assert(name.skip(1 + id.len() as int) =~= ".tmp"@);
    assert(temporary_name(other).subrange(1, 1 + other.len() as int) =~= other);
    if crate::ids::is_session_file_name(name) {
        let end = name.subrange(name.len() - 6, name.len() as int);
        assert(end == ".jsonl"@);
        assert(end[5] == name[name.len() - 1]);
        assert(".jsonl"@[5] == 'l');
        assert(".tmp"@[3] == 'p');
    }
}

}
