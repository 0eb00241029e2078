//! What holds of every mutation: the order of its outside work, and what it
//! leaves in the pool file, for every way that work can end.

use crate::engine::{
    failure_of, is_over, next, outcome_of, rewritten, takes_effect, ActionView,
    CommandOutcomeView, EventView, MutationErrorView, MutationView, OutcomeView, RequestView,
};
use crate::pool_file::{has_anchor, is_listed, pieces};
use crate::pool_laws::{
    lemma_add_then_remove_text, lemma_add_without_place_keeps_text,
    lemma_remove_absent_keeps_text,
};
use vstd::prelude::*;
use vstd::utf8::encode_utf8;

verus! {

/// How far a mutation has come.
pub open spec fn rank(state: MutationView) -> nat {
    match state {
        MutationView::Idle(_) => 0,
        MutationView::Locked(_) => 1,
        MutationView::BackedUp(_) => 2,
        MutationView::Rewriting(_, _) => 3,
        MutationView::Rewritten(_, _) => 4,
        MutationView::Restoring(_) => 5,
        _ => 6,
    }
}

/// Every step moves the mutation on, and it ends with the step that tells
/// the caller to finish. So a mutation takes six steps at most.
pub proof fn lemma_step_advances(state: MutationView, event: EventView)
    requires
        next(state, event) is Some,
    ensures
        rank(next(state, event)->Some_0.0) > rank(state),
        next(state, event)->Some_0.1 is Finish <==> is_over(next(state, event)->Some_0.0),
{
}

/// A mutation that is over waits for nothing.
pub proof fn lemma_over_accepts_nothing(state: MutationView, event: EventView)
    requires
        is_over(state),
    ensures
        next(state, event) is None,
{
}

/// The outside work comes in one order: the lock, then the backup, then the
/// read, the write, the reload and, where that failed, the restore. The
/// backup is asked for only once the lock is held, the reload only once the
/// new text is written, and the lock is released only at the end, and then
/// whenever it was taken.
pub proof fn lemma_order_of_work(state: MutationView, event: EventView)
    requires
        next(state, event) is Some,
    ensures
        ({
            let action = next(state, event)->Some_0.1;
            &&& !(action is AcquireLock)
            &&& action is CopyToBackup ==> state is Idle && event is LockAcquired
            &&& action is ReadPrimary ==> state is Locked
            &&& action is WritePrimary ==> state is BackedUp
            &&& action is Reload ==> state is Rewriting && event is PrimaryWritten
            &&& action is RestoreFromBackup ==> state is Rewritten
            &&& action matches ActionView::Finish { release_lock, .. } ==> (release_lock <==> !(
            state is Idle))
        }),
{
}

/// The pool file and its backup, as bytes.
pub struct Files {
    pub primary: Seq<u8>,
    pub backup: Seq<u8>,
}

/// How each piece of outside work ends in one run.
pub struct Fate {
    /// Why the lock cannot be taken, if it cannot.
    pub lock: Option<Seq<char>>,
    /// How the copy to the backup ends.
    pub backup: CommandOutcomeView,
    /// Why the write fails, if it does.
    pub write: Option<Seq<char>>,
    /// How the reload ends.
    pub reload: CommandOutcomeView,
    /// How the restore ends.
    pub restore: CommandOutcomeView,
    /// What a write or a restore that fails leaves in the pool file.
    pub debris: Seq<u8>,
}

/// What carrying out an action does to the files, and the event that tells
/// of it; `None` for the action that ends the mutation. A copy that succeeds
/// leaves the pool file's bytes in the backup, a write that succeeds leaves
/// the text in the pool file, a restore that succeeds leaves the backup's
/// bytes there. A copy that fails leaves the pool file alone.
pub open spec fn perform(action: ActionView, files: Files, fate: Fate) -> Option<
    (EventView, Files),
> {
    match action {
        ActionView::AcquireLock => match fate.lock {
            None => Some((EventView::LockAcquired, files)),
            Some(d) => Some((EventView::LockFailed(d), files)),
        },
        ActionView::CopyToBackup => Some(
            (
                EventView::BackupFinished(fate.backup),
                if failure_of(fate.backup) is None {
                    Files { primary: files.primary, backup: files.primary }
                } else {
                    Files { primary: files.primary, backup: fate.debris }
                },
            ),
        ),
        ActionView::ReadPrimary => Some((EventView::PrimaryRead(files.primary), files)),
        ActionView::WritePrimary(text) => match fate.write {
            None => Some(
                (EventView::PrimaryWritten, Files { primary: text, backup: files.backup }),
            ),
            Some(d) => Some(
                (EventView::WriteFailed(d), Files { primary: fate.debris, backup: files.backup }),
            ),
        },
        ActionView::Reload => Some((EventView::ReloadFinished(fate.reload), files)),
        ActionView::RestoreFromBackup => Some(
            (
                EventView::RestoreFinished(fate.restore),
                if failure_of(fate.restore) is None {
                    Files { primary: files.backup, backup: files.backup }
                } else {
                    Files { primary: fate.debris, backup: files.backup }
                },
            ),
        ),
        ActionView::Finish { .. } => None,
    }
}

/// Runs the protocol against the files for at most `steps` steps: what the
/// mutation reports and what it leaves, or `None` where it has not finished
/// by then.
pub open spec fn run(
    state: MutationView,
    action: ActionView,
    files: Files,
    fate: Fate,
    steps: nat,
) -> Option<(Result<OutcomeView, MutationErrorView>, Files)>
    decreases steps,
{
    match action {
        ActionView::Finish { result, .. } => Some((result, files)),
        _ => match perform(action, files, fate) {
            Some((event, after)) => match next(state, event) {
                Some((state, action)) => if steps == 0 {
                    None
                } else {
                    run(state, action, after, fate, (steps - 1) as nat)
                },
                None => None,
            },
            None => None,
        },
    }
}

/// One whole mutation: from the request to its report.
pub open spec fn mutate(request: RequestView, files: Files, fate: Fate) -> Option<
    (Result<OutcomeView, MutationErrorView>, Files),
> {
    run(MutationView::Idle(request), ActionView::AcquireLock, files, fate, 6)
}

/// A mutation whose outside work all succeeds reports its outcome and leaves
/// the rewritten text in the pool file.
pub proof fn lemma_mutation_commits(request: RequestView, files: Files, fate: Fate)
    requires
        fate.lock is None,
        failure_of(fate.backup) is None,
        fate.write is None,
        failure_of(fate.reload) is None,
    ensures
        mutate(request, files, fate) matches Some((result, after)) && {
            &&& result == Ok::<OutcomeView, MutationErrorView>(
                outcome_of(request, takes_effect(request, files.primary)),
            )
            &&& after.primary == rewritten(request, files.primary)
        },
{
    reveal_with_fuel(run, 7);
}

/// A mutation whose reload fails reports the failure, and where the restore
/// succeeds the pool file holds again, byte for byte, what it held before.
pub proof fn lemma_failed_reload_rolls_back(request: RequestView, files: Files, fate: Fate)
    requires
        fate.lock is None,
        failure_of(fate.backup) is None,
        fate.write is None,
        failure_of(fate.reload) is Some,
    ensures
        mutate(request, files, fate) matches Some((result, after)) && match failure_of(
            fate.restore,
        ) {
            None => {
                &&& result == Err::<OutcomeView, MutationErrorView>(
                    MutationErrorView::ReloadFailed(failure_of(fate.reload)->Some_0),
                )
                &&& after.primary == files.primary
            },
            Some(d) => result == Err::<OutcomeView, MutationErrorView>(
                MutationErrorView::RestoreFailed(d),
            ),
        },
{
    reveal_with_fuel(run, 7);
}

/// A mutation that fails before it writes reports why and leaves the pool
/// file as it was; one whose write fails reports that.
pub proof fn lemma_early_failure_aborts(request: RequestView, files: Files, fate: Fate)
    requires
        fate.lock is Some || failure_of(fate.backup) is Some || fate.write is Some,
    ensures
        mutate(request, files, fate) matches Some((result, after)) && {
            if fate.lock is Some {
                &&& result == Err::<OutcomeView, MutationErrorView>(
                    MutationErrorView::LockError(fate.lock->Some_0),
                )
                &&& after == files
            } else if failure_of(fate.backup) is Some {
                &&& result == Err::<OutcomeView, MutationErrorView>(
                    MutationErrorView::BackupFailed(failure_of(fate.backup)->Some_0),
                )
                &&& after.primary == files.primary
            } else {
                result == Err::<OutcomeView, MutationErrorView>(
                    MutationErrorView::WriteFailed(fate.write->Some_0),
                )
            }
        },
{
    reveal_with_fuel(run, 7);
}

/// Every piece of outside work succeeds.
pub open spec fn all_goes_well(fate: Fate) -> bool {
    &&& fate.lock is None
    &&& failure_of(fate.backup) is None
    &&& fate.write is None
    &&& failure_of(fate.reload) is None
}

/// Removing an address that no line of the file names reports that nothing
/// was removed and changes no byte of the file.
pub proof fn lemma_remove_absent_changes_nothing(address: Seq<char>, files: Files, fate: Fate)
    requires
        all_goes_well(fate),
        !is_listed(pieces(files.primary), encode_utf8(address)),
    ensures
        mutate(RequestView::Remove { address }, files, fate) matches Some((result, after)) && {
            &&& result == Ok::<OutcomeView, MutationErrorView>(
                OutcomeView::Removed { removed: false },
            )
            &&& after.primary == files.primary
        },
{
    lemma_mutation_commits(RequestView::Remove { address }, files, fate);
    lemma_remove_absent_keeps_text(files.primary, encode_utf8(address));
}

/// Adding a server and then removing it leaves the file as it was, byte for
/// byte, where no line named the address before and the address holds no
/// line feed. The remove reports a removal exactly where the add found a
/// place.
pub proof fn lemma_add_then_remove_restores_file(
    address: Seq<char>,
    weight: u64,
    max_connections: u64,
    files: Files,
    first: Fate,
    second: Fate,
)
    requires
        all_goes_well(first),
        all_goes_well(second),
        !is_listed(pieces(files.primary), encode_utf8(address)),
        forall|j: int| 0 <= j < encode_utf8(address).len() ==> encode_utf8(address)[j] != 10u8,
    ensures
        mutate(RequestView::Add { address, weight, max_connections }, files, first) matches Some(
            (added_result, added),
        ) && mutate(RequestView::Remove { address }, added, second) matches Some(
            (removed_result, removed),
        ) && {
            let placed = has_anchor(pieces(files.primary), encode_utf8(address));
            &&& added_result == Ok::<OutcomeView, MutationErrorView>(
                OutcomeView::Added { address, weight, max_connections, inserted: placed },
            )
            &&& removed_result == Ok::<OutcomeView, MutationErrorView>(
                OutcomeView::Removed { removed: placed },
            )
            &&& removed.primary == files.primary
        },
{
    let add = RequestView::Add { address, weight, max_connections };
    lemma_mutation_commits(add, files, first);
    let added = mutate(add, files, first)->Some_0.1;
    lemma_mutation_commits(RequestView::Remove { address }, added, second);
    lemma_add_then_remove_text(files.primary, encode_utf8(address), weight, max_connections);
    if !has_anchor(pieces(files.primary), encode_utf8(address)) {
        lemma_add_without_place_keeps_text(
            files.primary,
            encode_utf8(address),
            weight,
            max_connections,
        );
    }
}

} // verus!
