//! The mutation protocol: one locked, backed-up, reloaded rewrite of the pool
//! file, as a machine that answers each outcome of outside work with the next
//! piece of outside work.
//!
//! The machine never touches a file or a process. Its caller performs each
//! [`Action`] and hands back what happened as an [`Event`].

use crate::pool_file::{
    add_to_text, has_anchor, is_listed, pieces, remove_from_text, text_with_server,
    text_without_server,
};
use vstd::prelude::*;
use vstd::utf8::encode_utf8;

verus! {

/// How a command that the caller ran for the machine ended.
#[derive(Debug, PartialEq, Eq)]
pub enum CommandOutcome {
    /// The command ran; `success` says whether it exited with status zero,
    /// `stderr` holds what it wrote to its error stream.
    Exited { success: bool, stderr: String },
    /// The command could not be started; `reason` says why.
    NotLaunched { reason: String },
}

pub enum CommandOutcomeView {
    Exited { success: bool, stderr: Seq<char> },
    NotLaunched { reason: Seq<char> },
}

impl View for CommandOutcome {
    type V = CommandOutcomeView;

    open spec fn view(&self) -> CommandOutcomeView {
        match *self {
            CommandOutcome::Exited { success, stderr } => CommandOutcomeView::Exited {
                success,
                stderr: stderr@,
            },
            CommandOutcome::NotLaunched { reason } => CommandOutcomeView::NotLaunched {
                reason: reason@,
            },
        }
    }
}

/// The diagnostic of a command that failed, `None` for one that succeeded. A
/// command fails when it exits with a status other than zero or cannot be
/// started.
pub open spec fn failure_of(outcome: CommandOutcomeView) -> Option<Seq<char>> {
    match outcome {
        CommandOutcomeView::Exited { success, stderr } => if success {
            None
        } else {
            Some(stderr)
        },
        CommandOutcomeView::NotLaunched { reason } => Some(reason),
    }
}

/// View of an optional diagnostic.
pub open spec fn diagnostic_view(diagnostic: Option<String>) -> Option<Seq<char>> {
    match diagnostic {
        Some(text) => Some(text@),
        None => None,
    }
}

/// Tells a failed command from one that succeeded, and keeps its diagnostic.
pub fn diagnose(outcome: CommandOutcome) -> (failure: Option<String>)
    ensures
        diagnostic_view(failure) == failure_of(outcome@),
{
    match outcome {
        CommandOutcome::Exited { success, stderr } => {
            if success {
                None
            } else {
                Some(stderr)
            }
        },
        CommandOutcome::NotLaunched { reason } => Some(reason),
    }
}

/// What a mutation is to do to the pool file.
#[derive(Debug, PartialEq, Eq)]
pub enum Request {
    /// Add a directive for `address` with the given weight and limit.
    Add { address: String, weight: u64, max_connections: u64 },
    /// Remove every line that names `address`.
    Remove { address: String },
}

pub enum RequestView {
    Add { address: Seq<char>, weight: u64, max_connections: u64 },
    Remove { address: Seq<char> },
}

impl View for Request {
    type V = RequestView;

    open spec fn view(&self) -> RequestView {
        match *self {
            Request::Add { address, weight, max_connections } => RequestView::Add {
                address: address@,
                weight,
                max_connections,
            },
            Request::Remove { address } => RequestView::Remove { address: address@ },
        }
    }
}

/// What a mutation that went through reports.
#[derive(Debug, PartialEq, Eq)]
pub enum Outcome {
    /// The add was carried out; `inserted` says whether the file had a place
    /// for the directive. Where it is `false` the file holds no new entry.
    Added { address: String, weight: u64, max_connections: u64, inserted: bool },
    /// The remove was carried out; `removed` says whether a line named the
    /// address.
    Removed { removed: bool },
}

pub enum OutcomeView {
    Added { address: Seq<char>, weight: u64, max_connections: u64, inserted: bool },
    Removed { removed: bool },
}

impl View for Outcome {
    type V = OutcomeView;

    open spec fn view(&self) -> OutcomeView {
        match *self {
            Outcome::Added { address, weight, max_connections, inserted } => OutcomeView::Added {
                address: address@,
                weight,
                max_connections,
                inserted,
            },
            Outcome::Removed { removed } => OutcomeView::Removed { removed },
        }
    }
}

/// Why a request was turned down or a mutation did not go through. The
/// variants that stand for failed outside work carry its diagnostic.
#[derive(Debug, PartialEq, Eq)]
pub enum MutationError {
    /// The address did not resolve to an IPv4 socket address.
    ValidationError,
    /// The declared capacity does not exceed the baseline.
    PolicyError,
    /// The exclusive lock on the pool file could not be taken.
    LockError(String),
    /// The pool file could not be copied to the backup path.
    BackupFailed(String),
    /// The new text could not be written to the pool file.
    WriteFailed(String),
    /// The reload failed and the pool file was restored from the backup.
    ReloadFailed(String),
    /// The reload failed and restoring the pool file failed too: the file
    /// may hold the new text, which nginx has not loaded.
    RestoreFailed(String),
}

pub enum MutationErrorView {
    ValidationError,
    PolicyError,
    LockError(Seq<char>),
    BackupFailed(Seq<char>),
    WriteFailed(Seq<char>),
    ReloadFailed(Seq<char>),
    RestoreFailed(Seq<char>),
}

impl View for MutationError {
    type V = MutationErrorView;

    open spec fn view(&self) -> MutationErrorView {
        match *self {
            MutationError::ValidationError => MutationErrorView::ValidationError,
            MutationError::PolicyError => MutationErrorView::PolicyError,
            MutationError::LockError(d) => MutationErrorView::LockError(d@),
            MutationError::BackupFailed(d) => MutationErrorView::BackupFailed(d@),
            MutationError::WriteFailed(d) => MutationErrorView::WriteFailed(d@),
            MutationError::ReloadFailed(d) => MutationErrorView::ReloadFailed(d@),
            MutationError::RestoreFailed(d) => MutationErrorView::RestoreFailed(d@),
        }
    }
}

/// View of a mutation's final result.
pub open spec fn result_view(result: Result<Outcome, MutationError>) -> Result<
    OutcomeView,
    MutationErrorView,
> {
    match result {
        Ok(outcome) => Ok(outcome@),
        Err(error) => Err(error@),
    }
}

/// What happened to the piece of outside work that the machine asked for.
#[derive(Debug, PartialEq, Eq)]
pub enum Event {
    /// The exclusive lock is held.
    LockAcquired,
    /// The lock could not be taken.
    LockFailed(String),
    /// The copy of the pool file to the backup path ended.
    BackupFinished(CommandOutcome),
    /// The pool file was read in full; these are its bytes.
    PrimaryRead(Vec<u8>),
    /// The pool file holds the text that was handed out for writing.
    PrimaryWritten,
    /// The text could not be written.
    WriteFailed(String),
    /// The reload command ended.
    ReloadFinished(CommandOutcome),
    /// Moving the backup over the pool file ended.
    RestoreFinished(CommandOutcome),
}

pub enum EventView {
    LockAcquired,
    LockFailed(Seq<char>),
    BackupFinished(CommandOutcomeView),
    PrimaryRead(Seq<u8>),
    PrimaryWritten,
    WriteFailed(Seq<char>),
    ReloadFinished(CommandOutcomeView),
    RestoreFinished(CommandOutcomeView),
}

impl View for Event {
    type V = EventView;

    open spec fn view(&self) -> EventView {
        match *self {
            Event::LockAcquired => EventView::LockAcquired,
            Event::LockFailed(d) => EventView::LockFailed(d@),
            Event::BackupFinished(o) => EventView::BackupFinished(o@),
            Event::PrimaryRead(text) => EventView::PrimaryRead(text@),
            Event::PrimaryWritten => EventView::PrimaryWritten,
            Event::WriteFailed(d) => EventView::WriteFailed(d@),
            Event::ReloadFinished(o) => EventView::ReloadFinished(o@),
            Event::RestoreFinished(o) => EventView::RestoreFinished(o@),
        }
    }
}

/// The next piece of outside work.
#[derive(Debug, PartialEq, Eq)]
pub enum Action {
    /// Take the exclusive lock on the pool file.
    AcquireLock,
    /// Copy the pool file to the backup path, over what is there.
    CopyToBackup,
    /// Read the pool file in full.
    ReadPrimary,
    /// Replace the contents of the pool file by these bytes.
    WritePrimary(Vec<u8>),
    /// Ask nginx to reload its configuration.
    Reload,
    /// Move the backup over the pool file.
    RestoreFromBackup,
    /// The mutation is over: release the lock where `release_lock` says so,
    /// without regard to whether that succeeds, and report `result`.
    Finish { release_lock: bool, result: Result<Outcome, MutationError> },
}

pub enum ActionView {
    AcquireLock,
    CopyToBackup,
    ReadPrimary,
    WritePrimary(Seq<u8>),
    Reload,
    RestoreFromBackup,
    Finish { release_lock: bool, result: Result<OutcomeView, MutationErrorView> },
}

impl View for Action {
    type V = ActionView;

    open spec fn view(&self) -> ActionView {
        match *self {
            Action::AcquireLock => ActionView::AcquireLock,
            Action::CopyToBackup => ActionView::CopyToBackup,
            Action::ReadPrimary => ActionView::ReadPrimary,
            Action::WritePrimary(text) => ActionView::WritePrimary(text@),
            Action::Reload => ActionView::Reload,
            Action::RestoreFromBackup => ActionView::RestoreFromBackup,
            Action::Finish { release_lock, result } => ActionView::Finish {
                release_lock,
                result: result_view(result),
            },
        }
    }
}

/// Where a mutation stands. Each state but the last four waits for the
/// outcome of one action.
#[derive(Debug, PartialEq, Eq)]
pub enum Mutation {
    /// Nothing is held yet; the lock was asked for.
    Idle(Request),
    /// The lock is held; the backup was asked for.
    Locked(Request),
    /// The backup holds the file as it was; its contents were asked for.
    BackedUp(Request),
    /// The new text was handed out for writing; the flag says whether it
    /// differs from the old by the request's entry.
    Rewriting(Request, bool),
    /// The file holds the new text; the reload was asked for.
    Rewritten(Request, bool),
    /// The reload failed with this diagnostic; the restore was asked for.
    Restoring(String),
    /// Over: nginx runs on the new text.
    Reloaded,
    /// Over: the reload failed and the file is as it was before.
    RolledBack,
    /// Over: the reload failed and the file could not be restored.
    Unrecoverable,
    /// Over: the lock, the backup or the write failed; no reload was tried.
    Aborted,
}

pub enum MutationView {
    Idle(RequestView),
    Locked(RequestView),
    BackedUp(RequestView),
    Rewriting(RequestView, bool),
    Rewritten(RequestView, bool),
    Restoring(Seq<char>),
    Reloaded,
    RolledBack,
    Unrecoverable,
    Aborted,
}

impl View for Mutation {
    type V = MutationView;

    open spec fn view(&self) -> MutationView {
        match *self {
            Mutation::Idle(r) => MutationView::Idle(r@),
            Mutation::Locked(r) => MutationView::Locked(r@),
            Mutation::BackedUp(r) => MutationView::BackedUp(r@),
            Mutation::Rewriting(r, changed) => MutationView::Rewriting(r@, changed),
            Mutation::Rewritten(r, changed) => MutationView::Rewritten(r@, changed),
            Mutation::Restoring(d) => MutationView::Restoring(d@),
            Mutation::Reloaded => MutationView::Reloaded,
            Mutation::RolledBack => MutationView::RolledBack,
            Mutation::Unrecoverable => MutationView::Unrecoverable,
            Mutation::Aborted => MutationView::Aborted,
        }
    }
}

/// The address of a request as the bytes that stand in the pool file.
pub open spec fn address_bytes(request: RequestView) -> Seq<u8> {
    match request {
        RequestView::Add { address, .. } => encode_utf8(address),
        RequestView::Remove { address } => encode_utf8(address),
    }
}

/// The text that a request makes of the pool file's text.
pub open spec fn rewritten(request: RequestView, text: Seq<u8>) -> Seq<u8> {
    match request {
        RequestView::Add { address, weight, max_connections } => text_with_server(
            text,
            encode_utf8(address),
            weight,
            max_connections,
        ),
        RequestView::Remove { address } => text_without_server(text, encode_utf8(address)),
    }
}

/// Whether a request finds its entry in the text: for an add, a place to put
/// the directive; for a remove, a line to take out.
pub open spec fn takes_effect(request: RequestView, text: Seq<u8>) -> bool {
    match request {
        RequestView::Add { address, .. } => has_anchor(pieces(text), encode_utf8(address)),
        RequestView::Remove { address } => is_listed(pieces(text), encode_utf8(address)),
    }
}

/// What a request reports once nginx runs on the new text.
pub open spec fn outcome_of(request: RequestView, changed: bool) -> OutcomeView {
    match request {
        RequestView::Add { address, weight, max_connections } => OutcomeView::Added {
            address,
            weight,
            max_connections,
            inserted: changed,
        },
        RequestView::Remove { .. } => OutcomeView::Removed { removed: changed },
    }
}

/// The end of a mutation that failed: the lock is released where it was
/// taken, and the error is reported.
pub open spec fn failed(lock_held: bool, error: MutationErrorView) -> ActionView {
    ActionView::Finish { release_lock: lock_held, result: Err(error) }
}

/// The protocol. For a state and the event that answers the action it waits
/// for, the next state and the next action; `None` for an event that the
/// state does not wait for.
pub open spec fn next(state: MutationView, event: EventView) -> Option<(MutationView, ActionView)> {
    match (state, event) {
        (MutationView::Idle(request), EventView::LockAcquired) => Some(
            (MutationView::Locked(request), ActionView::CopyToBackup),
        ),
        (MutationView::Idle(_), EventView::LockFailed(d)) => Some(
            (MutationView::Aborted, failed(false, MutationErrorView::LockError(d))),
        ),
        (MutationView::Locked(request), EventView::BackupFinished(outcome)) => match failure_of(
            outcome,
        ) {
            None => Some((MutationView::BackedUp(request), ActionView::ReadPrimary)),
            Some(d) => Some(
                (MutationView::Aborted, failed(true, MutationErrorView::BackupFailed(d))),
            ),
        },
        (MutationView::BackedUp(request), EventView::PrimaryRead(text)) => Some(
            (
                MutationView::Rewriting(request, takes_effect(request, text)),
                ActionView::WritePrimary(rewritten(request, text)),
            ),
        ),
        (MutationView::Rewriting(request, changed), EventView::PrimaryWritten) => Some(
            (MutationView::Rewritten(request, changed), ActionView::Reload),
        ),
        (MutationView::Rewriting(_, _), EventView::WriteFailed(d)) => Some(
            (MutationView::Aborted, failed(true, MutationErrorView::WriteFailed(d))),
        ),
        (MutationView::Rewritten(request, changed), EventView::ReloadFinished(outcome)) => {
            match failure_of(outcome) {
                None => Some(
                    (
                        MutationView::Reloaded,
                        ActionView::Finish {
                            release_lock: true,
                            result: Ok(outcome_of(request, changed)),
                        },
                    ),
                ),
                Some(d) => Some((MutationView::Restoring(d), ActionView::RestoreFromBackup)),
            }
        },
        (MutationView::Restoring(reload), EventView::RestoreFinished(outcome)) => {
            match failure_of(outcome) {
                None => Some(
                    (
                        MutationView::RolledBack,
                        failed(true, MutationErrorView::ReloadFailed(reload)),
                    ),
                ),
                Some(d) => Some(
                    (
                        MutationView::Unrecoverable,
                        failed(true, MutationErrorView::RestoreFailed(d)),
                    ),
                ),
            }
        },
        _ => None,
    }
}

/// Whether the mutation is over: no event is waited for.
pub open spec fn is_over(state: MutationView) -> bool {
    state is Reloaded || state is RolledBack || state is Unrecoverable || state is Aborted
}

/// View of what a step gives.
pub open spec fn step_view(step: Option<(Mutation, Action)>) -> Option<(MutationView, ActionView)> {
    match step {
        Some((state, action)) => Some((state@, action@)),
        None => None,
    }
}

/// Applies a request to the text of the pool file: the new text, and
/// whether the request found its entry.
pub fn rewrite(request: &Request, text: &[u8]) -> (out: (Vec<u8>, bool))
    ensures
        out.0@ == rewritten(request@, text@),
        out.1 == takes_effect(request@, text@),
{
    match request {
        Request::Add { address, weight, max_connections } => add_to_text(
            text,
            address.as_str().as_bytes(),
            *weight,
            *max_connections,
        ),
        Request::Remove { address } => remove_from_text(text, address.as_str().as_bytes()),
    }
}

/// What a request reports once nginx runs on the new text.
pub fn conclude(request: Request, changed: bool) -> (outcome: Outcome)
    ensures
        outcome@ == outcome_of(request@, changed),
{
    match request {
        Request::Add { address, weight, max_connections } => Outcome::Added {
            address,
            weight,
            max_connections,
            inserted: changed,
        },
        Request::Remove { address: _ } => Outcome::Removed { removed: changed },
    }
}

impl Mutation {
    /// Opens a mutation: the machine waits for the lock.
    pub fn start(request: Request) -> (begun: (Mutation, Action))
        ensures
            begun.0@ == MutationView::Idle(request@),
            begun.1@ == ActionView::AcquireLock,
    {
        (Mutation::Idle(request), Action::AcquireLock)
    }

    /// Answers an event with the next state and action, as the protocol
    /// says; `None` for an event that this state does not wait for.
    pub fn step(self, event: Event) -> (stepped: Option<(Mutation, Action)>)
        ensures
            step_view(stepped) == next(self@, event@),
    {
        match self {
            Mutation::Idle(request) => match event {
                Event::LockAcquired => Some((Mutation::Locked(request), Action::CopyToBackup)),
                Event::LockFailed(d) => Some(
                    (
                        Mutation::Aborted,
                        Action::Finish {
                            release_lock: false,
                            result: Err(MutationError::LockError(d)),
                        },
                    ),
                ),
                _ => None,
            },
            Mutation::Locked(request) => match event {
                Event::BackupFinished(outcome) => match diagnose(outcome) {
                    None => Some((Mutation::BackedUp(request), Action::ReadPrimary)),
                    Some(d) => Some(
                        (
                            Mutation::Aborted,
                            Action::Finish {
                                release_lock: true,
                                result: Err(MutationError::BackupFailed(d)),
                            },
                        ),
                    ),
                },
                _ => None,
            },
            Mutation::BackedUp(request) => match event {
                Event::PrimaryRead(text) => {
                    let (new_text, changed) = rewrite(&request, text.as_slice());
                    Some((Mutation::Rewriting(request, changed), Action::WritePrimary(new_text)))
                },
                _ => None,
            },
            Mutation::Rewriting(request, changed) => match event {
                Event::PrimaryWritten => Some(
                    (Mutation::Rewritten(request, changed), Action::Reload),
                ),
                Event::WriteFailed(d) => Some(
                    (
                        Mutation::Aborted,
                        Action::Finish {
                            release_lock: true,
                            result: Err(MutationError::WriteFailed(d)),
                        },
                    ),
                ),
                _ => None,
            },
            Mutation::Rewritten(request, changed) => match event {
                Event::ReloadFinished(outcome) => match diagnose(outcome) {
                    None => Some(
                        (
                            Mutation::Reloaded,
                            Action::Finish {
                                release_lock: true,
                                result: Ok(conclude(request, changed)),
                            },
                        ),
                    ),
                    Some(d) => Some((Mutation::Restoring(d), Action::RestoreFromBackup)),
                },
                _ => None,
            },
            Mutation::Restoring(reload) => match event {
                Event::RestoreFinished(outcome) => match diagnose(outcome) {
                    None => Some(
                        (
                            Mutation::RolledBack,
                            Action::Finish {
                                release_lock: true,
                                result: Err(MutationError::ReloadFailed(reload)),
                            },
                        ),
                    ),
                    Some(d) => Some(
                        (
                            Mutation::Unrecoverable,
                            Action::Finish {
                                release_lock: true,
                                result: Err(MutationError::RestoreFailed(d)),
                            },
                        ),
                    ),
                },
                _ => None,
            },
            _ => None,
        }
    }
}

} // verus!
