//! The life of a raw `BEGIN IMMEDIATE` transaction on a pooled SQLite
//! connection: which statement runs next and what becomes of the connection,
//! so that a connection left inside a transaction never goes back to the
//! shared pool.

use vstd::prelude::*;

verus! {

/// Where the transaction stands.
#[derive(Debug, Clone, Copy, PartialEq, Eq, Structural)]
pub enum ImmediateTransactionPhase {
    /// `BEGIN IMMEDIATE` is running.
    Beginning,
    /// The transaction is open on its connection.
    Open,
    /// `COMMIT` is running.
    Committing,
    /// `ROLLBACK` is running after `BEGIN` or `COMMIT` failed.
    Aborting,
    /// `ROLLBACK` is running because the owner asked for it.
    RollingBack,
    /// The connection went back to the owner after a successful commit.
    Released,
    /// The connection was closed or detached; it never returns to the pool.
    Closed,
}

/// What happened to the transaction.
#[derive(Debug, Clone, Copy, PartialEq, Eq, Structural)]
pub enum ImmediateTransactionEvent {
    /// The running statement succeeded.
    StatementSucceeded,
    /// The running statement failed.
    StatementFailed,
    /// The owner asked to commit.
    CommitRequested,
    /// The owner asked to roll back.
    RollbackRequested,
    /// The owner dropped the transaction.
    Dropped,
}

/// The statements the transaction runs.
#[derive(Debug, Clone, Copy, PartialEq, Eq, Structural)]
pub enum TransactionStatement {
    BeginImmediate,
    Commit,
    Rollback,
}

impl TransactionStatement {
    /// The SQL text of the statement.
    pub fn sql(self) -> (s: &'static str)
        ensures
            s@ == (match self {
                TransactionStatement::BeginImmediate => "BEGIN IMMEDIATE"@,
                TransactionStatement::Commit => "COMMIT"@,
                TransactionStatement::Rollback => "ROLLBACK"@,
            }),
    {
        match self {
            TransactionStatement::BeginImmediate => "BEGIN IMMEDIATE",
            TransactionStatement::Commit => "COMMIT",
            TransactionStatement::Rollback => "ROLLBACK",
        }
    }
}

/// A new transaction starts by running `BEGIN IMMEDIATE`.
pub fn immediate_transaction_start() -> (r: (ImmediateTransactionPhase, ImmediateTransactionAction))
    ensures
        r == (ImmediateTransactionPhase::Beginning, ImmediateTransactionAction::Run(TransactionStatement::BeginImmediate)),
{
    (ImmediateTransactionPhase::Beginning, ImmediateTransactionAction::Run(TransactionStatement::BeginImmediate))
}

/// What the driver must do next.
#[derive(Debug, Clone, Copy, PartialEq, Eq, Structural)]
pub enum ImmediateTransactionAction {
    /// Run this statement on the connection.
    Run(TransactionStatement),
    /// Hand the connection back to the owner.
    ReleaseConnection,
    /// Detach the connection from the pool and close it.
    CloseConnection,
    /// Detach the connection from the pool without waiting for it to close.
    DetachConnection,
    /// Nothing to do.
    Nothing,
}

/// The transition function of the transaction.
pub open spec fn transaction_step(
    phase: ImmediateTransactionPhase,
    event: ImmediateTransactionEvent,
) -> (ImmediateTransactionPhase, ImmediateTransactionAction) {
    match (phase, event) {
        (ImmediateTransactionPhase::Released, _) | (ImmediateTransactionPhase::Closed, _) =>
            (phase, ImmediateTransactionAction::Nothing),
        (_, ImmediateTransactionEvent::Dropped) =>
            (ImmediateTransactionPhase::Closed, ImmediateTransactionAction::DetachConnection),
        (ImmediateTransactionPhase::Beginning, ImmediateTransactionEvent::StatementSucceeded) =>
            (ImmediateTransactionPhase::Open, ImmediateTransactionAction::Nothing),
        (ImmediateTransactionPhase::Beginning, ImmediateTransactionEvent::StatementFailed) =>
            (ImmediateTransactionPhase::Aborting, ImmediateTransactionAction::Run(TransactionStatement::Rollback)),
        (ImmediateTransactionPhase::Open, ImmediateTransactionEvent::CommitRequested) =>
            (ImmediateTransactionPhase::Committing, ImmediateTransactionAction::Run(TransactionStatement::Commit)),
        (ImmediateTransactionPhase::Open, ImmediateTransactionEvent::RollbackRequested) =>
            (ImmediateTransactionPhase::RollingBack, ImmediateTransactionAction::Run(TransactionStatement::Rollback)),
        (ImmediateTransactionPhase::Committing, ImmediateTransactionEvent::StatementSucceeded) =>
            (ImmediateTransactionPhase::Released, ImmediateTransactionAction::ReleaseConnection),
        (ImmediateTransactionPhase::Committing, ImmediateTransactionEvent::StatementFailed) =>
            (ImmediateTransactionPhase::Aborting, ImmediateTransactionAction::Run(TransactionStatement::Rollback)),
        (ImmediateTransactionPhase::Aborting, ImmediateTransactionEvent::StatementSucceeded)
        | (ImmediateTransactionPhase::Aborting, ImmediateTransactionEvent::StatementFailed)
        | (ImmediateTransactionPhase::RollingBack, ImmediateTransactionEvent::StatementSucceeded)
        | (ImmediateTransactionPhase::RollingBack, ImmediateTransactionEvent::StatementFailed) =>
            (ImmediateTransactionPhase::Closed, ImmediateTransactionAction::CloseConnection),
        _ => (phase, ImmediateTransactionAction::Nothing),
    }
}

/// The phases in which the transaction's connection can still reach the
/// owner: a failure on the way excludes it.
pub open spec fn may_still_release(phase: ImmediateTransactionPhase) -> bool {
    phase is Beginning || phase is Open || phase is Committing || phase is Released
}

/// The transaction's phase and the driver's action after `event`.
pub fn immediate_transaction_step(
    phase: ImmediateTransactionPhase,
    event: ImmediateTransactionEvent,
) -> (r: (ImmediateTransactionPhase, ImmediateTransactionAction))
    ensures
        r == transaction_step(phase, event),
{
    match (phase, event) {
        (ImmediateTransactionPhase::Released, _) | (ImmediateTransactionPhase::Closed, _) =>
            (phase, ImmediateTransactionAction::Nothing),
        (_, ImmediateTransactionEvent::Dropped) =>
            (ImmediateTransactionPhase::Closed, ImmediateTransactionAction::DetachConnection),
        (ImmediateTransactionPhase::Beginning, ImmediateTransactionEvent::StatementSucceeded) =>
            (ImmediateTransactionPhase::Open, ImmediateTransactionAction::Nothing),
        (ImmediateTransactionPhase::Beginning, ImmediateTransactionEvent::StatementFailed) =>
            (ImmediateTransactionPhase::Aborting, ImmediateTransactionAction::Run(TransactionStatement::Rollback)),
        (ImmediateTransactionPhase::Open, ImmediateTransactionEvent::CommitRequested) =>
            (ImmediateTransactionPhase::Committing, ImmediateTransactionAction::Run(TransactionStatement::Commit)),
        (ImmediateTransactionPhase::Open, ImmediateTransactionEvent::RollbackRequested) =>
            (ImmediateTransactionPhase::RollingBack, ImmediateTransactionAction::Run(TransactionStatement::Rollback)),
        (ImmediateTransactionPhase::Committing, ImmediateTransactionEvent::StatementSucceeded) =>
            (ImmediateTransactionPhase::Released, ImmediateTransactionAction::ReleaseConnection),
        (ImmediateTransactionPhase::Committing, ImmediateTransactionEvent::StatementFailed) =>
            (ImmediateTransactionPhase::Aborting, ImmediateTransactionAction::Run(TransactionStatement::Rollback)),
        (ImmediateTransactionPhase::Aborting, ImmediateTransactionEvent::StatementSucceeded)
        | (ImmediateTransactionPhase::Aborting, ImmediateTransactionEvent::StatementFailed)
        | (ImmediateTransactionPhase::RollingBack, ImmediateTransactionEvent::StatementSucceeded)
        | (ImmediateTransactionPhase::RollingBack, ImmediateTransactionEvent::StatementFailed) =>
            (ImmediateTransactionPhase::Closed, ImmediateTransactionAction::CloseConnection),
        _ => (phase, ImmediateTransactionAction::Nothing),
    }
}

/// The phase after a sequence of events.
pub open spec fn transaction_run(
    phase: ImmediateTransactionPhase,
    events: Seq<ImmediateTransactionEvent>,
) -> ImmediateTransactionPhase
    decreases events.len(),
{
    if events.len() == 0 {
        phase
    } else {
        transaction_run(transaction_step(phase, events[0]).0, events.drop_first())
    }
}

/// The connection goes back to its owner only as the result of a
/// successful `COMMIT`.
pub proof fn lemma_release_only_after_commit(
    phase: ImmediateTransactionPhase,
    event: ImmediateTransactionEvent,
)
    ensures
        transaction_step(phase, event).1 == ImmediateTransactionAction::ReleaseConnection
            ==> phase == ImmediateTransactionPhase::Committing
                && event == ImmediateTransactionEvent::StatementSucceeded,
{
}

/// Once a statement of the transaction failed, or the owner rolled back or
/// dropped it, no later event hands the connection back: it can only end
/// closed.
pub proof fn lemma_failed_transaction_never_released(
    phase: ImmediateTransactionPhase,
    events: Seq<ImmediateTransactionEvent>,
)
    requires
        !may_still_release(phase),
    ensures
        !may_still_release(transaction_run(phase, events)),
        transaction_run(phase, events) != ImmediateTransactionPhase::Released,
    decreases events.len(),
{
    if events.len() > 0 {
        lemma_failed_transaction_never_released(transaction_step(phase, events[0]).0, events.drop_first());
    }
}

/// Once released or closed, the transaction stays so whatever happens.
pub proof fn lemma_finished_transaction_is_final(
    phase: ImmediateTransactionPhase,
    events: Seq<ImmediateTransactionEvent>,
)
    requires
        phase is Released || phase is Closed,
    ensures
        transaction_run(phase, events) == phase,
    decreases events.len(),
{
    if events.len() > 0 {
        lemma_finished_transaction_is_final(phase, events.drop_first());
    }
}

} // verus!
