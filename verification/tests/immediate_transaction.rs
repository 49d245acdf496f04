use tavily_hikari::sqlite_tx::{
    ImmediateTransactionAction, ImmediateTransactionEvent, ImmediateTransactionPhase, TransactionStatement,
    immediate_transaction_start, immediate_transaction_step,
};

use ImmediateTransactionAction as A;
use ImmediateTransactionEvent as E;
use ImmediateTransactionPhase as P;

fn run(events: &[E]) -> (P, Vec<A>) {
    let (mut phase, first) = immediate_transaction_start();
    let mut actions = vec![first];
    for event in events {
        let (next, action) = immediate_transaction_step(phase, *event);
        phase = next;
        actions.push(action);
    }
    (phase, actions)
}

#[test]
fn committed_transaction_returns_its_connection() {
    let (phase, actions) = run(&[E::StatementSucceeded, E::CommitRequested, E::StatementSucceeded]);
    assert_eq!(phase, P::Released);
    assert_eq!(
        actions,
        vec![
            A::Run(TransactionStatement::BeginImmediate),
            A::Nothing,
            A::Run(TransactionStatement::Commit),
            A::ReleaseConnection
        ]
    );
    assert_eq!(TransactionStatement::BeginImmediate.sql(), "BEGIN IMMEDIATE");
}

#[test]
fn failed_begin_rolls_back_and_closes() {
    let (phase, actions) = run(&[E::StatementFailed, E::StatementFailed]);
    assert_eq!(phase, P::Closed);
    assert_eq!(actions[1], A::Run(TransactionStatement::Rollback));
    assert_eq!(actions[2], A::CloseConnection);
}

#[test]
fn failed_commit_never_releases_the_connection() {
    let (phase, actions) = run(&[
        E::StatementSucceeded,
        E::CommitRequested,
        E::StatementFailed,
        E::StatementSucceeded,
        E::StatementSucceeded,
    ]);
    assert_eq!(phase, P::Closed);
    assert!(!actions.contains(&A::ReleaseConnection));
}

#[test]
fn dropped_transaction_is_detached() {
    let (phase, actions) = run(&[E::StatementSucceeded, E::Dropped]);
    assert_eq!(phase, P::Closed);
    assert_eq!(actions[2], A::DetachConnection);
    let (after, action) = immediate_transaction_step(P::Released, E::Dropped);
    assert_eq!((after, action), (P::Released, A::Nothing));
}

#[test]
fn requested_rollback_closes_the_connection() {
    let (phase, actions) = run(&[E::StatementSucceeded, E::RollbackRequested, E::StatementSucceeded]);
    assert_eq!(phase, P::Closed);
    assert_eq!(actions[2], A::Run(TransactionStatement::Rollback));
    assert_eq!(actions[3], A::CloseConnection);
}
