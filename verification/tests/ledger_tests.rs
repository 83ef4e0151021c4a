use cephalopod::Account;
use cephalopod::CephalopodError;
use cephalopod::IntegrityError;
use cephalopod::Money;
use cephalopod::State;
use cephalopod::Transaction;
use cephalopod::TransactionError;
use cephalopod::TransactionType;

// runs all transactions and returns the final state and the Result of the last one
// fails if one of previous transactions fails
fn run_transactions(txs: Vec<Transaction>) -> (State, Result<(), CephalopodError>) {
    let mut state = State::new();
    let mut last: Result<(), CephalopodError> = Ok(());
    for t in &txs {
        if let Err(e) = last {
            panic!("a transaction before the last one failed: {:?}", e);
        }
        last = state.apply_transaction(t);
    }
    (state, last)
}

// creates Money with value amount * 0.01
fn dec(amount: i64) -> Money {
    Money::from_units((amount as i128) * 100)
}

fn tx0(tpe: TransactionType, client: u16, tx: u32) -> Transaction {
    Transaction {
        tpe,
        client,
        tx,
        amount: None,
    }
}

fn tx(tpe: TransactionType, client: u16, tx: u32, amount: i64) -> Transaction {
    Transaction {
        tpe,
        client,
        tx,
        amount: Some(dec(amount)),
    }
}

#[test]
fn withdrawals_and_deposits_should_work() {
    let sequence: Vec<i64> = vec![100, 200, -190, 1000, -800, -20, 200, -490];

    let (state, _) = run_transactions(
        sequence
            .iter()
            .enumerate()
            .map(|(i, am)| -> Transaction {
                if *am < 0 {
                    tx(TransactionType::Withdrawal, 1, i as u32, -*am)
                } else {
                    tx(TransactionType::Deposit, 1, i as u32, *am)
                }
            })
            .collect(),
    );

    assert_eq!(
        state.get_client(1).map(|acc| acc.available),
        Some(dec(sequence.iter().sum()))
    );
}

#[test]
fn empty_amount_deposits_withdrawals_should_fail() {
    for tpe in vec![TransactionType::Deposit, TransactionType::Withdrawal] {
        let (_, res) = run_transactions(vec![
            tx(TransactionType::Deposit, 1, 1, 100),
            tx0(tpe, 1, 2),
        ]);
        assert!(matches!(res, Err(CephalopodError::TransactionError { .. })));
    }
}

#[test]
fn negative_amount_deposits_withdrawals_should_fail() {
    for tpe in vec![TransactionType::Deposit, TransactionType::Withdrawal] {
        let (_, res) = run_transactions(vec![
            tx(TransactionType::Deposit, 1, 1, 100),
            tx(tpe, 1, 2, -20),
        ]);
        assert!(matches!(res, Err(CephalopodError::TransactionError { .. })));
    }
}

#[test]
fn withdrawal_should_fail_for_unknown_account() {
    let (_, res) = run_transactions(vec![tx(TransactionType::Withdrawal, 1, 1, 100)]);

    assert!(matches!(
        res,
        Err(CephalopodError::TransactionError {
            error: TransactionError::UnknownAccount { .. },
            ..
        })
    ))
}

#[test]
fn withdrawal_should_fail_on_low_funds() {
    let (state, res) = run_transactions(vec![
        tx(TransactionType::Deposit, 1, 1, 50),
        tx(TransactionType::Withdrawal, 1, 2, 100),
    ]);

    println!("{:?}", state.get_client(1));
    assert!(matches!(
        res,
        Err(CephalopodError::TransactionError {
            error: TransactionError::NotEnoughFunds { .. },
            ..
        })
    ))
}

#[test]
fn dispute_resolve_should_work() {
    let (state, res) = run_transactions(vec![
        tx(TransactionType::Deposit, 1, 1, 100),
        tx(TransactionType::Withdrawal, 1, 2, 50),
        tx(TransactionType::Deposit, 1, 3, 50),
        tx0(TransactionType::Dispute, 1, 1),
        tx0(TransactionType::Resolve, 1, 1),
    ]);

    assert!(matches!(res, Ok(..)));
    assert!(matches!(
        state.get_client(1),
        Some(Account { available, held, locked: false })
            if available == dec(100) && held == Money::zero()
    ));
}

#[test]
fn dispute_chargeback_should_work() {
    let (state, res) = run_transactions(vec![
        tx(TransactionType::Deposit, 1, 1, 100),
        tx(TransactionType::Withdrawal, 1, 2, 50),
        tx(TransactionType::Deposit, 1, 3, 50),
        tx0(TransactionType::Dispute, 1, 1),
        tx0(TransactionType::Chargeback, 1, 1),
    ]);

    assert!(matches!(res, Ok(..)));
    assert!(matches!(
        state.get_client(1),
        Some(Account { available, held, locked: true })
            if available == Money::zero() && held == Money::zero()
    ));
}

#[test]
fn dispute_alikes_should_fail_for_unknown_transaction() {
    for tpe in vec![
        TransactionType::Dispute,
        TransactionType::Resolve,
        TransactionType::Chargeback,
    ] {
        let (_, res) = run_transactions(vec![tx0(tpe, 1, 7)]);

        assert!(matches!(
            res,
            Err(CephalopodError::TransactionError {
                error: TransactionError::TransactionNotFound { .. },
                ..
            })
        ))
    }
}

#[test]
fn dispute_should_fail_when_not_enough_funds() {
    let (state, res) = run_transactions(vec![
        tx(TransactionType::Deposit, 1, 1, 100),
        tx(TransactionType::Withdrawal, 1, 2, 50),
        tx0(TransactionType::Dispute, 1, 1),
    ]);

    assert!(matches!(
        res,
        Err(CephalopodError::TransactionError {
            error: TransactionError::NotEnoughFunds { .. },
            ..
        })
    ));
    assert!(matches!(
        state.get_client(1),
        Some(Account { available, held, locked: false })
            if available == dec(50) && held == Money::zero()
    ));
}

#[test]
fn dispute_should_fail_for_withdrawal() {
    let (state, res) = run_transactions(vec![
        tx(TransactionType::Deposit, 1, 1, 100),
        tx(TransactionType::Withdrawal, 1, 2, 50),
        tx0(TransactionType::Dispute, 1, 2),
    ]);

    assert!(matches!(
        res,
        Err(CephalopodError::TransactionError {
            error: TransactionError::TransactionInvalidState { .. },
            ..
        })
    ));
    assert!(matches!(
        state.get_client(1),
        Some(Account { available, held, locked: false })
            if available == dec(50) && held == Money::zero()
    ));
}

#[test]
fn resolve_and_chargeback_should_fail_without_dispute() {
    for tpe in vec![TransactionType::Resolve, TransactionType::Chargeback] {
        let (state, res) = run_transactions(vec![
            tx(TransactionType::Deposit, 1, 1, 100),
            tx0(tpe, 1, 1),
        ]);

        assert!(matches!(
            res,
            Err(CephalopodError::TransactionError {
                error: TransactionError::TransactionInvalidState { .. },
                ..
            })
        ));
        assert!(matches!(
            state.get_client(1),
            Some(Account { available, held, locked: false })
                if available == dec(100) && held == Money::zero()
        ));
    }
}

#[test]
fn dispute_should_fail_for_client_id_mismatch() {
    let (state, res) = run_transactions(vec![
        tx(TransactionType::Deposit, 1, 1, 100),
        tx(TransactionType::Deposit, 2, 2, 200),
        tx0(TransactionType::Dispute, 2, 1),
    ]);

    assert!(matches!(
        res,
        Err(CephalopodError::TransactionError {
            error: TransactionError::TransactionClientMismatch { .. },
            ..
        })
    ));
    assert!(matches!(
        state.get_client(1),
        Some(Account { available, held, locked: false })
            if available == dec(100) && held == Money::zero()
    ));
}

#[test]
fn resolve_chargeback_should_fail_for_client_id_mismatch() {
    for tpe in vec![TransactionType::Resolve, TransactionType::Chargeback] {
        let (state, res) = run_transactions(vec![
            tx(TransactionType::Deposit, 1, 1, 100),
            tx(TransactionType::Deposit, 2, 2, 200),
            tx0(TransactionType::Dispute, 1, 1),
            tx0(tpe, 2, 1),
        ]);

        assert!(matches!(
            res,
            Err(CephalopodError::TransactionError {
                error: TransactionError::TransactionClientMismatch { .. },
                ..
            })
        ));
        assert!(matches!(
            state.get_client(1),
            Some(Account { available, held, locked: false })
                if available == Money::zero() && held == dec(100)
        ));
    }
}

#[test]
fn transactions_cannot_be_applied_to_locked_account() {
    let initial = vec![
        tx(TransactionType::Deposit, 1, 1, 110),
        tx(TransactionType::Deposit, 1, 2, 120),
        tx(TransactionType::Deposit, 1, 3, 130),
        tx0(TransactionType::Dispute, 1, 1),
        tx0(TransactionType::Dispute, 1, 2),
        tx0(TransactionType::Chargeback, 1, 1),
    ];

    let next_txs = vec![
        tx(TransactionType::Deposit, 1, 4, 10),
        tx(TransactionType::Withdrawal, 1, 4, 10),
        tx(TransactionType::Dispute, 1, 3, 100),
        tx(TransactionType::Resolve, 1, 2, 100),
        tx(TransactionType::Chargeback, 1, 2, 100),
    ];

    for next in next_txs {
        let (state, res) =
            run_transactions(initial.iter().chain(vec![next].iter()).cloned().collect());

        assert!(matches!(
            res,
            Err(CephalopodError::TransactionError {
                error: TransactionError::AccountLocked { .. },
                ..
            })
        ));
        assert!(matches!(
            state.get_client(1),
            Some(Account { available, held, locked: true })
                if available == dec(130) && held == dec(120)
        ));
    }
}

#[test]
fn redisputing_a_settled_transaction_should_fail() {
    let (state, res) = run_transactions(vec![
        tx(TransactionType::Deposit, 1, 1, 100),
        tx0(TransactionType::Dispute, 1, 1),
        tx0(TransactionType::Resolve, 1, 1),
        tx0(TransactionType::Dispute, 1, 1),
    ]);

    assert!(matches!(
        res,
        Err(CephalopodError::TransactionError {
            error: TransactionError::TransactionInvalidState { .. },
            ..
        })
    ));
    assert!(matches!(
        state.get_client(1),
        Some(Account { available, held, locked: false })
            if available == dec(100) && held == Money::zero()
    ));
}

#[test]
fn missing_amount_reports_amount_not_provided() {
    let (state, res) = run_transactions(vec![tx0(TransactionType::Deposit, 1, 1)]);

    assert!(matches!(
        res,
        Err(CephalopodError::TransactionError {
            error: TransactionError::AmountNotProvided,
            ..
        })
    ));
    // the failed deposit still created an empty account for the client
    assert!(matches!(
        state.get_client(1),
        Some(Account { available, held, locked: false })
            if available == Money::zero() && held == Money::zero()
    ));
}

#[test]
fn negative_amount_reports_negative_amount_provided() {
    let (_, res) = run_transactions(vec![
        tx(TransactionType::Deposit, 1, 1, 100),
        tx(TransactionType::Withdrawal, 1, 2, -20),
    ]);

    assert!(matches!(
        res,
        Err(CephalopodError::TransactionError {
            error: TransactionError::NegativeAmountProvided { .. },
            ..
        })
    ));
}

#[test]
fn deposit_overflow_escalates_to_integrity_error() {
    let mut state = State::new();
    let first = Transaction {
        tpe: TransactionType::Deposit,
        client: 1,
        tx: 1,
        amount: Some(Money::from_units(i128::MAX)),
    };
    assert!(state.apply_transaction(&first).is_ok());
    let second = Transaction {
        tpe: TransactionType::Deposit,
        client: 1,
        tx: 2,
        amount: Some(Money::from_units(1)),
    };
    let res = state.apply_transaction(&second);
    assert!(matches!(
        res,
        Err(CephalopodError::IntegrityError {
            error: IntegrityError::UnexpectedAccountError { .. },
            ..
        })
    ));
    // the failed deposit left the balance untouched
    assert_eq!(
        state.get_client(1).map(|acc| acc.available),
        Some(Money::from_units(i128::MAX))
    );
}

#[test]
fn unknown_client_has_no_account() {
    let (state, res) = run_transactions(vec![tx(TransactionType::Deposit, 1, 1, 100)]);

    assert!(res.is_ok());
    assert!(state.get_client(2).is_none());
}

#[test]
fn iter_clients_lists_every_account_once() {
    let (state, res) = run_transactions(vec![
        tx(TransactionType::Deposit, 7, 1, 100),
        tx(TransactionType::Deposit, 3, 2, 200),
        tx(TransactionType::Deposit, 7, 3, 50),
    ]);

    assert!(res.is_ok());
    let rows = state.iter_clients();
    assert_eq!(rows.len(), 2);
    assert_eq!(rows[0].0, 7);
    assert_eq!(rows[0].1.available, dec(150));
    assert_eq!(rows[1].0, 3);
    assert_eq!(rows[1].1.available, dec(200));
}

#[test]
fn money_arithmetic_is_exact() {
    assert_eq!(Money::zero(), Money::from_units(0));
    assert_eq!(dec(10).add(&dec(20)), dec(30));
    assert_eq!(dec(30).sub(&dec(10)), dec(20));
    assert_eq!(Money::from_units(1).add(&Money::from_units(2)), Money::from_units(3));
    assert_eq!(Money::from_units(12345).units(), 12345);
    assert!(dec(-1).is_negative());
    assert!(!Money::zero().is_negative());
    assert!(dec(1).lt(&dec(2)));
    assert!(!dec(2).lt(&dec(2)));
}
