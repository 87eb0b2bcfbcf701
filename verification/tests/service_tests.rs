use paid_notes::errors::{
    BridgeError, FailReason, NoteError, PipelineFailure, Stage, SwapError, ValidationError,
};
use paid_notes::errors::{failure_leaves_funds_stuck, OracleError};
use paid_notes::note::Note;
use paid_notes::oracle::OracleRate;
use paid_notes::owner::OwnerId;
use paid_notes::service::{add_note, delete_note, get_note, list_notes, update_note};
use paid_notes::service::{Action, Event, Outcome, Session, StepResult};
use paid_notes::store::NoteStore;

fn owner(tag: u8) -> OwnerId {
    OwnerId::from_bytes(vec![tag, 9, 9])
}

fn note(title: &str, content: &str) -> Note {
    Note::new(title.to_string(), content.to_string())
}

fn unit_rate() -> Result<OracleRate, OracleError> {
    Ok(OracleRate { num: 1, den: 1 })
}

/// A stand-in ledger for driving the settlement machine in tests: it
/// counts queries and charges and debits charged amounts.
struct MockLedger {
    balance: u64,
    queries: u32,
    charges: u32,
}

impl MockLedger {
    fn with_balance(balance: u64) -> MockLedger {
        MockLedger { balance, queries: 0, charges: 0 }
    }
}

/// Performs each action the machine asks for against the mock ledger, a
/// swap venue and a bridge with fixed replies, until the run is done.
fn drive(
    store: &mut NoteStore,
    opened: Result<(Session, Action), NoteError>,
    ledger: &mut MockLedger,
    swap_reply: Result<u64, SwapError>,
    redeem_reply: Result<String, BridgeError>,
) -> Result<Outcome, NoteError> {
    let (mut session, mut action) = match opened {
        Ok(x) => x,
        Err(e) => return Err(e),
    };
    loop {
        let event = match action {
            Action::QueryBalance => {
                ledger.queries += 1;
                Event::Balance(Ok(ledger.balance))
            }
            Action::Charge { amount, fee: _ } => {
                ledger.charges += 1;
                if ledger.balance >= amount {
                    ledger.balance -= amount;
                    Event::Charge(Ok(1))
                } else {
                    Event::Charge(Err(paid_notes::errors::LedgerError::InsufficientFunds))
                }
            }
            Action::Swap { amount_in, min_output: _ } => match &swap_reply {
                Ok(_) => Event::Swap(Ok(amount_in)),
                Err(e) => Event::Swap(Err(*e)),
            },
            Action::Redeem { amount: _ } => Event::Redeem(redeem_reply.clone()),
        };
        match session.step(store, event) {
            StepResult::Next(s2, a2) => {
                session = s2;
                action = a2;
            }
            StepResult::Done(res) => return res,
        }
    }
}

fn ok_swap() -> Result<u64, SwapError> {
    Ok(0)
}

fn ok_redeem() -> Result<String, BridgeError> {
    Ok("ticket-af92".to_string())
}

#[test]
fn full_success_path_writes_note_and_returns_ticket() {
    let mut store = NoteStore::new();
    let mut ledger = MockLedger::with_balance(20_000);
    let opened = add_note(&store, owner(1), 7, note("title", "content"), unit_rate());
    let outcome = drive(&mut store, opened, &mut ledger, ok_swap(), ok_redeem());
    match outcome {
        Ok(Outcome::NoteWritten { note: n, ticket }) => {
            assert_eq!(n.title, "title");
            assert_eq!(n.content, "content");
            assert!(!ticket.is_empty());
            assert_eq!(ticket, "ticket-af92");
        }
        other => panic!("expected a written note, got {:?}", as_debug(&other)),
    }
    let read = get_note(&store, &owner(1), 7).expect("note should be stored");
    assert_eq!(read.title, "title");
    assert_eq!(read.content, "content");
    assert_eq!(ledger.queries, 1);
    assert_eq!(ledger.charges, 1);
    assert_eq!(ledger.balance, 5_000);
}

fn as_debug(r: &Result<Outcome, NoteError>) -> String {
    match r {
        Ok(Outcome::NoteWritten { note, ticket }) => {
            format!("NoteWritten({}, {}, {})", note.title, note.content, ticket)
        }
        Ok(Outcome::Deleted { id, message }) => format!("Deleted({}, {})", id, message),
        Err(e) => format!("{:?}", e),
    }
}

#[test]
fn zero_id_fails_validation_regardless_of_balance() {
    let store = NoteStore::new();
    for balance in [0u64, 14_000, 1_000_000] {
        let mut s = NoteStore::new();
        let mut ledger = MockLedger::with_balance(balance);
        let opened = add_note(&store, owner(1), 0, note("t", "c"), unit_rate());
        let res = drive(&mut s, opened, &mut ledger, ok_swap(), ok_redeem());
        assert_eq!(
            res.err().unwrap(),
            NoteError::Validation(ValidationError::ZeroKey)
        );
        assert_eq!(ledger.queries, 0);
    }
}

#[test]
fn whitespace_title_fails_without_touching_ledger() {
    let mut store = NoteStore::new();
    let mut ledger = MockLedger::with_balance(1_000_000);
    let opened = add_note(&store, owner(1), 7, note(" \t\n ", "content"), unit_rate());
    let res = drive(&mut store, opened, &mut ledger, ok_swap(), ok_redeem());
    assert_eq!(
        res.err().unwrap(),
        NoteError::Validation(ValidationError::EmptyField)
    );
    assert_eq!(ledger.queries, 0);
    assert_eq!(ledger.charges, 0);
}

#[test]
fn whitespace_content_fails_too() {
    let store = NoteStore::new();
    let opened = add_note(&store, owner(1), 7, note("title", "   "), unit_rate());
    assert!(matches!(
        opened.err().unwrap(),
        NoteError::Validation(ValidationError::EmptyField)
    ));
}

#[test]
fn second_add_with_same_id_fails_duplicate_and_keeps_first() {
    let mut store = NoteStore::new();
    let mut ledger = MockLedger::with_balance(100_000);
    let opened = add_note(&store, owner(1), 7, note("first", "one"), unit_rate());
    drive(&mut store, opened, &mut ledger, ok_swap(), ok_redeem()).expect("first add should work");
    let opened2 = add_note(&store, owner(1), 7, note("second", "two"), unit_rate());
    let res = drive(&mut store, opened2, &mut ledger, ok_swap(), ok_redeem());
    assert_eq!(
        res.err().unwrap(),
        NoteError::Validation(ValidationError::DuplicateKey)
    );
    let kept = get_note(&store, &owner(1), 7).unwrap();
    assert_eq!(kept.title, "first");
    assert_eq!(kept.content, "one");
}

#[test]
fn list_notes_never_shows_other_owners() {
    let mut store = NoteStore::new();
    let mut ledger = MockLedger::with_balance(1_000_000);
    let opened = add_note(&store, owner(1), 1, note("mine", "a"), unit_rate());
    drive(&mut store, opened, &mut ledger, ok_swap(), ok_redeem()).unwrap();
    let opened = add_note(&store, owner(2), 2, note("theirs", "b"), unit_rate());
    drive(&mut store, opened, &mut ledger, ok_swap(), ok_redeem()).unwrap();
    let mine = list_notes(&store, &owner(1));
    assert_eq!(mine.len(), 1);
    assert_eq!(mine[0].0, 1);
    assert_eq!(mine[0].1.title, "mine");
}

#[test]
fn insufficient_balance_is_rejected_before_any_charge() {
    let mut store = NoteStore::new();
    let mut ledger = MockLedger::with_balance(14_000);
    let opened = add_note(&store, owner(1), 7, note("t", "c"), unit_rate());
    let res = drive(&mut store, opened, &mut ledger, ok_swap(), ok_redeem());
    assert_eq!(
        res.err().unwrap(),
        NoteError::Pipeline(PipelineFailure {
            stage: Stage::FundsVerified,
            reason: FailReason::InsufficientFunds,
        })
    );
    assert_eq!(ledger.queries, 1);
    assert_eq!(ledger.charges, 0);
    assert_eq!(ledger.balance, 14_000);
    assert!(get_note(&store, &owner(1), 7).is_none());
}

#[test]
fn swap_failure_after_charge_leaves_store_and_debits_balance() {
    let mut store = NoteStore::new();
    let mut ledger = MockLedger::with_balance(20_000);
    let opened = add_note(&store, owner(1), 7, note("t", "c"), unit_rate());
    let res = drive(
        &mut store,
        opened,
        &mut ledger,
        Err(SwapError::InsufficientLiquidity),
        ok_redeem(),
    );
    assert_eq!(
        res.err().unwrap(),
        NoteError::Pipeline(PipelineFailure {
            stage: Stage::Swapped,
            reason: FailReason::Swap(SwapError::InsufficientLiquidity),
        })
    );
    assert!(get_note(&store, &owner(1), 7).is_none());
    assert_eq!(ledger.charges, 1);
    assert_eq!(ledger.balance, 5_000);
}

#[test]
fn bridge_failure_is_tagged_at_redeem_stage() {
    let mut store = NoteStore::new();
    let mut ledger = MockLedger::with_balance(20_000);
    let opened = add_note(&store, owner(1), 7, note("t", "c"), unit_rate());
    let res = drive(
        &mut store,
        opened,
        &mut ledger,
        ok_swap(),
        Err(BridgeError::Unreachable),
    );
    assert_eq!(
        res.err().unwrap(),
        NoteError::Pipeline(PipelineFailure {
            stage: Stage::Redeemed,
            reason: FailReason::Bridge(BridgeError::Unreachable),
        })
    );
    assert!(get_note(&store, &owner(1), 7).is_none());
}

#[test]
fn delete_missing_note_never_reaches_the_ledger() {
    let mut store = NoteStore::new();
    let mut ledger = MockLedger::with_balance(1_000_000);
    let opened = delete_note(&store, owner(1), 42, unit_rate());
    let res = drive(&mut store, opened, &mut ledger, ok_swap(), ok_redeem());
    assert_eq!(res.err().unwrap(), NoteError::NoteNotFound);
    assert_eq!(ledger.queries, 0);
    assert_eq!(ledger.charges, 0);
}

#[test]
fn delete_removes_after_settlement_and_confirms() {
    let mut store = NoteStore::new();
    let mut ledger = MockLedger::with_balance(100_000);
    let opened = add_note(&store, owner(1), 42, note("t", "c"), unit_rate());
    drive(&mut store, opened, &mut ledger, ok_swap(), ok_redeem()).unwrap();
    let opened = delete_note(&store, owner(1), 42, unit_rate());
    let res = drive(&mut store, opened, &mut ledger, ok_swap(), ok_redeem());
    match res {
        Ok(Outcome::Deleted { id, message }) => {
            assert_eq!(id, 42);
            assert_eq!(message, "Note 42 deleted.");
        }
        other => panic!("expected a deletion, got {}", as_debug(&other)),
    }
    assert!(get_note(&store, &owner(1), 42).is_none());
}

#[test]
fn delete_with_failed_settlement_keeps_note() {
    let mut store = NoteStore::new();
    let mut ledger = MockLedger::with_balance(100_000);
    let opened = add_note(&store, owner(1), 42, note("keep", "me"), unit_rate());
    drive(&mut store, opened, &mut ledger, ok_swap(), ok_redeem()).unwrap();
    let opened = delete_note(&store, owner(1), 42, unit_rate());
    let res = drive(
        &mut store,
        opened,
        &mut ledger,
        Err(SwapError::Internal),
        ok_redeem(),
    );
    assert!(res.is_err());
    assert_eq!(get_note(&store, &owner(1), 42).unwrap().title, "keep");
}

#[test]
fn update_missing_note_is_refused() {
    let mut store = NoteStore::new();
    let mut ledger = MockLedger::with_balance(100_000);
    let opened = update_note(&store, owner(1), 5, note("t", "c"), unit_rate());
    let res = drive(&mut store, opened, &mut ledger, ok_swap(), ok_redeem());
    assert_eq!(res.err().unwrap(), NoteError::NoteNotFound);
    assert_eq!(ledger.queries, 0);
}

#[test]
fn update_overwrites_after_settlement() {
    let mut store = NoteStore::new();
    let mut ledger = MockLedger::with_balance(100_000);
    let opened = add_note(&store, owner(1), 5, note("old", "body"), unit_rate());
    drive(&mut store, opened, &mut ledger, ok_swap(), ok_redeem()).unwrap();
    let opened = update_note(&store, owner(1), 5, note("new", "body2"), unit_rate());
    let res = drive(&mut store, opened, &mut ledger, ok_swap(), ok_redeem());
    assert!(res.is_ok());
    let read = get_note(&store, &owner(1), 5).unwrap();
    assert_eq!(read.title, "new");
    assert_eq!(read.content, "body2");
}

#[test]
fn zero_price_denominator_fails_before_any_call() {
    let mut store = NoteStore::new();
    let mut ledger = MockLedger::with_balance(1_000_000);
    let opened = add_note(
        &store,
        owner(1),
        7,
        note("t", "c"),
        Ok(OracleRate { num: 5, den: 0 }),
    );
    let res = drive(&mut store, opened, &mut ledger, ok_swap(), ok_redeem());
    assert_eq!(
        res.err().unwrap(),
        NoteError::Pipeline(PipelineFailure {
            stage: Stage::FundsVerified,
            reason: FailReason::Oracle(OracleError::PriceZero),
        })
    );
    assert_eq!(ledger.queries, 0);
}

#[test]
fn oracle_failure_fails_before_any_call() {
    let mut store = NoteStore::new();
    let mut ledger = MockLedger::with_balance(1_000_000);
    let opened = add_note(&store, owner(1), 7, note("t", "c"), Err(OracleError::Unavailable));
    let res = drive(&mut store, opened, &mut ledger, ok_swap(), ok_redeem());
    assert_eq!(
        res.err().unwrap(),
        NoteError::Pipeline(PipelineFailure {
            stage: Stage::FundsVerified,
            reason: FailReason::Oracle(OracleError::Unavailable),
        })
    );
    assert_eq!(ledger.queries, 0);
}

#[test]
fn balance_query_failure_ends_at_funds_verification() {
    let mut store = NoteStore::new();
    let opened = add_note(&store, owner(1), 7, note("t", "c"), unit_rate());
    let (session, _) = opened.unwrap();
    let res = session.step(
        &mut store,
        Event::Balance(Err(paid_notes::errors::LedgerError::AmountOverflow)),
    );
    match res {
        StepResult::Done(Err(e)) => assert_eq!(
            e,
            NoteError::Pipeline(PipelineFailure {
                stage: Stage::FundsVerified,
                reason: FailReason::Ledger(paid_notes::errors::LedgerError::AmountOverflow),
            })
        ),
        _ => panic!("expected the run to end"),
    }
    assert!(get_note(&store, &owner(1), 7).is_none());
}

#[test]
fn charge_failure_ends_at_charge_stage_with_store_untouched() {
    let mut store = NoteStore::new();
    let opened = add_note(&store, owner(1), 7, note("t", "c"), unit_rate());
    let (session, _) = opened.unwrap();
    let session = match session.step(&mut store, Event::Balance(Ok(50_000))) {
        StepResult::Next(s, _) => s,
        StepResult::Done(_) => panic!("run ended early"),
    };
    let res = session.step(
        &mut store,
        Event::Charge(Err(paid_notes::errors::LedgerError::AllowanceExpired)),
    );
    match res {
        StepResult::Done(Err(e)) => assert_eq!(
            e,
            NoteError::Pipeline(PipelineFailure {
                stage: Stage::Charged,
                reason: FailReason::Ledger(paid_notes::errors::LedgerError::AllowanceExpired),
            })
        ),
        _ => panic!("expected the run to end"),
    }
    assert!(get_note(&store, &owner(1), 7).is_none());
}

#[test]
fn stuck_funds_are_distinguished_from_clean_failures() {
    let clean = NoteError::Pipeline(PipelineFailure {
        stage: Stage::FundsVerified,
        reason: FailReason::InsufficientFunds,
    });
    let charged = NoteError::Pipeline(PipelineFailure {
        stage: Stage::Charged,
        reason: FailReason::Ledger(paid_notes::errors::LedgerError::LedgerUnreachable),
    });
    let stuck_swap = NoteError::Pipeline(PipelineFailure {
        stage: Stage::Swapped,
        reason: FailReason::Swap(SwapError::Internal),
    });
    let stuck_bridge = NoteError::Pipeline(PipelineFailure {
        stage: Stage::Redeemed,
        reason: FailReason::Bridge(BridgeError::MalformedReply),
    });
    assert!(!failure_leaves_funds_stuck(&clean));
    assert!(!failure_leaves_funds_stuck(&charged));
    assert!(!failure_leaves_funds_stuck(&NoteError::NoteNotFound));
    assert!(failure_leaves_funds_stuck(&stuck_swap));
    assert!(failure_leaves_funds_stuck(&stuck_bridge));
}

#[test]
fn swap_order_carries_the_slippage_floor() {
    let mut store = NoteStore::new();
    // 2 output units per input unit: expected 30_000, floor 29_700.
    let opened = add_note(
        &store,
        owner(1),
        7,
        note("t", "c"),
        Ok(OracleRate { num: 2, den: 1 }),
    );
    let (session, action) = opened.unwrap();
    assert!(matches!(action, Action::QueryBalance));
    let session = match session.step(&mut store, Event::Balance(Ok(50_000))) {
        StepResult::Next(s, a) => {
            match a {
                Action::Charge { amount, fee } => {
                    assert_eq!(amount, 15_000);
                    assert_eq!(fee, 10_000);
                }
                _ => panic!("expected a charge action"),
            }
            s
        }
        StepResult::Done(_) => panic!("run ended early"),
    };
    match session.step(&mut store, Event::Charge(Ok(1))) {
        StepResult::Next(_, Action::Swap { amount_in, min_output }) => {
            assert_eq!(amount_in, 15_000);
            assert_eq!(min_output, 29_700);
        }
        _ => panic!("expected a swap action"),
    }
}
