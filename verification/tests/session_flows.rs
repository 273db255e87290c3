use raisin::address::{parse_address, Address};
use raisin::amount::Amount;
use raisin::schema::{ArgValue, OpName, OpSig, ParamType, Schema};
use raisin::session::{
    Action, Event, OpError, Report, Request, Session, Stage,
};

fn addr(text: &str) -> Address {
    parse_address(text.as_bytes()).unwrap()
}

fn raisin_address() -> Address {
    addr("0x7e37Cd627C75DB9b76331F484449E5d98D5C82c5")
}

fn token_address() -> Address {
    addr("0x7A56e2F6e2965a3569Fe3BD9c8f65E565C0941ef")
}

fn raisin_schema() -> Schema {
    Schema {
        ops: vec![
            OpSig {
                op: OpName::InitFund,
                params: vec![
                    ParamType::UintParam,
                    ParamType::AddressParam,
                    ParamType::AddressParam,
                ],
            },
            OpSig {
                op: OpName::DonateToken,
                params: vec![ParamType::AddressParam, ParamType::UintParam, ParamType::UintParam],
            },
            OpSig {
                op: OpName::BatchTokenDonate,
                params: vec![
                    ParamType::AddressListParam,
                    ParamType::UintListParam,
                    ParamType::UintListParam,
                ],
            },
            OpSig { op: OpName::EndFund, params: vec![ParamType::UintParam] },
            OpSig { op: OpName::FundWithdraw, params: vec![ParamType::UintParam] },
            OpSig { op: OpName::Refund, params: vec![ParamType::UintParam] },
            OpSig { op: OpName::Raisins, params: vec![ParamType::UintParam] },
        ],
    }
}

fn token_schema() -> Schema {
    Schema {
        ops: vec![
            OpSig { op: OpName::Decimals, params: vec![] },
            OpSig { op: OpName::BalanceOf, params: vec![ParamType::AddressParam] },
            OpSig {
                op: OpName::Approve,
                params: vec![ParamType::AddressParam, ParamType::UintParam],
            },
            OpSig {
                op: OpName::Transfer,
                params: vec![ParamType::AddressParam, ParamType::UintParam],
            },
        ],
    }
}

fn start(request: Request) -> (Session, Action) {
    Session::start(raisin_address(), raisin_schema(), token_schema(), request)
}

#[test]
fn donate_approves_then_donates_in_order() {
    let req = Request::Donate {
        amount: b"1.5".to_vec(),
        token: token_address(),
        index: 3,
    };
    let (s, action) = start(req);
    // First the token's precision is read.
    match &action {
        Action::ReadDecimals { token } => assert_eq!(token.bytes, token_address().bytes),
        _ => panic!("expected a decimals read"),
    }
    // The precision arrives: the approval is broadcast first.
    let (s, action) = s.step(Event::DecimalsValue { value: 6 });
    match &action {
        Action::Submit { call } => {
            assert!(matches!(call.operation, OpName::Approve));
            assert_eq!(call.target.bytes, token_address().bytes);
            match (&call.args[0], &call.args[1]) {
                (ArgValue::AddressArg(spender), ArgValue::UintArg(amt)) => {
                    assert_eq!(spender.bytes, raisin_address().bytes);
                    assert_eq!(amt.digits, vec![1, 5, 0, 0, 0, 0, 0]);
                },
                _ => panic!("wrong approve arguments"),
            }
        },
        _ => panic!("expected the approval to be submitted"),
    }
    let (s, action) = s.step(Event::Accepted);
    assert!(matches!(action, Action::AwaitConfirmations { depth: 6 }));
    // Five confirmations are not enough: the wait is renewed, the
    // donation is not submitted.
    let (s, action) = s.step(Event::Observed { count: 5 });
    assert!(matches!(action, Action::AwaitConfirmations { depth: 6 }));
    // The sixth confirmation arrives: only now is the donation built.
    let (s, action) = s.step(Event::Observed { count: 6 });
    match &action {
        Action::Submit { call } => {
            assert!(matches!(call.operation, OpName::DonateToken));
            assert_eq!(call.target.bytes, raisin_address().bytes);
            match (&call.args[0], &call.args[1], &call.args[2]) {
                (ArgValue::AddressArg(t), ArgValue::UintArg(idx), ArgValue::UintArg(amt)) => {
                    assert_eq!(t.bytes, token_address().bytes);
                    assert_eq!(idx.digits, vec![3]);
                    assert_eq!(amt.digits, vec![1, 5, 0, 0, 0, 0, 0]);
                },
                _ => panic!("wrong donate arguments"),
            }
        },
        _ => panic!("expected the donation to be submitted"),
    }
    let (s, action) = s.step(Event::Accepted);
    assert!(matches!(action, Action::AwaitConfirmations { depth: 6 }));
    let (_, action) = s.step(Event::Observed { count: 6 });
    assert!(matches!(action, Action::Succeed { report: Report::TxConfirmed }));
}

#[test]
fn failed_approval_never_donates() {
    let req = Request::Donate {
        amount: b"2".to_vec(),
        token: token_address(),
        index: 0,
    };
    let (s, _) = start(req);
    let (s, action) = s.step(Event::DecimalsValue { value: 18 });
    assert!(matches!(action, Action::Submit { .. }));
    // The approval is dropped while confirming: the operation aborts.
    let (s, action) = s.step(Event::Accepted);
    assert!(matches!(action, Action::AwaitConfirmations { .. }));
    let (s, action) = s.step(Event::TransactionDropped { message: b"reverted".to_vec() });
    match &action {
        Action::Fail { stage, error, approvals_confirmed } => {
            assert!(matches!(stage, Stage::Confirming));
            assert!(matches!(error, OpError::TransactionDropped { .. }));
            assert_eq!(*approvals_confirmed, 0);
        },
        _ => panic!("expected the operation to abort"),
    }
    // Nothing further is ever submitted: the session is finished.
    let (_, action) = s.step(Event::Observed { count: 6 });
    assert!(matches!(action, Action::Fail { error: OpError::UnexpectedEvent, .. }));
}

#[test]
fn batch_length_mismatch_fails_before_any_action() {
    let req = Request::BatchDonate {
        amounts: vec![b"1".to_vec(), b"2".to_vec()],
        tokens: vec![token_address()],
        indices: vec![0, 1],
    };
    let (s, action) = start(req);
    match &action {
        Action::Fail { stage, error, approvals_confirmed } => {
            assert!(matches!(stage, Stage::Validating));
            assert!(matches!(error, OpError::BatchLengthMismatch));
            assert_eq!(*approvals_confirmed, 0);
        },
        _ => panic!("expected an immediate validation failure"),
    }
    // The session is already finished.
    let (_, action) = s.step(Event::DecimalsValue { value: 6 });
    assert!(matches!(action, Action::Fail { error: OpError::UnexpectedEvent, .. }));
}

#[test]
fn batch_donate_approves_each_then_donates_once() {
    let other_token = addr("0x1111111111111111111111111111111111111111");
    let req = Request::BatchDonate {
        amounts: vec![b"1".to_vec(), b"0.5".to_vec()],
        tokens: vec![token_address(), other_token],
        indices: vec![4, 9],
    };
    let (s, action) = start(req);
    assert!(matches!(action, Action::ReadDecimals { .. }));
    // First token: convert at 2 decimals, approve, confirm.
    let (s, action) = s.step(Event::DecimalsValue { value: 2 });
    match &action {
        Action::Submit { call } => assert!(matches!(call.operation, OpName::Approve)),
        _ => panic!("expected the first approval"),
    }
    let (s, _) = s.step(Event::Accepted);
    let (s, action) = s.step(Event::Observed { count: 6 });
    // Second token's decimals are read next.
    match &action {
        Action::ReadDecimals { token } => {
            assert_eq!(token.bytes, vec![0x11; 20]);
        },
        _ => panic!("expected the second decimals read"),
    }
    let (s, action) = s.step(Event::DecimalsValue { value: 3 });
    match &action {
        Action::Submit { call } => {
            assert!(matches!(call.operation, OpName::Approve));
            assert_eq!(call.target.bytes, vec![0x11; 20]);
        },
        _ => panic!("expected the second approval"),
    }
    let (s, _) = s.step(Event::Accepted);
    let (s, action) = s.step(Event::Observed { count: 7 });
    // Both approvals confirmed: one aggregated donation call.
    match &action {
        Action::Submit { call } => {
            assert!(matches!(call.operation, OpName::BatchTokenDonate));
            assert_eq!(call.target.bytes, raisin_address().bytes);
            match (&call.args[0], &call.args[1], &call.args[2]) {
                (
                    ArgValue::AddressListArg(tokens),
                    ArgValue::UintListArg(indices),
                    ArgValue::UintListArg(amounts),
                ) => {
                    assert_eq!(tokens.len(), 2);
                    assert_eq!(indices[0].digits, vec![4]);
                    assert_eq!(indices[1].digits, vec![9]);
                    // 1 at 2 decimals; 0.5 at 3 decimals.
                    assert_eq!(amounts[0].digits, vec![1, 0, 0]);
                    assert_eq!(amounts[1].digits, vec![5, 0, 0]);
                },
                _ => panic!("wrong batch arguments"),
            }
        },
        _ => panic!("expected the aggregated donation"),
    }
    let (s, _) = s.step(Event::Accepted);
    let (_, action) = s.step(Event::Observed { count: 6 });
    assert!(matches!(action, Action::Succeed { report: Report::TxConfirmed }));
}

#[test]
fn batch_approval_failure_reports_confirmed_steps() {
    let other_token = addr("0x1111111111111111111111111111111111111111");
    let req = Request::BatchDonate {
        amounts: vec![b"1".to_vec(), b"2".to_vec()],
        tokens: vec![token_address(), other_token],
        indices: vec![0, 1],
    };
    let (s, _) = start(req);
    let (s, _) = s.step(Event::DecimalsValue { value: 0 });
    let (s, _) = s.step(Event::Accepted);
    let (s, _) = s.step(Event::Observed { count: 6 });
    let (s, _) = s.step(Event::DecimalsValue { value: 0 });
    let (s, _) = s.step(Event::Accepted);
    // The second approval fails after the first was confirmed: the
    // confirmed allowance is reported and remains in effect.
    let (_, action) = s.step(Event::TransportFailure { message: b"gone".to_vec() });
    match &action {
        Action::Fail { error, approvals_confirmed, .. } => {
            assert!(matches!(error, OpError::Transport { .. }));
            assert_eq!(*approvals_confirmed, 1);
        },
        _ => panic!("expected the batch to abort"),
    }
}

#[test]
fn excess_precision_aborts_before_any_approval() {
    let req = Request::Donate {
        amount: b"1.5".to_vec(),
        token: token_address(),
        index: 0,
    };
    let (s, _) = start(req);
    // The token says zero decimals: 1.5 cannot be represented.
    let (_, action) = s.step(Event::DecimalsValue { value: 0 });
    match &action {
        Action::Fail { stage, error, .. } => {
            assert!(matches!(stage, Stage::Converting));
            assert!(matches!(
                error,
                OpError::InvalidRequest { reason: raisin::units::UnitError::InvalidPrecision }
            ));
        },
        _ => panic!("expected a conversion failure"),
    }
}

#[test]
fn get_raisin_surfaces_the_remote_error_verbatim() {
    let req = Request::GetRaisin { token: token_address(), index: 42 };
    let (s, action) = start(req);
    assert!(matches!(action, Action::ReadDecimals { .. }));
    let (s, action) = s.step(Event::DecimalsValue { value: 6 });
    match &action {
        Action::Read { call } => {
            assert!(matches!(call.operation, OpName::Raisins));
            match &call.args[0] {
                ArgValue::UintArg(idx) => assert_eq!(idx.digits, vec![4, 2]),
                _ => panic!("wrong query argument"),
            }
        },
        _ => panic!("expected the fund read"),
    }
    let message = b"execution reverted: no such raisin".to_vec();
    let (_, action) = s.step(Event::TransportFailure { message: message.clone() });
    match &action {
        Action::Fail { stage, error, .. } => {
            assert!(matches!(stage, Stage::Reading));
            match error {
                OpError::Transport { message: m } => assert_eq!(*m, message),
                _ => panic!("expected the transport error"),
            }
        },
        _ => panic!("expected the query to fail"),
    }
}

#[test]
fn get_raisin_renders_the_record() {
    let req = Request::GetRaisin { token: token_address(), index: 0 };
    let (s, _) = start(req);
    let (s, _) = s.step(Event::DecimalsValue { value: 6 });
    let raiser = addr("0x2222222222222222222222222222222222222222");
    let recipient = addr("0x3333333333333333333333333333333333333333");
    let (_, action) = s.step(Event::RaisinValue {
        balance: Amount::from_u64(1_500_000),
        goal: Amount::from_u64(2_000_000),
        token: token_address(),
        raiser,
        recipient,
        expires: Amount::from_u64(999),
    });
    match &action {
        Action::Succeed { report: Report::Raisin { record } } => {
            assert_eq!(record.fund_balance, b"1.5".to_vec());
            assert_eq!(record.goal, b"2".to_vec());
            assert_eq!(record.token.bytes, token_address().bytes);
            assert_eq!(record.expires.digits, vec![9, 9, 9]);
        },
        _ => panic!("expected the rendered record"),
    }
}

#[test]
fn get_balance_renders_the_value() {
    let req = Request::GetBalance { token: token_address(), holder: raisin_address() };
    let (s, _) = start(req);
    let (s, action) = s.step(Event::DecimalsValue { value: 6 });
    match &action {
        Action::Read { call } => assert!(matches!(call.operation, OpName::BalanceOf)),
        _ => panic!("expected the balance read"),
    }
    let (_, action) = s.step(Event::UintValue { value: Amount::from_u64(1_500_000) });
    match &action {
        Action::Succeed { report: Report::Balance { text } } => {
            assert_eq!(text, &b"1.5".to_vec());
        },
        _ => panic!("expected the rendered balance"),
    }
}

#[test]
fn end_fund_submits_one_call() {
    let (s, action) = start(Request::EndFund { index: 7 });
    match &action {
        Action::Submit { call } => {
            assert!(matches!(call.operation, OpName::EndFund));
            assert_eq!(call.target.bytes, raisin_address().bytes);
            match &call.args[0] {
                ArgValue::UintArg(idx) => assert_eq!(idx.digits, vec![7]),
                _ => panic!("wrong index argument"),
            }
        },
        _ => panic!("expected an immediate broadcast"),
    }
    let (s, _) = s.step(Event::Accepted);
    let (_, action) = s.step(Event::Observed { count: 6 });
    assert!(matches!(action, Action::Succeed { report: Report::TxConfirmed }));
}

#[test]
fn init_fund_converts_then_submits() {
    let recipient = addr("0x3333333333333333333333333333333333333333");
    let req = Request::InitFund {
        amount: b"2.25".to_vec(),
        token: token_address(),
        recipient,
    };
    let (s, _) = start(req);
    let (_, action) = s.step(Event::DecimalsValue { value: 4 });
    match &action {
        Action::Submit { call } => {
            assert!(matches!(call.operation, OpName::InitFund));
            match &call.args[0] {
                ArgValue::UintArg(amt) => assert_eq!(amt.digits, vec![2, 2, 5, 0, 0]),
                _ => panic!("wrong amount argument"),
            }
        },
        _ => panic!("expected the fund call"),
    }
}

#[test]
fn transfer_converts_then_submits() {
    let recipient = addr("0x3333333333333333333333333333333333333333");
    let req = Request::Transfer {
        amount: b"0.5".to_vec(),
        token: token_address(),
        recipient,
    };
    let (s, _) = start(req);
    let (_, action) = s.step(Event::DecimalsValue { value: 2 });
    match &action {
        Action::Submit { call } => {
            assert!(matches!(call.operation, OpName::Transfer));
            assert_eq!(call.target.bytes, token_address().bytes);
            match (&call.args[0], &call.args[1]) {
                (ArgValue::AddressArg(to), ArgValue::UintArg(amt)) => {
                    assert_eq!(to.bytes, vec![0x33; 20]);
                    assert_eq!(amt.digits, vec![5, 0]);
                },
                _ => panic!("wrong transfer arguments"),
            }
        },
        _ => panic!("expected the transfer call"),
    }
}

#[test]
fn withdraw_and_refund_submit_their_calls() {
    let (_, action) = start(Request::Withdraw { index: 2 });
    match &action {
        Action::Submit { call } => assert!(matches!(call.operation, OpName::FundWithdraw)),
        _ => panic!("expected the withdraw call"),
    }
    let (_, action) = start(Request::Refund { index: 2 });
    match &action {
        Action::Submit { call } => assert!(matches!(call.operation, OpName::Refund)),
        _ => panic!("expected the refund call"),
    }
}

#[test]
fn missing_operation_in_schema_fails_while_building() {
    // A token schema without approve: the donation cannot be built.
    let bare = Schema { ops: vec![OpSig { op: OpName::Decimals, params: vec![] }] };
    let req = Request::Donate {
        amount: b"1".to_vec(),
        token: token_address(),
        index: 0,
    };
    let (s, _) = Session::start(raisin_address(), raisin_schema(), bare, req);
    let (_, action) = s.step(Event::DecimalsValue { value: 6 });
    match &action {
        Action::Fail { stage, error, .. } => {
            assert!(matches!(stage, Stage::Building));
            assert!(matches!(
                error,
                OpError::SchemaMismatch { reason: raisin::schema::SchemaError::OperationNotFound }
            ));
        },
        _ => panic!("expected a schema failure"),
    }
}

#[test]
fn malformed_remote_balance_is_refused() {
    let req = Request::GetBalance { token: token_address(), holder: raisin_address() };
    let (s, _) = start(req);
    let (s, _) = s.step(Event::DecimalsValue { value: 6 });
    // A digit string with a leading zero is not canonical.
    let bad = raisin::amount::Amount { digits: vec![0, 1] };
    let (_, action) = s.step(Event::UintValue { value: bad });
    match &action {
        Action::Fail { stage, error, .. } => {
            assert!(matches!(stage, Stage::Converting));
            assert!(matches!(
                error,
                OpError::InvalidRequest { reason: raisin::units::UnitError::InvalidAmount }
            ));
        },
        _ => panic!("expected the malformed value to be refused"),
    }
}

#[test]
fn empty_batch_submits_the_aggregate_call_alone() {
    let req = Request::BatchDonate { amounts: vec![], tokens: vec![], indices: vec![] };
    let (s, action) = start(req);
    match &action {
        Action::Submit { call } => {
            assert!(matches!(call.operation, OpName::BatchTokenDonate));
            match (&call.args[0], &call.args[1], &call.args[2]) {
                (
                    ArgValue::AddressListArg(tokens),
                    ArgValue::UintListArg(indices),
                    ArgValue::UintListArg(amounts),
                ) => {
                    assert!(tokens.is_empty());
                    assert!(indices.is_empty());
                    assert!(amounts.is_empty());
                },
                _ => panic!("wrong batch arguments"),
            }
        },
        _ => panic!("expected an immediate aggregate call"),
    }
    let (s, _) = s.step(Event::Accepted);
    let (_, action) = s.step(Event::Observed { count: 6 });
    assert!(matches!(action, Action::Succeed { report: Report::TxConfirmed }));
}
