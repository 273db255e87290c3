//! The operation orchestrator: one fund-lifecycle operation as an
//! explicit state machine.
//!
//! A [`Session`] is started from a validated request and then stepped:
//! each step consumes one [`Event`] from the chain and decides the next
//! [`Action`] for the surrounding application to perform — read a token's
//! decimals, sign and broadcast a call, poll confirmations, read a value,
//! or stop with a success or failure report.  The library makes every
//! decision; the application only performs I/O and feeds back what
//! happened.
//!
//! The sequencing rules of the token-allowance model are proved of the
//! transition relation: a donation is submitted only in the very step
//! that observes its approval's final confirmation; a failed approval
//! aborts the operation before any donation call exists; a batch donation
//! with mismatched argument arrays fails before any chain action; and a
//! remote failure of a read surfaces its message verbatim.  A failure
//! never rolls back confirmed steps — the report carries how many
//! approvals had already been confirmed.

use crate::address::Address;
use crate::amount::{digits_of_nat, Amount};
use crate::pending::{observe_result, PendingTransaction, TxState, CONFIRMATION_DEPTH};
use crate::schema::{
    arg_types, call_check, build_call, ArgValue, CallDescriptor, OpName, ParamType, Schema,
    SchemaError,
};
use crate::units::{
    from_base_spec, rendered, to_base_spec, to_base_units, from_base_units, UnitError,
};
use crate::amount::canonical_digits;
use vstd::prelude::*;

verus! {

/// One validated, semantically-typed user request.  Amounts are decimal
/// text, still to be scaled once the token's precision is known.
#[derive(Debug)]
pub enum Request {
    InitFund { amount: Vec<u8>, token: Address, recipient: Address },
    Donate { amount: Vec<u8>, token: Address, index: u64 },
    BatchDonate { amounts: Vec<Vec<u8>>, tokens: Vec<Address>, indices: Vec<u64> },
    EndFund { index: u64 },
    Withdraw { index: u64 },
    Refund { index: u64 },
    Transfer { amount: Vec<u8>, token: Address, recipient: Address },
    GetBalance { token: Address, holder: Address },
    GetRaisin { token: Address, index: u64 },
}

/// The protocol stage at which an operation failed.
#[derive(Clone, Copy, Debug, PartialEq, Eq, Structural)]
pub enum Stage {
    Validating,
    Converting,
    Building,
    Submitting,
    Confirming,
    Reading,
}

/// Why an operation failed.  Every failure is terminal for the
/// operation; nothing is retried and nothing already confirmed is rolled
/// back.
#[derive(Debug)]
#[allow(inconsistent_fields)]
pub enum OpError {
    /// An amount could not be converted at the resolved precision.
    InvalidRequest { reason: UnitError },
    /// The parallel arrays of a batch donation differ in length.
    BatchLengthMismatch,
    /// The interface schema refused the call.
    SchemaMismatch { reason: SchemaError },
    /// Transport or signing failed; the remote message, verbatim.
    Transport { message: Vec<u8> },
    /// The transaction was dropped or reverted; the message, verbatim.
    TransactionDropped { message: Vec<u8> },
    /// The event does not belong to the current phase.
    UnexpectedEvent,
}

/// What the chain reported back after the last action.
#[derive(Debug)]
#[allow(inconsistent_fields)]
pub enum Event {
    /// The token's decimal precision, from the decimals read.
    DecimalsValue { value: u64 },
    /// The broadcast was accepted by the ledger.
    Accepted,
    /// Confirmations observed so far for the pending transaction.
    Observed { count: u64 },
    /// The pending transaction was dropped or reverted.
    TransactionDropped { message: Vec<u8> },
    /// Transport, signing, or a read failed.
    TransportFailure { message: Vec<u8> },
    /// The integer a read-only call returned.
    UintValue { value: Amount },
    /// One fund record, as the contract stores it.
    RaisinValue {
        balance: Amount,
        goal: Amount,
        token: Address,
        raiser: Address,
        recipient: Address,
        expires: Amount,
    },
}

/// A fund record rendered for the caller: balance and goal as decimal
/// text at the token's precision.
#[derive(Debug)]
pub struct FundRecord {
    pub fund_balance: Vec<u8>,
    pub goal: Vec<u8>,
    pub token: Address,
    pub raiser: Address,
    pub recipient: Address,
    pub expires: Amount,
}

/// What a finished operation reports.
#[derive(Debug)]
pub enum Report {
    /// The state-mutating call reached its confirmation depth.
    TxConfirmed,
    /// A balance, as decimal text.
    Balance { text: Vec<u8> },
    /// One fund record.
    Raisin { record: FundRecord },
}

/// What the application must do next.  Exactly one action follows each
/// event; `Succeed` and `Fail` are terminal.
#[derive(Debug)]
pub enum Action {
    /// Read `decimals()` on this token contract.
    ReadDecimals { token: Address },
    /// Sign and broadcast this call.
    Submit { call: CallDescriptor },
    /// Poll the pending transaction and report the confirmations seen.
    AwaitConfirmations { depth: u64 },
    /// Perform this read-only call; no signing, no confirmation wait.
    Read { call: CallDescriptor },
    /// The operation succeeded.
    Succeed { report: Report },
    /// The operation failed at this stage; steps already confirmed (the
    /// count given) remain in effect on the ledger.
    Fail { stage: Stage, error: OpError, approvals_confirmed: u64 },
}

/// Which transaction the session is tracking.
#[derive(Clone, Copy, Debug, PartialEq, Eq, Structural)]
pub enum TxKind {
    /// The approval for the donation at this batch position.
    ApproveStep { pos: usize },
    /// The operation's own call.
    MainCall,
}

/// Where the session stands.
#[derive(Clone, Copy, Debug, PartialEq, Eq, Structural)]
pub enum Phase {
    /// Waiting for the decimals of the token at this batch position.
    ResolvingDecimals { pos: usize },
    /// A call was broadcast; waiting for the ledger to accept it.
    AwaitingAccept { kind: TxKind, tx: PendingTransaction },
    /// Accepted; waiting for the confirmation depth.
    AwaitingConfirm { kind: TxKind, tx: PendingTransaction },
    /// A read-only call is in flight.
    AwaitingRead,
    /// Terminal: the last action was `Succeed` or `Fail`.
    Finished,
}

/// One fund operation in flight: the contract context, the request, and
/// the machine state.
pub struct Session {
    /// The crowdfunding contract's address.
    pub raisin: Address,
    /// The crowdfunding contract's interface schema.
    pub raisin_schema: Schema,
    /// The token standard's interface schema.
    pub token_schema: Schema,
    /// The request this session carries out.
    pub request: Request,
    /// Where the machine stands.
    pub phase: Phase,
    /// The decimal precision of the token last resolved.
    pub decimals: u64,
    /// The amounts converted so far, one per approval step.
    pub amounts: Vec<Amount>,
    /// How many approvals have been confirmed on the ledger.
    pub approvals_confirmed: u64,
}

/// Parameter shapes of `initFund(amount, token, recipient)`.
pub open spec fn init_fund_params() -> Seq<ParamType> {
    seq![ParamType::UintParam, ParamType::AddressParam, ParamType::AddressParam]
}

/// Parameter shapes of `donateToken(token, index, amount)`.
pub open spec fn donate_params() -> Seq<ParamType> {
    seq![ParamType::AddressParam, ParamType::UintParam, ParamType::UintParam]
}

/// Parameter shapes of `batchTokenDonate(tokens, indices, amounts)`.
pub open spec fn batch_params() -> Seq<ParamType> {
    seq![ParamType::AddressListParam, ParamType::UintListParam, ParamType::UintListParam]
}

/// Parameter shape of the single-index fund calls and the fund query.
pub open spec fn index_params() -> Seq<ParamType> {
    seq![ParamType::UintParam]
}

/// Parameter shapes of `approve(spender, amount)` and
/// `transfer(to, amount)`.
pub open spec fn spender_amount_params() -> Seq<ParamType> {
    seq![ParamType::AddressParam, ParamType::UintParam]
}

/// Parameter shape of `balanceOf(holder)`.
pub open spec fn balance_params() -> Seq<ParamType> {
    seq![ParamType::AddressParam]
}

/// A fresh handle for a just-broadcast call at the fixed depth.
pub open spec fn fresh_tx() -> PendingTransaction {
    PendingTransaction { depth: CONFIRMATION_DEPTH, observed: 0, state: TxState::Submitted }
}

pub open spec fn is_addr_arg(a: ArgValue, bytes: Seq<u8>) -> bool {
    a matches ArgValue::AddressArg(x) && x@ == bytes
}

pub open spec fn is_uint_arg(a: ArgValue, digits: Seq<u8>) -> bool {
    a matches ArgValue::UintArg(x) && x@ == digits
}

pub open spec fn is_addr_list_arg(a: ArgValue, items: Seq<Seq<u8>>) -> bool {
    a matches ArgValue::AddressListArg(v) && v.deep_view() == items
}

pub open spec fn is_uint_list_arg(a: ArgValue, items: Seq<Seq<u8>>) -> bool {
    a matches ArgValue::UintListArg(v) && v.deep_view() == items
}

/// The canonical digit strings of a list of fund indices.
pub open spec fn index_digits(indices: Seq<u64>) -> Seq<Seq<u8>> {
    indices.map_values(|x: u64| digits_of_nat(x as nat))
}

/// The context and request never change over a session's lifetime.
pub open spec fn frozen(pre: Session, post: Session) -> bool {
    &&& post.raisin == pre.raisin
    &&& post.raisin_schema == pre.raisin_schema
    &&& post.token_schema == pre.token_schema
    &&& post.request == pre.request
}

/// The scratch fields are untouched.
pub open spec fn scratch_kept(pre: Session, post: Session) -> bool {
    &&& post.decimals == pre.decimals
    &&& post.amounts == pre.amounts
    &&& post.approvals_confirmed == pre.approvals_confirmed
}

/// The step aborts the operation with this stage and error.
pub open spec fn fails(pre: Session, post: Session, action: Action, stage: Stage, error: OpError) -> bool {
    &&& frozen(pre, post)
    &&& scratch_kept(pre, post)
    &&& post.phase == Phase::Finished
    &&& action == (Action::Fail { stage, error, approvals_confirmed: pre.approvals_confirmed })
}

/// The stage the session is at in each phase, for reporting an event
/// that does not belong there.
pub open spec fn phase_stage(phase: Phase) -> Stage {
    match phase {
        Phase::ResolvingDecimals { .. } => Stage::Reading,
        Phase::AwaitingAccept { .. } => Stage::Submitting,
        Phase::AwaitingConfirm { .. } => Stage::Confirming,
        Phase::AwaitingRead => Stage::Reading,
        Phase::Finished => Stage::Validating,
    }
}

/// The step refuses an event foreign to the phase.
pub open spec fn unexpected(pre: Session, post: Session, action: Action) -> bool {
    fails(pre, post, action, phase_stage(pre.phase), OpError::UnexpectedEvent)
}

/// The approval for one donation: `approve(raisin, amount)` on the token
/// contract, checked against the token schema.
pub open spec fn approve_call_shape(pre: Session, call: CallDescriptor, token: Address, amt: Seq<u8>) -> bool {
    &&& call.target@ == token@
    &&& call.operation == OpName::Approve
    &&& call.args@.len() == 2
    &&& is_addr_arg(call.args@[0], pre.raisin@)
    &&& is_uint_arg(call.args@[1], amt)
}

/// The session moved to awaiting acceptance of a just-broadcast call.
pub open spec fn submitted(pre: Session, post: Session, kind: TxKind) -> bool {
    &&& frozen(pre, post)
    &&& post.phase == (Phase::AwaitingAccept { kind, tx: fresh_tx() })
}

/// An amount was converted at the freshly resolved precision and a call
/// was broadcast: the precision and the amount are recorded, nothing else
/// of the scratch state moves.
pub open spec fn converted_and_submitted(
    pre: Session,
    post: Session,
    kind: TxKind,
    value: u64,
    digits: Seq<u8>,
) -> bool {
    &&& submitted(pre, post, kind)
    &&& post.decimals == value
    &&& post.amounts@.len() == pre.amounts@.len() + 1
    &&& post.amounts@[post.amounts@.len() - 1]@ == digits
    &&& post.amounts@.take(pre.amounts@.len() as int) == pre.amounts@
    &&& post.approvals_confirmed == pre.approvals_confirmed
}

/// The step aborts after an approval was confirmed: the failure report
/// carries the confirmed approval, which stays in effect on the ledger.
pub open spec fn fails_after_approval(
    pre: Session,
    post: Session,
    action: Action,
    stage: Stage,
    error: OpError,
) -> bool {
    &&& frozen(pre, post)
    &&& post.phase == Phase::Finished
    &&& post.decimals == pre.decimals
    &&& post.amounts == pre.amounts
    &&& post.approvals_confirmed == pre.approvals_confirmed + 1
    &&& action == (Action::Fail {
        stage,
        error,
        approvals_confirmed: (pre.approvals_confirmed + 1) as u64,
    })
}

/// Transitions out of the decimals lookup: the amount at the current
/// position is converted and the next call — the operation's own, or the
/// approval it needs first — is built and broadcast.
pub open spec fn step_decimals_rel(
    pre: Session,
    pos: usize,
    event: Event,
    post: Session,
    action: Action,
) -> bool {
    match event {
        Event::DecimalsValue { value } => match pre.request {
            Request::InitFund { amount, token, recipient } => match to_base_spec(amount@, value) {
                Err(e) => fails(
                    pre,
                    post,
                    action,
                    Stage::Converting,
                    OpError::InvalidRequest { reason: e },
                ),
                Ok(d) => match call_check(
                    pre.raisin_schema.ops@,
                    OpName::InitFund,
                    init_fund_params(),
                ) {
                    Err(e) => fails(
                        pre,
                        post,
                        action,
                        Stage::Building,
                        OpError::SchemaMismatch { reason: e },
                    ),
                    Ok(_) => {
                        &&& converted_and_submitted(pre, post, TxKind::MainCall, value, d)
                        &&& (action matches Action::Submit { call } && {
                            &&& call.target@ == pre.raisin@
                            &&& call.operation == OpName::InitFund
                            &&& call.args@.len() == 3
                            &&& is_uint_arg(call.args@[0], d)
                            &&& is_addr_arg(call.args@[1], token@)
                            &&& is_addr_arg(call.args@[2], recipient@)
                        })
                    },
                },
            },
            Request::Donate { amount, token, index } => match to_base_spec(amount@, value) {
                Err(e) => fails(
                    pre,
                    post,
                    action,
                    Stage::Converting,
                    OpError::InvalidRequest { reason: e },
                ),
                Ok(d) => match call_check(
                    pre.token_schema.ops@,
                    OpName::Approve,
                    spender_amount_params(),
                ) {
                    Err(e) => fails(
                        pre,
                        post,
                        action,
                        Stage::Building,
                        OpError::SchemaMismatch { reason: e },
                    ),
                    Ok(_) => {
                        &&& converted_and_submitted(
                            pre,
                            post,
                            TxKind::ApproveStep { pos: 0 },
                            value,
                            d,
                        )
                        &&& (action matches Action::Submit { call } && approve_call_shape(
                            pre,
                            call,
                            token,
                            d,
                        ))
                    },
                },
            },
            Request::Transfer { amount, token, recipient } => match to_base_spec(amount@, value) {
                Err(e) => fails(
                    pre,
                    post,
                    action,
                    Stage::Converting,
                    OpError::InvalidRequest { reason: e },
                ),
                Ok(d) => match call_check(
                    pre.token_schema.ops@,
                    OpName::Transfer,
                    spender_amount_params(),
                ) {
                    Err(e) => fails(
                        pre,
                        post,
                        action,
                        Stage::Building,
                        OpError::SchemaMismatch { reason: e },
                    ),
                    Ok(_) => {
                        &&& converted_and_submitted(pre, post, TxKind::MainCall, value, d)
                        &&& (action matches Action::Submit { call } && {
                            &&& call.target@ == token@
                            &&& call.operation == OpName::Transfer
                            &&& call.args@.len() == 2
                            &&& is_addr_arg(call.args@[0], recipient@)
                            &&& is_uint_arg(call.args@[1], d)
                        })
                    },
                },
            },
            Request::BatchDonate { amounts, tokens, indices } => match to_base_spec(
                amounts@[pos as int]@,
                value,
            ) {
                Err(e) => fails(
                    pre,
                    post,
                    action,
                    Stage::Converting,
                    OpError::InvalidRequest { reason: e },
                ),
                Ok(d) => match call_check(
                    pre.token_schema.ops@,
                    OpName::Approve,
                    spender_amount_params(),
                ) {
                    Err(e) => fails(
                        pre,
                        post,
                        action,
                        Stage::Building,
                        OpError::SchemaMismatch { reason: e },
                    ),
                    Ok(_) => {
                        &&& converted_and_submitted(pre, post, TxKind::ApproveStep { pos }, value, d)
                        &&& (action matches Action::Submit { call } && approve_call_shape(
                            pre,
                            call,
                            tokens@[pos as int],
                            d,
                        ))
                    },
                },
            },
            Request::GetBalance { token, holder } => match call_check(
                pre.token_schema.ops@,
                OpName::BalanceOf,
                balance_params(),
            ) {
                Err(e) => fails(
                    pre,
                    post,
                    action,
                    Stage::Building,
                    OpError::SchemaMismatch { reason: e },
                ),
                Ok(_) => {
                    &&& frozen(pre, post)
                    &&& post.phase == Phase::AwaitingRead
                    &&& post.decimals == value
                    &&& post.amounts == pre.amounts
                    &&& post.approvals_confirmed == pre.approvals_confirmed
                    &&& (action matches Action::Read { call } && {
                        &&& call.target@ == token@
                        &&& call.operation == OpName::BalanceOf
                        &&& call.args@.len() == 1
                        &&& is_addr_arg(call.args@[0], holder@)
                    })
                },
            },
            Request::GetRaisin { token, index } => match call_check(
                pre.raisin_schema.ops@,
                OpName::Raisins,
                index_params(),
            ) {
                Err(e) => fails(
                    pre,
                    post,
                    action,
                    Stage::Building,
                    OpError::SchemaMismatch { reason: e },
                ),
                Ok(_) => {
                    &&& frozen(pre, post)
                    &&& post.phase == Phase::AwaitingRead
                    &&& post.decimals == value
                    &&& post.amounts == pre.amounts
                    &&& post.approvals_confirmed == pre.approvals_confirmed
                    &&& (action matches Action::Read { call } && {
                        &&& call.target@ == pre.raisin@
                        &&& call.operation == OpName::Raisins
                        &&& call.args@.len() == 1
                        &&& is_uint_arg(call.args@[0], digits_of_nat(index as nat))
                    })
                },
            },
            _ => unexpected(pre, post, action),
        },
        Event::TransportFailure { message } => fails(
            pre,
            post,
            action,
            Stage::Reading,
            OpError::Transport { message },
        ),
        _ => unexpected(pre, post, action),
    }
}

/// Transitions out of awaiting acceptance of a broadcast.
pub open spec fn step_accept_rel(
    pre: Session,
    kind: TxKind,
    tx: PendingTransaction,
    event: Event,
    post: Session,
    action: Action,
) -> bool {
    match event {
        Event::Accepted => {
            &&& frozen(pre, post)
            &&& scratch_kept(pre, post)
            &&& post.phase == (Phase::AwaitingConfirm {
                kind,
                tx: PendingTransaction {
                    depth: tx.depth,
                    observed: tx.observed,
                    state: TxState::Confirming,
                },
            })
            &&& action == (Action::AwaitConfirmations { depth: tx.depth })
        },
        Event::TransportFailure { message } => fails(
            pre,
            post,
            action,
            Stage::Submitting,
            OpError::Transport { message },
        ),
        Event::TransactionDropped { message } => fails(
            pre,
            post,
            action,
            Stage::Submitting,
            OpError::TransactionDropped { message },
        ),
        _ => unexpected(pre, post, action),
    }
}

/// Transitions after an approval reached its confirmation depth: the
/// step that follows it in the operation's order is built and broadcast,
/// or, in a batch, the next token's decimals are requested.
pub open spec fn approval_confirmed_rel(
    pre: Session,
    pos: usize,
    post: Session,
    action: Action,
) -> bool {
    match pre.request {
        Request::Donate { amount, token, index } => match call_check(
            pre.raisin_schema.ops@,
            OpName::DonateToken,
            donate_params(),
        ) {
            Err(e) => fails_after_approval(
                pre,
                post,
                action,
                Stage::Building,
                OpError::SchemaMismatch { reason: e },
            ),
            Ok(_) => {
                &&& frozen(pre, post)
                &&& post.phase == (Phase::AwaitingAccept { kind: TxKind::MainCall, tx: fresh_tx() })
                &&& post.decimals == pre.decimals
                &&& post.amounts == pre.amounts
                &&& post.approvals_confirmed == pre.approvals_confirmed + 1
                &&& (action matches Action::Submit { call } && {
                    &&& call.target@ == pre.raisin@
                    &&& call.operation == OpName::DonateToken
                    &&& call.args@.len() == 3
                    &&& is_addr_arg(call.args@[0], token@)
                    &&& is_uint_arg(call.args@[1], digits_of_nat(index as nat))
                    &&& is_uint_arg(call.args@[2], pre.amounts@[0]@)
                })
            },
        },
        Request::BatchDonate { amounts, tokens, indices } => {
            if pos + 1 < tokens@.len() {
                &&& frozen(pre, post)
                &&& post.phase == (Phase::ResolvingDecimals { pos: (pos + 1) as usize })
                &&& post.decimals == pre.decimals
                &&& post.amounts == pre.amounts
                &&& post.approvals_confirmed == pre.approvals_confirmed + 1
                &&& (action matches Action::ReadDecimals { token } && token@ == tokens@[pos
                    + 1]@)
            } else {
                match call_check(pre.raisin_schema.ops@, OpName::BatchTokenDonate, batch_params()) {
                    Err(e) => fails_after_approval(
                        pre,
                        post,
                        action,
                        Stage::Building,
                        OpError::SchemaMismatch { reason: e },
                    ),
                    Ok(_) => {
                        &&& frozen(pre, post)
                        &&& post.phase == (Phase::AwaitingAccept {
                            kind: TxKind::MainCall,
                            tx: fresh_tx(),
                        })
                        &&& post.decimals == pre.decimals
                        &&& post.amounts == pre.amounts
                        &&& post.approvals_confirmed == pre.approvals_confirmed + 1
                        &&& (action matches Action::Submit { call } && {
                            &&& call.target@ == pre.raisin@
                            &&& call.operation == OpName::BatchTokenDonate
                            &&& call.args@.len() == 3
                            &&& is_addr_list_arg(call.args@[0], tokens.deep_view())
                            &&& is_uint_list_arg(call.args@[1], index_digits(indices@))
                            &&& is_uint_list_arg(call.args@[2], pre.amounts.deep_view())
                        })
                    },
                }
            }
        },
        _ => unexpected(pre, post, action),
    }
}

/// Transitions out of the confirmation wait: fewer confirmations than
/// the depth only renew the wait; reaching the depth finishes the
/// operation or moves to its next step; a drop or revert aborts it.
pub open spec fn step_confirm_rel(
    pre: Session,
    kind: TxKind,
    tx: PendingTransaction,
    event: Event,
    post: Session,
    action: Action,
) -> bool {
    match event {
        Event::Observed { count } => {
            if count < tx.depth {
                &&& frozen(pre, post)
                &&& scratch_kept(pre, post)
                &&& post.phase == (Phase::AwaitingConfirm { kind, tx: observe_result(tx, count).0 })
                &&& action == (Action::AwaitConfirmations { depth: tx.depth })
            } else {
                match kind {
                    TxKind::MainCall => {
                        &&& frozen(pre, post)
                        &&& scratch_kept(pre, post)
                        &&& post.phase == Phase::Finished
                        &&& action == (Action::Succeed { report: Report::TxConfirmed })
                    },
                    TxKind::ApproveStep { pos } => approval_confirmed_rel(pre, pos, post, action),
                }
            }
        },
        Event::TransactionDropped { message } => fails(
            pre,
            post,
            action,
            Stage::Confirming,
            OpError::TransactionDropped { message },
        ),
        Event::TransportFailure { message } => fails(
            pre,
            post,
            action,
            Stage::Confirming,
            OpError::Transport { message },
        ),
        _ => unexpected(pre, post, action),
    }
}

/// Transitions out of a read-only call: the returned integers are
/// rendered at the resolved precision, and a remote failure surfaces its
/// message verbatim.
pub open spec fn step_read_rel(pre: Session, event: Event, post: Session, action: Action) -> bool {
    match event {
        Event::UintValue { value } => match pre.request {
            Request::GetBalance { token, holder } => {
                if !canonical_digits(value@) {
                    fails(
                        pre,
                        post,
                        action,
                        Stage::Converting,
                        OpError::InvalidRequest { reason: UnitError::InvalidAmount },
                    )
                } else {
                    match from_base_spec(value@, pre.decimals) {
                        Err(e) => fails(
                            pre,
                            post,
                            action,
                            Stage::Converting,
                            OpError::InvalidRequest { reason: e },
                        ),
                        Ok(t) => {
                            &&& frozen(pre, post)
                            &&& scratch_kept(pre, post)
                            &&& post.phase == Phase::Finished
                            &&& (action matches Action::Succeed {
                                report: Report::Balance { text },
                            } && text@ == t)
                        },
                    }
                }
            },
            _ => unexpected(pre, post, action),
        },
        Event::RaisinValue { balance, goal, token, raiser, recipient, expires } => match pre
            .request {
            Request::GetRaisin { .. } => {
                if !canonical_digits(balance@) || !canonical_digits(goal@) {
                    fails(
                        pre,
                        post,
                        action,
                        Stage::Converting,
                        OpError::InvalidRequest { reason: UnitError::InvalidAmount },
                    )
                } else if pre.decimals > crate::units::MAX_DECIMALS {
                    fails(
                        pre,
                        post,
                        action,
                        Stage::Converting,
                        OpError::InvalidRequest { reason: UnitError::InvalidPrecision },
                    )
                } else {
                    &&& frozen(pre, post)
                    &&& scratch_kept(pre, post)
                    &&& post.phase == Phase::Finished
                    &&& (action matches Action::Succeed { report: Report::Raisin { record } } && {
                        &&& record.fund_balance@ == rendered(balance@, pre.decimals as nat)
                        &&& record.goal@ == rendered(goal@, pre.decimals as nat)
                        &&& record.token == token
                        &&& record.raiser == raiser
                        &&& record.recipient == recipient
                        &&& record.expires == expires
                    })
                }
            },
            _ => unexpected(pre, post, action),
        },
        Event::TransportFailure { message } => fails(
            pre,
            post,
            action,
            Stage::Reading,
            OpError::Transport { message },
        ),
        _ => unexpected(pre, post, action),
    }
}

/// The whole transition relation: what one step from `pre` on `event`
/// yields, for every phase and every event.
pub open spec fn step_rel(pre: Session, event: Event, post: Session, action: Action) -> bool {
    match pre.phase {
        Phase::ResolvingDecimals { pos } => step_decimals_rel(pre, pos, event, post, action),
        Phase::AwaitingAccept { kind, tx } => step_accept_rel(pre, kind, tx, event, post, action),
        Phase::AwaitingConfirm { kind, tx } => step_confirm_rel(pre, kind, tx, event, post, action),
        Phase::AwaitingRead => step_read_rel(pre, event, post, action),
        Phase::Finished => unexpected(pre, post, action),
    }
}

/// What the tracked transaction kind requires of the session's scratch
/// state: an approval step belongs to a donate or batch-donate request,
/// its position is in range, and the amounts and confirmed approvals
/// count match the position.
pub open spec fn kind_ok(s: Session, kind: TxKind) -> bool {
    match kind {
        TxKind::ApproveStep { pos } => match s.request {
            Request::Donate { .. } => pos == 0 && s.amounts@.len() == 1 && s.approvals_confirmed
                == 0,
            Request::BatchDonate { amounts, tokens, indices } => {
                &&& amounts@.len() == tokens@.len()
                &&& tokens@.len() == indices@.len()
                &&& (pos as int) < tokens@.len()
                &&& s.amounts@.len() == pos + 1
                &&& s.approvals_confirmed == pos
            },
            _ => false,
        },
        TxKind::MainCall => true,
    }
}

impl Session {
    /// The machine's internal invariant: the tracked transaction always
    /// carries the fixed confirmation depth and the state its phase
    /// says, and the batch bookkeeping is consistent.  Established by
    /// `start`, preserved by `step`.
    pub open spec fn wf(&self) -> bool {
        match self.phase {
            Phase::ResolvingDecimals { pos } => match self.request {
                Request::InitFund { .. } => pos == 0 && self.amounts@.len() == 0,
                Request::Donate { .. } => pos == 0 && self.amounts@.len() == 0
                    && self.approvals_confirmed == 0,
                Request::Transfer { .. } => pos == 0 && self.amounts@.len() == 0,
                Request::GetBalance { .. } => pos == 0,
                Request::GetRaisin { .. } => pos == 0,
                Request::BatchDonate { amounts, tokens, indices } => {
                    &&& amounts@.len() == tokens@.len()
                    &&& tokens@.len() == indices@.len()
                    &&& (pos as int) < tokens@.len()
                    &&& self.amounts@.len() == pos
                    &&& self.approvals_confirmed == pos
                },
                _ => false,
            },
            Phase::AwaitingAccept { kind, tx } => {
                &&& tx.depth == CONFIRMATION_DEPTH
                &&& tx.state == TxState::Submitted
                &&& kind_ok(*self, kind)
            },
            Phase::AwaitingConfirm { kind, tx } => {
                &&& tx.depth == CONFIRMATION_DEPTH
                &&& tx.state == TxState::Confirming
                &&& kind_ok(*self, kind)
            },
            Phase::AwaitingRead => self.request matches Request::GetBalance { .. } || self.request
                matches Request::GetRaisin { .. },
            Phase::Finished => true,
        }
    }
}

/// Element-wise copy of a list of addresses.
fn copy_addresses(v: &Vec<Address>) -> (r: Vec<Address>)
    ensures
        r.deep_view() == v.deep_view(),
{
    let mut r: Vec<Address> = Vec::new();
    let mut i: usize = 0;
    while i < v.len()
        invariant
            0 <= i <= v@.len(),
            r@.len() == i,
            forall|j: int| 0 <= j < i ==> r@[j]@ == v@[j]@,
        decreases v@.len() - i,
    {
        r.push(v[i].duplicate());
        i = i + 1;
    }
    proof {
        assert(r.deep_view() =~= v.deep_view());
    }
    r
}

/// Element-wise copy of a list of amounts.
fn copy_amounts(v: &Vec<Amount>) -> (r: Vec<Amount>)
    ensures
        r.deep_view() == v.deep_view(),
{
    let mut r: Vec<Amount> = Vec::new();
    let mut i: usize = 0;
    while i < v.len()
        invariant
            0 <= i <= v@.len(),
            r@.len() == i,
            forall|j: int| 0 <= j < i ==> r@[j]@ == v@[j]@,
        decreases v@.len() - i,
    {
        r.push(v[i].duplicate());
        i = i + 1;
    }
    proof {
        assert(r.deep_view() =~= v.deep_view());
    }
    r
}

/// The canonical amounts of a list of fund indices.
fn amounts_of_indices(v: &Vec<u64>) -> (r: Vec<Amount>)
    ensures
        r.deep_view() == index_digits(v@),
{
    let mut r: Vec<Amount> = Vec::new();
    let mut i: usize = 0;
    while i < v.len()
        invariant
            0 <= i <= v@.len(),
            r@.len() == i,
            forall|j: int| 0 <= j < i ==> r@[j]@ == digits_of_nat(v@[j] as nat),
        decreases v@.len() - i,
    {
        r.push(Amount::from_u64(v[i]));
        i = i + 1;
    }
    proof {
        assert(r.deep_view() =~= index_digits(v@));
    }
    r
}

/// Whether an amount handed back by the chain is in canonical digit
/// form; anything else is refused rather than rendered.
fn check_canonical(a: &Amount) -> (r: bool)
    ensures
        r == canonical_digits(a@),
{
    let n = a.digits.len();
    if n > 0 && a.digits[0] == 0 {
        return false;
    }
    let mut i: usize = 0;
    while i < n
        invariant
            0 <= i <= n,
            n == a.digits@.len(),
            forall|j: int| 0 <= j < i ==> a.digits@[j] < 10,
        decreases n - i,
    {
        if a.digits[i] >= 10 {
            return false;
        }
        i = i + 1;
    }
    true
}

impl Session {
    /// Starts one fund operation: fixes the contract context and the
    /// request, and decides the first action.  A batch donation whose
    /// parallel arrays disagree in length fails validation here, before
    /// any chain action is requested.
    pub fn start(
        raisin: Address,
        raisin_schema: Schema,
        token_schema: Schema,
        request: Request,
    ) -> (r: (Session, Action))
        ensures
            start_rel(raisin, raisin_schema, token_schema, request, r.0, r.1),
            r.0.wf(),
    {
        let (phase, action) = match &request {
            Request::InitFund { token, .. } => (
                Phase::ResolvingDecimals { pos: 0 },
                Action::ReadDecimals { token: token.duplicate() },
            ),
            Request::Donate { token, .. } => (
                Phase::ResolvingDecimals { pos: 0 },
                Action::ReadDecimals { token: token.duplicate() },
            ),
            Request::Transfer { token, .. } => (
                Phase::ResolvingDecimals { pos: 0 },
                Action::ReadDecimals { token: token.duplicate() },
            ),
            Request::GetBalance { token, .. } => (
                Phase::ResolvingDecimals { pos: 0 },
                Action::ReadDecimals { token: token.duplicate() },
            ),
            Request::GetRaisin { token, .. } => (
                Phase::ResolvingDecimals { pos: 0 },
                Action::ReadDecimals { token: token.duplicate() },
            ),
            Request::BatchDonate { amounts: texts, tokens, indices } => {
                if texts.len() != tokens.len() || tokens.len() != indices.len() {
                    (
                        Phase::Finished,
                        Action::Fail {
                            stage: Stage::Validating,
                            error: OpError::BatchLengthMismatch,
                            approvals_confirmed: 0,
                        },
                    )
                } else if tokens.len() == 0 {
                    let no_amounts: Vec<Amount> = Vec::new();
                    proof {
                        assert(no_amounts.deep_view() =~= Seq::<Seq<u8>>::empty());
                    }
                    let mut args: Vec<ArgValue> = Vec::new();
                    args.push(ArgValue::AddressListArg(copy_addresses(tokens)));
                    args.push(ArgValue::UintListArg(amounts_of_indices(indices)));
                    args.push(ArgValue::UintListArg(no_amounts));
                    proof {
                        assert(arg_types(args@) =~= batch_params());
                    }
                    match build_call(
                        &raisin_schema,
                        raisin.duplicate(),
                        OpName::BatchTokenDonate,
                        args,
                    ) {
                        Err(e) => (
                            Phase::Finished,
                            Action::Fail {
                                stage: Stage::Building,
                                error: OpError::SchemaMismatch { reason: e },
                                approvals_confirmed: 0,
                            },
                        ),
                        Ok(call) => (
                            Phase::AwaitingAccept {
                                kind: TxKind::MainCall,
                                tx: PendingTransaction::submit(CONFIRMATION_DEPTH),
                            },
                            Action::Submit { call },
                        ),
                    }
                } else {
                    (
                        Phase::ResolvingDecimals { pos: 0 },
                        Action::ReadDecimals { token: tokens[0].duplicate() },
                    )
                }
            },
            Request::EndFund { index } => start_single_call(
                &raisin_schema,
                &raisin,
                OpName::EndFund,
                *index,
            ),
            Request::Withdraw { index } => start_single_call(
                &raisin_schema,
                &raisin,
                OpName::FundWithdraw,
                *index,
            ),
            Request::Refund { index } => start_single_call(
                &raisin_schema,
                &raisin,
                OpName::Refund,
                *index,
            ),
        };
        (
            Session {
                raisin,
                raisin_schema,
                token_schema,
                request,
                phase,
                decimals: 0,
                amounts: Vec::new(),
                approvals_confirmed: 0,
            },
            action,
        )
    }
}

impl Session {
    /// Advances the operation by one event: decides the next action and
    /// the next state, exactly as the transition relation says.  The
    /// session is consumed; terminal actions leave it finished.
    #[verifier::rlimit(60)]
    pub fn step(self, event: Event) -> (r: (Session, Action))
        requires
            self.wf(),
        ensures
            step_rel(self, event, r.0, r.1),
            r.0.wf(),
    {
        let ghost pre = self;
        let Session {
            raisin,
            raisin_schema,
            token_schema,
            request,
            phase,
            decimals,
            amounts,
            approvals_confirmed,
        } = self;
        let mut decimals = decimals;
        let mut amounts = amounts;
        let mut approvals_confirmed = approvals_confirmed;
        let (new_phase, action) = match phase {
            Phase::ResolvingDecimals { pos } => match event {
                Event::DecimalsValue { value } => match &request {
                    Request::InitFund { amount, token, recipient } => match to_base_units(
                        amount.as_slice(),
                        value,
                    ) {
                        Err(e) => (
                            Phase::Finished,
                            Action::Fail {
                                stage: Stage::Converting,
                                error: OpError::InvalidRequest { reason: e },
                                approvals_confirmed,
                            },
                        ),
                        Ok(a) => {
                            let mut args: Vec<ArgValue> = Vec::new();
                            args.push(ArgValue::UintArg(a.duplicate()));
                            args.push(ArgValue::AddressArg(token.duplicate()));
                            args.push(ArgValue::AddressArg(recipient.duplicate()));
                            proof {
                                assert(arg_types(args@) =~= init_fund_params());
                            }
                            match build_call(
                                &raisin_schema,
                                raisin.duplicate(),
                                OpName::InitFund,
                                args,
                            ) {
                                Err(e) => (
                                    Phase::Finished,
                                    Action::Fail {
                                        stage: Stage::Building,
                                        error: OpError::SchemaMismatch { reason: e },
                                        approvals_confirmed,
                                    },
                                ),
                                Ok(call) => {
                                    let ghost amounts0 = amounts@;
                                    amounts.push(a);
                                    decimals = value;
                                    proof {
                                        assert(amounts@.take(amounts0.len() as int) =~= amounts0);
                                    }
                                    (
                                        Phase::AwaitingAccept {
                                            kind: TxKind::MainCall,
                                            tx: PendingTransaction::submit(CONFIRMATION_DEPTH),
                                        },
                                        Action::Submit { call },
                                    )
                                },
                            }
                        },
                    },
                    Request::Donate { amount, token, .. } => match to_base_units(
                        amount.as_slice(),
                        value,
                    ) {
                        Err(e) => (
                            Phase::Finished,
                            Action::Fail {
                                stage: Stage::Converting,
                                error: OpError::InvalidRequest { reason: e },
                                approvals_confirmed,
                            },
                        ),
                        Ok(a) => {
                            let mut args: Vec<ArgValue> = Vec::new();
                            args.push(ArgValue::AddressArg(raisin.duplicate()));
                            args.push(ArgValue::UintArg(a.duplicate()));
                            proof {
                                assert(arg_types(args@) =~= spender_amount_params());
                            }
                            match build_call(
                                &token_schema,
                                token.duplicate(),
                                OpName::Approve,
                                args,
                            ) {
                                Err(e) => (
                                    Phase::Finished,
                                    Action::Fail {
                                        stage: Stage::Building,
                                        error: OpError::SchemaMismatch { reason: e },
                                        approvals_confirmed,
                                    },
                                ),
                                Ok(call) => {
                                    let ghost amounts0 = amounts@;
                                    amounts.push(a);
                                    decimals = value;
                                    proof {
                                        assert(amounts@.take(amounts0.len() as int) =~= amounts0);
                                    }
                                    (
                                        Phase::AwaitingAccept {
                                            kind: TxKind::ApproveStep { pos: 0 },
                                            tx: PendingTransaction::submit(CONFIRMATION_DEPTH),
                                        },
                                        Action::Submit { call },
                                    )
                                },
                            }
                        },
                    },
                    Request::Transfer { amount, token, recipient } => match to_base_units(
                        amount.as_slice(),
                        value,
                    ) {
                        Err(e) => (
                            Phase::Finished,
                            Action::Fail {
                                stage: Stage::Converting,
                                error: OpError::InvalidRequest { reason: e },
                                approvals_confirmed,
                            },
                        ),
                        Ok(a) => {
                            let mut args: Vec<ArgValue> = Vec::new();
                            args.push(ArgValue::AddressArg(recipient.duplicate()));
                            args.push(ArgValue::UintArg(a.duplicate()));
                            proof {
                                assert(arg_types(args@) =~= spender_amount_params());
                            }
                            match build_call(
                                &token_schema,
                                token.duplicate(),
                                OpName::Transfer,
                                args,
                            ) {
                                Err(e) => (
                                    Phase::Finished,
                                    Action::Fail {
                                        stage: Stage::Building,
                                        error: OpError::SchemaMismatch { reason: e },
                                        approvals_confirmed,
                                    },
                                ),
                                Ok(call) => {
                                    let ghost amounts0 = amounts@;
                                    amounts.push(a);
                                    decimals = value;
                                    proof {
                                        assert(amounts@.take(amounts0.len() as int) =~= amounts0);
                                    }
                                    (
                                        Phase::AwaitingAccept {
                                            kind: TxKind::MainCall,
                                            tx: PendingTransaction::submit(CONFIRMATION_DEPTH),
                                        },
                                        Action::Submit { call },
                                    )
                                },
                            }
                        },
                    },
                    Request::BatchDonate { amounts: texts, tokens, .. } => match to_base_units(
                        texts[pos].as_slice(),
                        value,
                    ) {
                        Err(e) => (
                            Phase::Finished,
                            Action::Fail {
                                stage: Stage::Converting,
                                error: OpError::InvalidRequest { reason: e },
                                approvals_confirmed,
                            },
                        ),
                        Ok(a) => {
                            let mut args: Vec<ArgValue> = Vec::new();
                            args.push(ArgValue::AddressArg(raisin.duplicate()));
                            args.push(ArgValue::UintArg(a.duplicate()));
                            proof {
                                assert(arg_types(args@) =~= spender_amount_params());
                            }
                            match build_call(
                                &token_schema,
                                tokens[pos].duplicate(),
                                OpName::Approve,
                                args,
                            ) {
                                Err(e) => (
                                    Phase::Finished,
                                    Action::Fail {
                                        stage: Stage::Building,
                                        error: OpError::SchemaMismatch { reason: e },
                                        approvals_confirmed,
                                    },
                                ),
                                Ok(call) => {
                                    let ghost amounts0 = amounts@;
                                    amounts.push(a);
                                    decimals = value;
                                    proof {
                                        assert(amounts@.take(amounts0.len() as int) =~= amounts0);
                                    }
                                    (
                                        Phase::AwaitingAccept {
                                            kind: TxKind::ApproveStep { pos },
                                            tx: PendingTransaction::submit(CONFIRMATION_DEPTH),
                                        },
                                        Action::Submit { call },
                                    )
                                },
                            }
                        },
                    },
                    Request::GetBalance { token, holder } => {
                        let mut args: Vec<ArgValue> = Vec::new();
                        args.push(ArgValue::AddressArg(holder.duplicate()));
                        proof {
                            assert(arg_types(args@) =~= balance_params());
                        }
                        match build_call(&token_schema, token.duplicate(), OpName::BalanceOf, args) {
                            Err(e) => (
                                Phase::Finished,
                                Action::Fail {
                                    stage: Stage::Building,
                                    error: OpError::SchemaMismatch { reason: e },
                                    approvals_confirmed,
                                },
                            ),
                            Ok(call) => {
                                decimals = value;
                                (Phase::AwaitingRead, Action::Read { call })
                            },
                        }
                    },
                    Request::GetRaisin { index, .. } => {
                        let mut args: Vec<ArgValue> = Vec::new();
                        args.push(ArgValue::UintArg(Amount::from_u64(*index)));
                        proof {
                            assert(arg_types(args@) =~= index_params());
                        }
                        match build_call(&raisin_schema, raisin.duplicate(), OpName::Raisins, args) {
                            Err(e) => (
                                Phase::Finished,
                                Action::Fail {
                                    stage: Stage::Building,
                                    error: OpError::SchemaMismatch { reason: e },
                                    approvals_confirmed,
                                },
                            ),
                            Ok(call) => {
                                decimals = value;
                                (Phase::AwaitingRead, Action::Read { call })
                            },
                        }
                    },
                    _ => (
                        Phase::Finished,
                        Action::Fail {
                            stage: Stage::Reading,
                            error: OpError::UnexpectedEvent,
                            approvals_confirmed,
                        },
                    ),
                },
                Event::TransportFailure { message } => (
                    Phase::Finished,
                    Action::Fail {
                        stage: Stage::Reading,
                        error: OpError::Transport { message },
                        approvals_confirmed,
                    },
                ),
                _ => (
                    Phase::Finished,
                    Action::Fail {
                        stage: Stage::Reading,
                        error: OpError::UnexpectedEvent,
                        approvals_confirmed,
                    },
                ),
            },
            Phase::AwaitingAccept { kind, tx } => match event {
                Event::Accepted => {
                    let mut tx2 = tx;
                    tx2.accept();
                    (
                        Phase::AwaitingConfirm { kind, tx: tx2 },
                        Action::AwaitConfirmations { depth: tx2.depth },
                    )
                },
                Event::TransportFailure { message } => (
                    Phase::Finished,
                    Action::Fail {
                        stage: Stage::Submitting,
                        error: OpError::Transport { message },
                        approvals_confirmed,
                    },
                ),
                Event::TransactionDropped { message } => (
                    Phase::Finished,
                    Action::Fail {
                        stage: Stage::Submitting,
                        error: OpError::TransactionDropped { message },
                        approvals_confirmed,
                    },
                ),
                _ => (
                    Phase::Finished,
                    Action::Fail {
                        stage: Stage::Submitting,
                        error: OpError::UnexpectedEvent,
                        approvals_confirmed,
                    },
                ),
            },
            Phase::AwaitingConfirm { kind, tx } => match event {
                Event::Observed { count } => {
                    let mut tx2 = tx;
                    let confirmed = tx2.observe(count);
                    if !confirmed {
                        (
                            Phase::AwaitingConfirm { kind, tx: tx2 },
                            Action::AwaitConfirmations { depth: tx.depth },
                        )
                    } else {
                        match kind {
                            TxKind::MainCall => (
                                Phase::Finished,
                                Action::Succeed { report: Report::TxConfirmed },
                            ),
                            TxKind::ApproveStep { pos } => {
                                match &request {
                                    Request::Donate { token, index, .. } => {
                                        approvals_confirmed = approvals_confirmed + 1;
                                        let mut args: Vec<ArgValue> = Vec::new();
                                        args.push(ArgValue::AddressArg(token.duplicate()));
                                        args.push(ArgValue::UintArg(Amount::from_u64(*index)));
                                        args.push(ArgValue::UintArg(amounts[0].duplicate()));
                                        proof {
                                            assert(arg_types(args@) =~= donate_params());
                                        }
                                        match build_call(
                                            &raisin_schema,
                                            raisin.duplicate(),
                                            OpName::DonateToken,
                                            args,
                                        ) {
                                            Err(e) => (
                                                Phase::Finished,
                                                Action::Fail {
                                                    stage: Stage::Building,
                                                    error: OpError::SchemaMismatch { reason: e },
                                                    approvals_confirmed,
                                                },
                                            ),
                                            Ok(call) => (
                                                Phase::AwaitingAccept {
                                                    kind: TxKind::MainCall,
                                                    tx: PendingTransaction::submit(
                                                        CONFIRMATION_DEPTH,
                                                    ),
                                                },
                                                Action::Submit { call },
                                            ),
                                        }
                                    },
                                    Request::BatchDonate { tokens, indices, .. } => {
                                        let n = tokens.len();
                                        approvals_confirmed = approvals_confirmed + 1;
                                        if pos + 1 < n {
                                            (
                                                Phase::ResolvingDecimals { pos: pos + 1 },
                                                Action::ReadDecimals {
                                                    token: tokens[pos + 1].duplicate(),
                                                },
                                            )
                                        } else {
                                            let mut args: Vec<ArgValue> = Vec::new();
                                            args.push(
                                                ArgValue::AddressListArg(copy_addresses(tokens)),
                                            );
                                            args.push(
                                                ArgValue::UintListArg(amounts_of_indices(indices)),
                                            );
                                            args.push(ArgValue::UintListArg(copy_amounts(&amounts)));
                                            proof {
                                                assert(arg_types(args@) =~= batch_params());
                                            }
                                            match build_call(
                                                &raisin_schema,
                                                raisin.duplicate(),
                                                OpName::BatchTokenDonate,
                                                args,
                                            ) {
                                                Err(e) => (
                                                    Phase::Finished,
                                                    Action::Fail {
                                                        stage: Stage::Building,
                                                        error: OpError::SchemaMismatch {
                                                            reason: e,
                                                        },
                                                        approvals_confirmed,
                                                    },
                                                ),
                                                Ok(call) => (
                                                    Phase::AwaitingAccept {
                                                        kind: TxKind::MainCall,
                                                        tx: PendingTransaction::submit(
                                                            CONFIRMATION_DEPTH,
                                                        ),
                                                    },
                                                    Action::Submit { call },
                                                ),
                                            }
                                        }
                                    },
                                    _ => {
                                        proof {
                                            assert(false);
                                        }
                                        (
                                            Phase::Finished,
                                            Action::Fail {
                                                stage: Stage::Confirming,
                                                error: OpError::UnexpectedEvent,
                                                approvals_confirmed,
                                            },
                                        )
                                    },
                                }
                            },
                        }
                    }
                },
                Event::TransactionDropped { message } => (
                    Phase::Finished,
                    Action::Fail {
                        stage: Stage::Confirming,
                        error: OpError::TransactionDropped { message },
                        approvals_confirmed,
                    },
                ),
                Event::TransportFailure { message } => (
                    Phase::Finished,
                    Action::Fail {
                        stage: Stage::Confirming,
                        error: OpError::Transport { message },
                        approvals_confirmed,
                    },
                ),
                _ => (
                    Phase::Finished,
                    Action::Fail {
                        stage: Stage::Confirming,
                        error: OpError::UnexpectedEvent,
                        approvals_confirmed,
                    },
                ),
            },
            Phase::AwaitingRead => match event {
                Event::UintValue { value } => match &request {
                    Request::GetBalance { .. } => {
                        if !check_canonical(&value) {
                            (
                                Phase::Finished,
                                Action::Fail {
                                    stage: Stage::Converting,
                                    error: OpError::InvalidRequest {
                                        reason: UnitError::InvalidAmount,
                                    },
                                    approvals_confirmed,
                                },
                            )
                        } else {
                            match from_base_units(&value, decimals) {
                                Err(e) => (
                                    Phase::Finished,
                                    Action::Fail {
                                        stage: Stage::Converting,
                                        error: OpError::InvalidRequest { reason: e },
                                        approvals_confirmed,
                                    },
                                ),
                                Ok(text) => (
                                    Phase::Finished,
                                    Action::Succeed { report: Report::Balance { text } },
                                ),
                            }
                        }
                    },
                    _ => (
                        Phase::Finished,
                        Action::Fail {
                            stage: Stage::Reading,
                            error: OpError::UnexpectedEvent,
                            approvals_confirmed,
                        },
                    ),
                },
                Event::RaisinValue { balance, goal, token, raiser, recipient, expires } => match &request {
                    Request::GetRaisin { .. } => {
                        if !check_canonical(&balance) || !check_canonical(&goal) {
                            (
                                Phase::Finished,
                                Action::Fail {
                                    stage: Stage::Converting,
                                    error: OpError::InvalidRequest {
                                        reason: UnitError::InvalidAmount,
                                    },
                                    approvals_confirmed,
                                },
                            )
                        } else if decimals > crate::units::MAX_DECIMALS {
                            (
                                Phase::Finished,
                                Action::Fail {
                                    stage: Stage::Converting,
                                    error: OpError::InvalidRequest {
                                        reason: UnitError::InvalidPrecision,
                                    },
                                    approvals_confirmed,
                                },
                            )
                        } else {
                            match from_base_units(&balance, decimals) {
                                Err(_) => {
                                    proof {
                                        assert(false);
                                    }
                                    (
                                        Phase::Finished,
                                        Action::Fail {
                                            stage: Stage::Converting,
                                            error: OpError::UnexpectedEvent,
                                            approvals_confirmed,
                                        },
                                    )
                                },
                                Ok(bt) => match from_base_units(&goal, decimals) {
                                    Err(_) => {
                                        proof {
                                            assert(false);
                                        }
                                        (
                                            Phase::Finished,
                                            Action::Fail {
                                                stage: Stage::Converting,
                                                error: OpError::UnexpectedEvent,
                                                approvals_confirmed,
                                            },
                                        )
                                    },
                                    Ok(gt) => {
                                        let record = FundRecord {
                                            fund_balance: bt,
                                            goal: gt,
                                            token,
                                            raiser,
                                            recipient,
                                            expires,
                                        };
                                        (
                                            Phase::Finished,
                                            Action::Succeed { report: Report::Raisin { record } },
                                        )
                                    },
                                },
                            }
                        }
                    },
                    _ => (
                        Phase::Finished,
                        Action::Fail {
                            stage: Stage::Reading,
                            error: OpError::UnexpectedEvent,
                            approvals_confirmed,
                        },
                    ),
                },
                Event::TransportFailure { message } => (
                    Phase::Finished,
                    Action::Fail {
                        stage: Stage::Reading,
                        error: OpError::Transport { message },
                        approvals_confirmed,
                    },
                ),
                _ => (
                    Phase::Finished,
                    Action::Fail {
                        stage: Stage::Reading,
                        error: OpError::UnexpectedEvent,
                        approvals_confirmed,
                    },
                ),
            },
            Phase::Finished => (
                Phase::Finished,
                Action::Fail {
                    stage: Stage::Validating,
                    error: OpError::UnexpectedEvent,
                    approvals_confirmed,
                },
            ),
        };
        (
            Session {
                raisin,
                raisin_schema,
                token_schema,
                request,
                phase: new_phase,
                decimals,
                amounts,
                approvals_confirmed,
            },
            action,
        )
    }
}

/// Builds and broadcasts one single-index fund call at session start.
fn start_single_call(raisin_schema: &Schema, raisin: &Address, op: OpName, index: u64) -> (r: (
    Phase,
    Action,
))
    ensures
        match call_check(raisin_schema.ops@, op, index_params()) {
            Err(e) => r.0 == Phase::Finished && r.1 == (Action::Fail {
                stage: Stage::Building,
                error: OpError::SchemaMismatch { reason: e },
                approvals_confirmed: 0,
            }),
            Ok(_) => {
                &&& r.0 == (Phase::AwaitingAccept { kind: TxKind::MainCall, tx: fresh_tx() })
                &&& (r.1 matches Action::Submit { call } && {
                    &&& call.target@ == raisin@
                    &&& call.operation == op
                    &&& call.args@.len() == 1
                    &&& is_uint_arg(call.args@[0], digits_of_nat(index as nat))
                })
            },
        },
{
    let mut args: Vec<ArgValue> = Vec::new();
    args.push(ArgValue::UintArg(Amount::from_u64(index)));
    proof {
        assert(arg_types(args@) =~= index_params());
    }
    match build_call(raisin_schema, raisin.duplicate(), op, args) {
        Err(e) => (
            Phase::Finished,
            Action::Fail {
                stage: Stage::Building,
                error: OpError::SchemaMismatch { reason: e },
                approvals_confirmed: 0,
            },
        ),
        Ok(call) => (
            Phase::AwaitingAccept {
                kind: TxKind::MainCall,
                tx: PendingTransaction::submit(CONFIRMATION_DEPTH),
            },
            Action::Submit { call },
        ),
    }
}

/// The starting state reads this token's decimals first.
pub open spec fn reads_decimals(post: Session, action: Action, token: Address) -> bool {
    &&& post.phase == (Phase::ResolvingDecimals { pos: 0 })
    &&& (action matches Action::ReadDecimals { token: t } && t@ == token@)
}

/// The start of a single-call fund operation: the call is built against
/// the schema and broadcast at once.
pub open spec fn single_call_start(
    rs: Schema,
    raisin: Address,
    op: OpName,
    index: u64,
    post: Session,
    action: Action,
) -> bool {
    match call_check(rs.ops@, op, index_params()) {
        Err(e) => post.phase == Phase::Finished && action == (Action::Fail {
            stage: Stage::Building,
            error: OpError::SchemaMismatch { reason: e },
            approvals_confirmed: 0,
        }),
        Ok(_) => {
            &&& post.phase == (Phase::AwaitingAccept { kind: TxKind::MainCall, tx: fresh_tx() })
            &&& (action matches Action::Submit { call } && {
                &&& call.target@ == raisin@
                &&& call.operation == op
                &&& call.args@.len() == 1
                &&& is_uint_arg(call.args@[0], digits_of_nat(index as nat))
            })
        },
    }
}

/// What starting a session yields, for every request: the session's
/// fixed context, and the first action — a decimals read, an immediate
/// broadcast, or an immediate validation failure.
pub open spec fn start_rel(
    raisin: Address,
    raisin_schema: Schema,
    token_schema: Schema,
    request: Request,
    post: Session,
    action: Action,
) -> bool {
    &&& post.raisin == raisin
    &&& post.raisin_schema == raisin_schema
    &&& post.token_schema == token_schema
    &&& post.request == request
    &&& post.decimals == 0
    &&& post.amounts@.len() == 0
    &&& post.approvals_confirmed == 0
    &&& match request {
        Request::InitFund { amount, token, recipient } => reads_decimals(post, action, token),
        Request::Donate { amount, token, index } => reads_decimals(post, action, token),
        Request::Transfer { amount, token, recipient } => reads_decimals(post, action, token),
        Request::GetBalance { token, holder } => reads_decimals(post, action, token),
        Request::GetRaisin { token, index } => reads_decimals(post, action, token),
        Request::BatchDonate { amounts, tokens, indices } => {
            if amounts@.len() != tokens@.len() || tokens@.len() != indices@.len() {
                &&& post.phase == Phase::Finished
                &&& action == (Action::Fail {
                    stage: Stage::Validating,
                    error: OpError::BatchLengthMismatch,
                    approvals_confirmed: 0,
                })
            } else if tokens@.len() == 0 {
                match call_check(raisin_schema.ops@, OpName::BatchTokenDonate, batch_params()) {
                    Err(e) => post.phase == Phase::Finished && action == (Action::Fail {
                        stage: Stage::Building,
                        error: OpError::SchemaMismatch { reason: e },
                        approvals_confirmed: 0,
                    }),
                    Ok(_) => {
                        &&& post.phase == (Phase::AwaitingAccept {
                            kind: TxKind::MainCall,
                            tx: fresh_tx(),
                        })
                        &&& (action matches Action::Submit { call } && {
                            &&& call.target@ == raisin@
                            &&& call.operation == OpName::BatchTokenDonate
                            &&& call.args@.len() == 3
                            &&& is_addr_list_arg(call.args@[0], tokens.deep_view())
                            &&& is_uint_list_arg(call.args@[1], index_digits(indices@))
                            &&& is_uint_list_arg(call.args@[2], Seq::<Seq<u8>>::empty())
                        })
                    },
                }
            } else {
                &&& post.phase == (Phase::ResolvingDecimals { pos: 0 })
                &&& (action matches Action::ReadDecimals { token: t } && t@ == tokens@[0]@)
            }
        },
        Request::EndFund { index } => single_call_start(
            raisin_schema,
            raisin,
            OpName::EndFund,
            index,
            post,
            action,
        ),
        Request::Withdraw { index } => single_call_start(
            raisin_schema,
            raisin,
            OpName::FundWithdraw,
            index,
            post,
            action,
        ),
        Request::Refund { index } => single_call_start(
            raisin_schema,
            raisin,
            OpName::Refund,
            index,
            post,
            action,
        ),
    }
}


/// A batch donation whose parallel arrays disagree in length fails
/// validation at the start: the very first action is already the
/// failure, so no approval — no chain action at all — is ever requested.
pub proof fn lemma_batch_length_mismatch_fails_fast(
    raisin: Address,
    raisin_schema: Schema,
    token_schema: Schema,
    request: Request,
    post: Session,
    action: Action,
)
    requires
        start_rel(raisin, raisin_schema, token_schema, request, post, action),
        request matches Request::BatchDonate { amounts, tokens, indices } && (amounts@.len()
            != tokens@.len() || tokens@.len() != indices@.len()),
    ensures
        action == (Action::Fail {
            stage: Stage::Validating,
            error: OpError::BatchLengthMismatch,
            approvals_confirmed: 0,
        }),
        post.phase == Phase::Finished,
{
}

/// For a donate request, the only call a step out of the decimals
/// lookup can broadcast is the approval on the donated token — never the
/// donation itself.
pub proof fn lemma_donate_approves_first(pre: Session, event: Event, post: Session, action: Action)
    requires
        step_rel(pre, event, post, action),
        pre.request matches Request::Donate { .. },
        pre.phase matches Phase::ResolvingDecimals { .. },
        action matches Action::Submit { .. },
    ensures
        action matches Action::Submit { call } && call.operation == OpName::Approve
            && (pre.request matches Request::Donate { token, .. } && call.target@ == token@),
{
}

/// The donation call is broadcast only by the very step that observes
/// the approval's confirmation reach the fixed depth: approve is
/// submitted and confirmed strictly before the donation is submitted.
pub proof fn lemma_donate_submitted_only_after_approval(
    pre: Session,
    event: Event,
    post: Session,
    action: Action,
)
    requires
        pre.wf(),
        step_rel(pre, event, post, action),
        pre.request matches Request::Donate { .. },
        action matches Action::Submit { call } && call.operation == OpName::DonateToken,
    ensures
        pre.phase matches Phase::AwaitingConfirm { kind: TxKind::ApproveStep { .. }, tx },
        event matches Event::Observed { count } && count >= CONFIRMATION_DEPTH,
{
    match pre.phase {
        Phase::AwaitingConfirm { kind, tx } => {
            assert(tx.depth == CONFIRMATION_DEPTH);
        },
        _ => {},
    }
}

/// If the approval fails — at submission or while confirming — the step
/// aborts the whole operation with a failure action and a finished
/// session; the donation is not submitted in this step.
pub proof fn lemma_approve_failure_aborts(
    pre: Session,
    event: Event,
    post: Session,
    action: Action,
)
    requires
        step_rel(pre, event, post, action),
        pre.request matches Request::Donate { .. } || pre.request matches Request::BatchDonate {
            ..
        },
        (pre.phase matches Phase::AwaitingAccept { kind: TxKind::ApproveStep { .. }, .. })
            || (pre.phase matches Phase::AwaitingConfirm { kind: TxKind::ApproveStep { .. }, .. }),
        (event matches Event::TransportFailure { .. }) || (event
            matches Event::TransactionDropped { .. }),
    ensures
        action matches Action::Fail { .. },
        post.phase == Phase::Finished,
{
}

/// A finished session never submits anything: once an operation has
/// failed or succeeded, no further event can cause a broadcast, so a
/// donation whose approval failed is never invoked later either.
pub proof fn lemma_finished_never_submits(pre: Session, event: Event, post: Session, action: Action)
    requires
        step_rel(pre, event, post, action),
        pre.phase == Phase::Finished,
    ensures
        !(action matches Action::Submit { .. }),
        post.phase == Phase::Finished,
{
}

/// A failed fund query surfaces the remote error message verbatim in the
/// failure report, rather than crashing or rewording it.
pub proof fn lemma_get_raisin_error_verbatim(
    pre: Session,
    message: Vec<u8>,
    post: Session,
    action: Action,
)
    requires
        step_rel(pre, Event::TransportFailure { message }, post, action),
        pre.request matches Request::GetRaisin { .. },
        pre.phase == Phase::AwaitingRead,
    ensures
        action == (Action::Fail {
            stage: Stage::Reading,
            error: OpError::Transport { message },
            approvals_confirmed: pre.approvals_confirmed,
        }),
{
}

/// The fixed-depth policy at the session level: while a transaction is
/// confirming, observing fewer confirmations than the depth only renews
/// the wait — never success — and observing the depth ends the wait at
/// once, finishing the operation when the main call was tracked.
pub proof fn lemma_session_confirmation_depth(
    pre: Session,
    count: u64,
    post: Session,
    action: Action,
)
    requires
        pre.wf(),
        step_rel(pre, Event::Observed { count }, post, action),
        pre.phase matches Phase::AwaitingConfirm { kind: TxKind::MainCall, .. },
    ensures
        count < CONFIRMATION_DEPTH ==> action == (Action::AwaitConfirmations {
            depth: CONFIRMATION_DEPTH,
        }) && (post.phase matches Phase::AwaitingConfirm { kind: TxKind::MainCall, .. }),
        count >= CONFIRMATION_DEPTH ==> action == (Action::Succeed { report: Report::TxConfirmed })
            && post.phase == Phase::Finished,
{
}

} // verus!
