//! Contract call descriptors and the interface schema they are checked
//! against.
//!
//! A [`CallDescriptor`] names a target contract, a remote operation, and
//! its typed arguments.  [`build_call`] validates the operation and the
//! argument types against the contract's interface schema — loaded
//! externally from a descriptor file — before any network interaction:
//! an unknown operation or a mismatched argument list is a schema error,
//! surfaced locally.  Building a descriptor has no side effect.

use crate::address::Address;
use crate::amount::Amount;
use vstd::prelude::*;

verus! {

/// The remote operations this client invokes: the fund lifecycle on the
/// crowdfunding contract and the standard token interface.
#[derive(Clone, Copy, Debug, PartialEq, Eq, Structural)]
pub enum OpName {
    /// `initFund(amount, token, recipient)` — start a fund.
    InitFund,
    /// `donateToken(token, index, amount)` — donate to one fund.
    DonateToken,
    /// `batchTokenDonate(tokens, indices, amounts)` — donate to several.
    BatchTokenDonate,
    /// `endFund(index)` — end a fund.
    EndFund,
    /// `fundWithdraw(index)` — withdraw from a successful fund.
    FundWithdraw,
    /// `refund(index)` — refund from an unsuccessful fund.
    Refund,
    /// `raisins(index)` — read one fund record.
    Raisins,
    /// `decimals()` — read a token's decimal precision.
    Decimals,
    /// `balanceOf(holder)` — read a token balance.
    BalanceOf,
    /// `approve(spender, amount)` — grant a token allowance.
    Approve,
    /// `transfer(to, amount)` — move tokens.
    Transfer,
    /// `mint()` — test-token airdrop.
    Mint,
}

/// The argument shapes the client uses: single values and homogeneous
/// ordered lists of them.
#[derive(Clone, Copy, Debug, PartialEq, Eq, Structural)]
pub enum ParamType {
    AddressParam,
    UintParam,
    AddressListParam,
    UintListParam,
}

/// One typed argument of a contract call.
#[derive(Debug)]
pub enum ArgValue {
    AddressArg(Address),
    UintArg(Amount),
    AddressListArg(Vec<Address>),
    UintListArg(Vec<Amount>),
}

impl ArgValue {
    /// The shape of this argument.
    pub open spec fn spec_param_type(&self) -> ParamType {
        match self {
            ArgValue::AddressArg(_) => ParamType::AddressParam,
            ArgValue::UintArg(_) => ParamType::UintParam,
            ArgValue::AddressListArg(_) => ParamType::AddressListParam,
            ArgValue::UintListArg(_) => ParamType::UintListParam,
        }
    }

    pub fn param_type(&self) -> (t: ParamType)
        ensures
            t == self.spec_param_type(),
    {
        match self {
            ArgValue::AddressArg(_) => ParamType::AddressParam,
            ArgValue::UintArg(_) => ParamType::UintParam,
            ArgValue::AddressListArg(_) => ParamType::AddressListParam,
            ArgValue::UintListArg(_) => ParamType::UintListParam,
        }
    }
}

/// The shapes of an argument list.
pub open spec fn arg_types(args: Seq<ArgValue>) -> Seq<ParamType> {
    args.map_values(|a: ArgValue| a.spec_param_type())
}

/// One operation of a contract interface: its name and parameter shapes.
#[derive(Debug)]
pub struct OpSig {
    pub op: OpName,
    pub params: Vec<ParamType>,
}

/// A contract's interface schema, as loaded from its descriptor file.
#[derive(Debug)]
pub struct Schema {
    pub ops: Vec<OpSig>,
}

/// Why a call could not be built.
#[derive(Clone, Copy, Debug, PartialEq, Eq, Structural)]
pub enum SchemaError {
    /// The schema declares no operation of that name.
    OperationNotFound,
    /// The declared parameters do not match the arguments in number or
    /// shape.
    ArgumentMismatch,
}

/// Whether the schema declares an operation of this name.
pub open spec fn schema_has_op(ops: Seq<OpSig>, op: OpName) -> bool {
    exists|i: int| 0 <= i < ops.len() && ops[i].op == op
}

/// Index of the first declaration of an operation, or the length.
pub open spec fn find_op(ops: Seq<OpSig>, op: OpName) -> int
    decreases ops.len(),
{
    if ops.len() == 0 {
        0
    } else if ops[0].op == op {
        0
    } else {
        1 + find_op(ops.drop_first(), op)
    }
}

/// What validating a call comes to: the operation must be declared and
/// its first declaration's parameter shapes must equal the argument
/// shapes, in number and order.
pub open spec fn call_check(ops: Seq<OpSig>, op: OpName, types: Seq<ParamType>) -> Result<
    (),
    SchemaError,
> {
    if !schema_has_op(ops, op) {
        Err(SchemaError::OperationNotFound)
    } else if ops[find_op(ops, op)].params@ == types {
        Ok(())
    } else {
        Err(SchemaError::ArgumentMismatch)
    }
}

/// An operation-free prefix up to a declaration (or the end) pins
/// `find_op` exactly.
pub proof fn lemma_find_op_at(ops: Seq<OpSig>, op: OpName, i: int)
    requires
        0 <= i <= ops.len(),
        forall|j: int| 0 <= j < i ==> ops[j].op != op,
        i < ops.len() ==> ops[i].op == op,
    ensures
        i < ops.len() ==> schema_has_op(ops, op) && find_op(ops, op) == i,
        i == ops.len() ==> !schema_has_op(ops, op),
    decreases ops.len(),
{
    if i == 0 {
        if 0 < ops.len() {
        } else {
        }
    } else {
        let t = ops.drop_first();
        assert forall|j: int| 0 <= j < i - 1 implies t[j].op != op by {
            assert(ops[j + 1].op != op);
        }
        lemma_find_op_at(t, op, i - 1);
        if i < ops.len() {
            assert(t[i - 1].op == op);
        } else {
            if schema_has_op(ops, op) {
                let w = choose|k: int| 0 <= k < ops.len() && ops[k].op == op;
                assert(w > 0);
                assert(t[w - 1].op == op);
            }
        }
    }
}

/// A call descriptor: target contract, operation, and ordered typed
/// arguments.  Built once per logical action, immutable after
/// construction, consumed by submission exactly once.
#[derive(Debug)]
pub struct CallDescriptor {
    pub target: Address,
    pub operation: OpName,
    pub args: Vec<ArgValue>,
}

/// Builds a call descriptor, validating the operation name and the
/// argument shapes against the interface schema first.  Pure descriptor
/// construction: no network interaction, no side effect.
pub fn build_call(schema: &Schema, target: Address, op: OpName, args: Vec<ArgValue>) -> (r: Result<
    CallDescriptor,
    SchemaError,
>)
    ensures
        match r {
            Ok(d) => call_check(schema.ops@, op, arg_types(args@)) == Ok::<(), SchemaError>(())
                && d.target == target && d.operation == op && d.args == args,
            Err(e) => call_check(schema.ops@, op, arg_types(args@)) == Err::<(), SchemaError>(e),
        },
{
    let n = schema.ops.len();
    let mut i: usize = 0;
    while i < n && schema.ops[i].op != op
        invariant
            0 <= i <= n,
            n == schema.ops@.len(),
            forall|j: int| 0 <= j < i ==> schema.ops@[j].op != op,
        decreases n - i,
    {
        i = i + 1;
    }
    proof {
        lemma_find_op_at(schema.ops@, op, i as int);
    }
    if i == n {
        return Err(SchemaError::OperationNotFound);
    }
    let sig = &schema.ops[i];
    if sig.params.len() != args.len() {
        proof {
            assert(arg_types(args@).len() == args@.len());
            assert(sig.params@ != arg_types(args@));
        }
        return Err(SchemaError::ArgumentMismatch);
    }
    let m = args.len();
    let mut k: usize = 0;
    while k < m
        invariant
            0 <= k <= m,
            m == args@.len() == sig.params@.len(),
            sig == &schema.ops@[i as int],
            i < schema.ops@.len(),
            schema_has_op(schema.ops@, op),
            find_op(schema.ops@, op) == i as int,
            forall|j: int| 0 <= j < k ==> sig.params@[j] == arg_types(args@)[j],
        decreases m - k,
    {
        let pt = args[k].param_type();
        if sig.params[k] != pt {
            proof {
                assert(sig.params@[k as int] != arg_types(args@)[k as int]);
                assert(sig.params@ != arg_types(args@));
            }
            return Err(SchemaError::ArgumentMismatch);
        }
        k = k + 1;
    }
    proof {
        assert(sig.params@ =~= arg_types(args@));
    }
    Ok(CallDescriptor { target, operation: op, args })
}

} // verus!
