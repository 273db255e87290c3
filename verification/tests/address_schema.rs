use raisin::address::{parse_address, Address};
use raisin::amount::Amount;
use raisin::schema::{
    build_call, ArgValue, OpName, OpSig, ParamType, Schema, SchemaError,
};

fn addr(text: &str) -> Address {
    parse_address(text.as_bytes()).unwrap()
}

#[test]
fn parses_prefixed_hex_address() {
    let a = addr("0x7e37Cd627C75DB9b76331F484449E5d98D5C82c5");
    assert_eq!(a.bytes.len(), 20);
    assert_eq!(a.bytes[0], 0x7e);
    assert_eq!(a.bytes[1], 0x37);
    assert_eq!(a.bytes[19], 0xc5);
}

#[test]
fn parses_bare_hex_address() {
    let a = addr("7A56e2F6e2965a3569Fe3BD9c8f65E565C0941ef");
    assert_eq!(a.bytes.len(), 20);
    assert_eq!(a.bytes[0], 0x7a);
    assert_eq!(a.bytes[19], 0xef);
}

#[test]
fn rejects_malformed_addresses() {
    assert!(parse_address(b"0x123").is_err());
    assert!(parse_address(b"").is_err());
    assert!(parse_address(b"0xZe37Cd627C75DB9b76331F484449E5d98D5C82c5").is_err());
    // 41 digits
    assert!(parse_address(b"0x7e37Cd627C75DB9b76331F484449E5d98D5C82c55").is_err());
}

fn token_schema() -> Schema {
    Schema {
        ops: vec![
            OpSig { op: OpName::Decimals, params: vec![] },
            OpSig { op: OpName::BalanceOf, params: vec![ParamType::AddressParam] },
            OpSig {
                op: OpName::Approve,
                params: vec![ParamType::AddressParam, ParamType::UintParam],
            },
            OpSig {
                op: OpName::Transfer,
                params: vec![ParamType::AddressParam, ParamType::UintParam],
            },
        ],
    }
}

#[test]
fn builds_a_matching_call() {
    let schema = token_schema();
    let target = addr("0x7e37Cd627C75DB9b76331F484449E5d98D5C82c5");
    let spender = addr("0x7A56e2F6e2965a3569Fe3BD9c8f65E565C0941ef");
    let args = vec![
        ArgValue::AddressArg(spender),
        ArgValue::UintArg(Amount::from_u64(1000)),
    ];
    let call = build_call(&schema, target, OpName::Approve, args).unwrap();
    assert!(matches!(call.operation, OpName::Approve));
    assert_eq!(call.target.bytes[0], 0x7e);
    assert_eq!(call.args.len(), 2);
    match &call.args[1] {
        ArgValue::UintArg(a) => assert_eq!(a.digits, vec![1, 0, 0, 0]),
        _ => panic!("wrong argument shape"),
    }
}

#[test]
fn refuses_an_undeclared_operation() {
    let schema = token_schema();
    let target = addr("0x7e37Cd627C75DB9b76331F484449E5d98D5C82c5");
    let r = build_call(&schema, target, OpName::InitFund, vec![]);
    assert!(matches!(r.unwrap_err(), SchemaError::OperationNotFound));
}

#[test]
fn refuses_mismatched_arguments() {
    let schema = token_schema();
    let target = addr("0x7e37Cd627C75DB9b76331F484449E5d98D5C82c5");
    // Wrong arity.
    let r = build_call(&schema, target, OpName::Approve, vec![]);
    assert!(matches!(r.unwrap_err(), SchemaError::ArgumentMismatch));
    // Wrong shape: two uints instead of address then uint.
    let target = addr("0x7e37Cd627C75DB9b76331F484449E5d98D5C82c5");
    let args = vec![
        ArgValue::UintArg(Amount::from_u64(1)),
        ArgValue::UintArg(Amount::from_u64(2)),
    ];
    let r = build_call(&schema, target, OpName::Approve, args);
    assert!(matches!(r.unwrap_err(), SchemaError::ArgumentMismatch));
}
