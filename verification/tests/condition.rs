use std::str::FromStr;

use cosmwasm_std::testing::{mock_dependencies, MockApi, MockQuerier, MockStorage};
use cosmwasm_std::{
    BankQuery, Binary, ContractResult, OwnedDeps, QueryRequest, SystemError, SystemResult,
    WasmQuery,
};
use warp_controller::condition::{
    BlockExpr, Condition, DecimalFnOp, Expr, GenExpr, IntFnOp, NumExprOp, NumExprValue, NumFnValue,
    NumOp, NumValue, PathStep, QueryExpr, StringOp, TimeExpr, TimeOp, Value,
};
use warp_controller::error::{ContractError, QueryFault};
use warp_controller::host::{BlockInfo, Deps, Env, QueryReply, Timestamp};
use warp_controller::math::decimal256::Decimal256;
use warp_controller::math::uint256::Uint256;
use warp_controller::util::condition::{
    apply_decimal_expr_op, apply_decimal_fn_op, apply_int_expr_op, apply_int_fn_op,
    apply_uint_expr_op, apply_uint_fn_op, reply_text, resolve_block_expr, resolve_cond,
    resolve_decimal_expr, resolve_decimal_op, resolve_expr, resolve_int_expr, resolve_int_op,
    resolve_num_expr_decimal, resolve_num_expr_int, resolve_num_expr_uint,
    resolve_num_value_decimal, resolve_num_value_int, resolve_num_value_uint, resolve_query_expr,
    resolve_query_expr_bool, resolve_query_expr_decimal, resolve_query_expr_int,
    resolve_query_expr_string, resolve_query_expr_uint, resolve_str_op, resolve_string_expr,
    resolve_timestamp_expr, resolve_uint_expr, resolve_uint_op,
};

type Host = OwnedDeps<MockStorage, MockApi, MockQuerier>;

fn env_at(height: u64, seconds: u64) -> Env {
    Env {
        block: BlockInfo {
            height,
            time: Timestamp { nanos: seconds * 1_000_000_000 + 7 },
            chain_id: "columbus-5".to_string(),
        },
    }
}

fn host_answering(document: &'static str) -> Host {
    let mut host = mock_dependencies();
    host.querier.update_wasm(move |_query: &WasmQuery| {
        SystemResult::Ok(ContractResult::Ok(Binary::from(document.as_bytes())))
    });
    host
}

fn host_refusing(report: &'static str) -> Host {
    let mut host = mock_dependencies();
    host.querier.update_wasm(move |_query: &WasmQuery| {
        SystemResult::Ok(ContractResult::Err(report.to_string()))
    });
    host
}

fn smart_query() -> QueryRequest<String> {
    QueryRequest::Wasm(WasmQuery::Smart {
        contract_addr: "oracle".to_string(),
        msg: Binary::from(b"{\"price\":{}}".to_vec()),
    })
}

fn key(name: &str) -> PathStep {
    PathStep::Key(name.to_string())
}

fn lookup(steps: Vec<PathStep>) -> QueryExpr {
    QueryExpr { selector: steps, query: smart_query() }
}

fn uint(value: u128) -> Uint256 {
    Uint256::from_u128(value)
}

fn uint_of(text: &str) -> Uint256 {
    Uint256 { be: cosmwasm_std::Uint256::from_str(text).unwrap().to_be_bytes() }
}

fn dec(text: &str) -> Decimal256 {
    Decimal256 {
        atomics: Uint256 {
            be: cosmwasm_std::Decimal256::from_str(text).unwrap().atomics().to_be_bytes(),
        },
    }
}

fn int_lit(value: i128) -> NumValue<i128, NumExprOp, IntFnOp> {
    NumValue::Simple(value)
}

fn int_calc(
    left: NumValue<i128, NumExprOp, IntFnOp>,
    op: NumExprOp,
    right: NumValue<i128, NumExprOp, IntFnOp>,
) -> NumValue<i128, NumExprOp, IntFnOp> {
    NumValue::Expr(NumExprValue { left: Box::new(left), op, right: Box::new(right) })
}

fn int_fn(op: IntFnOp, right: NumValue<i128, NumExprOp, IntFnOp>) -> NumValue<i128, NumExprOp, IntFnOp> {
    NumValue::Fn(NumFnValue { op, right: Box::new(right) })
}

fn uint_lit(value: Uint256) -> NumValue<Uint256, NumExprOp, IntFnOp> {
    NumValue::Simple(value)
}

fn uint_calc(
    left: NumValue<Uint256, NumExprOp, IntFnOp>,
    op: NumExprOp,
    right: NumValue<Uint256, NumExprOp, IntFnOp>,
) -> NumValue<Uint256, NumExprOp, IntFnOp> {
    NumValue::Expr(NumExprValue { left: Box::new(left), op, right: Box::new(right) })
}

fn dec_lit(value: Decimal256) -> NumValue<Decimal256, NumExprOp, DecimalFnOp> {
    NumValue::Simple(value)
}

fn dec_calc(
    left: NumValue<Decimal256, NumExprOp, DecimalFnOp>,
    op: NumExprOp,
    right: NumValue<Decimal256, NumExprOp, DecimalFnOp>,
) -> NumValue<Decimal256, NumExprOp, DecimalFnOp> {
    NumValue::Expr(NumExprValue { left: Box::new(left), op, right: Box::new(right) })
}

fn dec_fn(
    op: DecimalFnOp,
    right: NumValue<Decimal256, NumExprOp, DecimalFnOp>,
) -> NumValue<Decimal256, NumExprOp, DecimalFnOp> {
    NumValue::Fn(NumFnValue { op, right: Box::new(right) })
}

fn height_above(comparator: u64) -> Condition {
    Condition::Expr(Expr::BlockHeight(BlockExpr { comparator, op: NumOp::Gt }))
}

fn always_true() -> Condition {
    Condition::Expr(Expr::Int(GenExpr { left: int_lit(1), op: NumOp::Eq, right: int_lit(1) }))
}

fn always_false() -> Condition {
    Condition::Expr(Expr::Int(GenExpr { left: int_lit(1), op: NumOp::Eq, right: int_lit(2) }))
}

fn always_failing() -> Condition {
    Condition::Expr(Expr::Int(GenExpr {
        left: int_calc(int_lit(1), NumExprOp::Div, int_lit(0)),
        op: NumOp::Eq,
        right: int_lit(1),
    }))
}

#[test]
fn empty_and_is_true() {
    let host = mock_dependencies();
    let deps = Deps { host: host.as_ref() };
    let env = env_at(1, 1);
    assert_eq!(resolve_cond(&deps, &env, &Condition::And(vec![])), Ok(true));
}

#[test]
fn empty_or_is_false() {
    let host = mock_dependencies();
    let deps = Deps { host: host.as_ref() };
    let env = env_at(1, 1);
    assert_eq!(resolve_cond(&deps, &env, &Condition::Or(vec![])), Ok(false));
}

#[test]
fn double_negation_changes_nothing() {
    let host = mock_dependencies();
    let deps = Deps { host: host.as_ref() };
    let env = env_at(150, 1);
    for comparator in [100u64, 150, 200] {
        let plain = resolve_cond(&deps, &env, &height_above(comparator));
        let twice = Condition::Not(Box::new(Condition::Not(Box::new(height_above(comparator)))));
        assert_eq!(resolve_cond(&deps, &env, &twice), plain);
    }
    let failing = Condition::Not(Box::new(Condition::Not(Box::new(always_failing()))));
    assert_eq!(resolve_cond(&deps, &env, &failing), Err(ContractError::DivisionByZero));
}

#[test]
fn negation_flips_the_verdict() {
    let host = mock_dependencies();
    let deps = Deps { host: host.as_ref() };
    let env = env_at(1, 1);
    assert_eq!(resolve_cond(&deps, &env, &Condition::Not(Box::new(always_true()))), Ok(false));
    assert_eq!(resolve_cond(&deps, &env, &Condition::Not(Box::new(always_false()))), Ok(true));
}

#[test]
fn and_stops_at_the_first_false_child() {
    let host = mock_dependencies();
    let deps = Deps { host: host.as_ref() };
    let env = env_at(1, 1);
    let cond = Condition::And(vec![Box::new(always_false()), Box::new(always_failing())]);
    assert_eq!(resolve_cond(&deps, &env, &cond), Ok(false));
}

#[test]
fn or_stops_at_the_first_true_child() {
    let host = mock_dependencies();
    let deps = Deps { host: host.as_ref() };
    let env = env_at(1, 1);
    let cond = Condition::Or(vec![Box::new(always_true()), Box::new(always_failing())]);
    assert_eq!(resolve_cond(&deps, &env, &cond), Ok(true));
}

#[test]
fn a_failure_that_is_reached_surfaces() {
    let host = mock_dependencies();
    let deps = Deps { host: host.as_ref() };
    let env = env_at(1, 1);
    let and = Condition::And(vec![Box::new(always_true()), Box::new(always_failing())]);
    assert_eq!(resolve_cond(&deps, &env, &and), Err(ContractError::DivisionByZero));
    let or = Condition::Or(vec![Box::new(always_false()), Box::new(always_failing())]);
    assert_eq!(resolve_cond(&deps, &env, &or), Err(ContractError::DivisionByZero));
    let first = Condition::And(vec![Box::new(always_failing()), Box::new(always_false())]);
    assert_eq!(resolve_cond(&deps, &env, &first), Err(ContractError::DivisionByZero));
}

#[test]
fn and_or_walk_all_children() {
    let host = mock_dependencies();
    let deps = Deps { host: host.as_ref() };
    let env = env_at(1, 1);
    let all = Condition::And(vec![Box::new(always_true()), Box::new(always_true())]);
    assert_eq!(resolve_cond(&deps, &env, &all), Ok(true));
    let last_false = Condition::And(vec![Box::new(always_true()), Box::new(always_false())]);
    assert_eq!(resolve_cond(&deps, &env, &last_false), Ok(false));
    let none = Condition::Or(vec![Box::new(always_false()), Box::new(always_false())]);
    assert_eq!(resolve_cond(&deps, &env, &none), Ok(false));
    let last_true = Condition::Or(vec![Box::new(always_false()), Box::new(always_true())]);
    assert_eq!(resolve_cond(&deps, &env, &last_true), Ok(true));
}

#[test]
fn signed_arithmetic_saturates() {
    assert_eq!(apply_int_expr_op(i128::MAX, 1, NumExprOp::Add), Ok(i128::MAX));
    assert_eq!(apply_int_expr_op(i128::MIN, -1, NumExprOp::Add), Ok(i128::MIN));
    assert_eq!(apply_int_expr_op(i128::MIN, 1, NumExprOp::Sub), Ok(i128::MIN));
    assert_eq!(apply_int_expr_op(i128::MAX, -1, NumExprOp::Sub), Ok(i128::MAX));
    assert_eq!(apply_int_expr_op(i128::MAX, 2, NumExprOp::Mul), Ok(i128::MAX));
    assert_eq!(apply_int_expr_op(i128::MAX, -2, NumExprOp::Mul), Ok(i128::MIN));
    assert_eq!(apply_int_expr_op(i128::MIN, -1, NumExprOp::Mul), Ok(i128::MAX));
    assert_eq!(apply_int_expr_op(20, 22, NumExprOp::Add), Ok(42));
    assert_eq!(apply_int_expr_op(20, 22, NumExprOp::Sub), Ok(-2));
    assert_eq!(apply_int_expr_op(-6, 7, NumExprOp::Mul), Ok(-42));
}

#[test]
fn signed_division_rounds_towards_zero() {
    assert_eq!(apply_int_expr_op(7, 2, NumExprOp::Div), Ok(3));
    assert_eq!(apply_int_expr_op(-7, 2, NumExprOp::Div), Ok(-3));
    assert_eq!(apply_int_expr_op(7, -2, NumExprOp::Div), Ok(-3));
    assert_eq!(apply_int_expr_op(-7, -2, NumExprOp::Div), Ok(3));
    assert_eq!(apply_int_expr_op(7, 2, NumExprOp::Mod), Ok(1));
    assert_eq!(apply_int_expr_op(-7, 2, NumExprOp::Mod), Ok(-1));
    assert_eq!(apply_int_expr_op(7, -2, NumExprOp::Mod), Ok(1));
    assert_eq!(apply_int_expr_op(-7, -2, NumExprOp::Mod), Ok(-1));
}

#[test]
fn signed_division_by_zero_is_an_error() {
    assert_eq!(apply_int_expr_op(7, 0, NumExprOp::Div), Err(ContractError::DivisionByZero));
    assert_eq!(apply_int_expr_op(7, 0, NumExprOp::Mod), Err(ContractError::DivisionByZero));
    assert_eq!(apply_int_expr_op(i128::MIN, -1, NumExprOp::Div), Err(ContractError::Overflow));
    assert_eq!(apply_int_expr_op(i128::MIN, -1, NumExprOp::Mod), Err(ContractError::Overflow));
}

#[test]
fn signed_functions() {
    assert_eq!(apply_int_fn_op(IntFnOp::Abs, -5), Ok(5));
    assert_eq!(apply_int_fn_op(IntFnOp::Abs, 5), Ok(5));
    assert_eq!(apply_int_fn_op(IntFnOp::Abs, i128::MIN), Err(ContractError::Overflow));
    assert_eq!(apply_int_fn_op(IntFnOp::Neg, 5), Ok(-5));
    assert_eq!(apply_int_fn_op(IntFnOp::Neg, -5), Ok(5));
    assert_eq!(apply_int_fn_op(IntFnOp::Neg, i128::MIN), Ok(i128::MAX));
}

#[test]
fn unsigned_arithmetic_saturates() {
    let max = Uint256::max_value();
    assert_eq!(apply_uint_expr_op(max, uint(1), NumExprOp::Add), Ok(max));
    assert_eq!(apply_uint_expr_op(uint(1), uint(2), NumExprOp::Sub), Ok(Uint256::zero()));
    assert_eq!(apply_uint_expr_op(max, uint(2), NumExprOp::Mul), Ok(max));
    assert_eq!(apply_uint_expr_op(uint(20), uint(22), NumExprOp::Add), Ok(uint(42)));
    assert_eq!(apply_uint_expr_op(uint(50), uint(8), NumExprOp::Sub), Ok(uint(42)));
    assert_eq!(apply_uint_expr_op(uint(6), uint(7), NumExprOp::Mul), Ok(uint(42)));
    assert_eq!(
        apply_uint_expr_op(uint(u128::MAX), uint(u128::MAX), NumExprOp::Mul),
        Ok(uint_of("115792089237316195423570985008687907852589419931798687112530834793049593217025"))
    );
}

#[test]
fn unsigned_division() {
    assert_eq!(apply_uint_expr_op(uint(85), uint(2), NumExprOp::Div), Ok(uint(42)));
    assert_eq!(apply_uint_expr_op(uint(85), uint(43), NumExprOp::Mod), Ok(uint(42)));
    assert_eq!(
        apply_uint_expr_op(uint(85), uint(0), NumExprOp::Div),
        Err(ContractError::DivisionByZero)
    );
    assert_eq!(
        apply_uint_expr_op(uint(85), uint(0), NumExprOp::Mod),
        Err(ContractError::DivisionByZero)
    );
}

#[test]
fn unsigned_functions() {
    assert_eq!(apply_uint_fn_op(IntFnOp::Abs, uint(42)), uint(42));
    assert_eq!(apply_uint_fn_op(IntFnOp::Abs, Uint256::zero()), Uint256::zero());
    assert_eq!(apply_uint_fn_op(IntFnOp::Neg, Uint256::zero()), Uint256::max_value());
    assert_eq!(apply_uint_fn_op(IntFnOp::Neg, Uint256::max_value()), Uint256::zero());
    assert_eq!(
        apply_uint_fn_op(IntFnOp::Neg, uint(5)),
        uint_of("115792089237316195423570985008687907853269984665640564039457584007913129639930")
    );
}

#[test]
fn decimal_arithmetic_saturates() {
    let max = Decimal256::max_value();
    assert_eq!(apply_decimal_expr_op(max, dec("0.000000000000000001"), NumExprOp::Add), Ok(max));
    assert_eq!(apply_decimal_expr_op(dec("1"), dec("2.5"), NumExprOp::Sub), Ok(Decimal256::zero()));
    assert_eq!(apply_decimal_expr_op(max, dec("1.5"), NumExprOp::Mul), Ok(max));
    assert_eq!(apply_decimal_expr_op(dec("1.5"), dec("2.25"), NumExprOp::Add), Ok(dec("3.75")));
    assert_eq!(apply_decimal_expr_op(dec("3"), dec("1.25"), NumExprOp::Sub), Ok(dec("1.75")));
    assert_eq!(apply_decimal_expr_op(dec("1.5"), dec("2.5"), NumExprOp::Mul), Ok(dec("3.75")));
    assert_eq!(
        apply_decimal_expr_op(dec("0.000000000000000001"), dec("0.5"), NumExprOp::Mul),
        Ok(Decimal256::zero())
    );
}

#[test]
fn decimal_division() {
    assert_eq!(apply_decimal_expr_op(dec("1"), dec("4"), NumExprOp::Div), Ok(dec("0.25")));
    assert_eq!(
        apply_decimal_expr_op(dec("1"), dec("3"), NumExprOp::Div),
        Ok(dec("0.333333333333333333"))
    );
    assert_eq!(apply_decimal_expr_op(dec("7.5"), dec("2"), NumExprOp::Mod), Ok(dec("1.5")));
    assert_eq!(
        apply_decimal_expr_op(dec("1"), Decimal256::zero(), NumExprOp::Div),
        Err(ContractError::DivisionByZero)
    );
    assert_eq!(
        apply_decimal_expr_op(dec("1"), Decimal256::zero(), NumExprOp::Mod),
        Err(ContractError::DivisionByZero)
    );
    assert_eq!(
        apply_decimal_expr_op(Decimal256::max_value(), dec("0.5"), NumExprOp::Div),
        Err(ContractError::Overflow)
    );
}

#[test]
fn decimal_functions() {
    assert_eq!(apply_decimal_fn_op(DecimalFnOp::Abs, dec("1.5")), Ok(dec("1.5")));
    assert_eq!(apply_decimal_fn_op(DecimalFnOp::Floor, dec("1.5")), Ok(dec("1")));
    assert_eq!(apply_decimal_fn_op(DecimalFnOp::Floor, dec("2")), Ok(dec("2")));
    assert_eq!(apply_decimal_fn_op(DecimalFnOp::Ceil, dec("1.5")), Ok(dec("2")));
    assert_eq!(apply_decimal_fn_op(DecimalFnOp::Ceil, dec("2")), Ok(dec("2")));
    assert_eq!(
        apply_decimal_fn_op(DecimalFnOp::Ceil, Decimal256::max_value()),
        Err(ContractError::Overflow)
    );
    assert_eq!(apply_decimal_fn_op(DecimalFnOp::Sqrt, dec("4")), Ok(dec("2")));
    assert_eq!(apply_decimal_fn_op(DecimalFnOp::Sqrt, dec("2.25")), Ok(dec("1.5")));
    assert_eq!(
        apply_decimal_fn_op(DecimalFnOp::Neg, Decimal256::zero()),
        Ok(Decimal256::max_value())
    );
    assert_eq!(
        apply_decimal_fn_op(DecimalFnOp::Neg, Decimal256::max_value()),
        Ok(Decimal256::zero())
    );
}

#[test]
fn numeric_comparisons() {
    let host = mock_dependencies();
    let deps = Deps { host: host.as_ref() };
    let env = env_at(1, 1);
    let verdicts = |left: i128, right: i128| {
        [NumOp::Eq, NumOp::Neq, NumOp::Lt, NumOp::Gt, NumOp::Gte, NumOp::Lte]
            .map(|op| resolve_int_op(&deps, &env, left, right, op))
    };
    assert_eq!(verdicts(-1, 2), [false, true, true, false, false, true]);
    assert_eq!(verdicts(2, 2), [true, false, false, false, true, true]);
    assert_eq!(verdicts(3, 2), [false, true, false, true, true, false]);
    let verdicts = |left: Uint256, right: Uint256| {
        [NumOp::Eq, NumOp::Neq, NumOp::Lt, NumOp::Gt, NumOp::Gte, NumOp::Lte]
            .map(|op| resolve_uint_op(&deps, &env, left, right, op))
    };
    let big = uint_of("340282366920938463463374607431768211456");
    assert_eq!(verdicts(uint(u128::MAX), big), [false, true, true, false, false, true]);
    assert_eq!(verdicts(big, big), [true, false, false, false, true, true]);
    assert_eq!(verdicts(big, uint(u128::MAX)), [false, true, false, true, true, false]);
    assert_eq!(verdicts(uint(256), uint(255)), [false, true, false, true, true, false]);
    let verdicts = |left: Decimal256, right: Decimal256| {
        [NumOp::Eq, NumOp::Neq, NumOp::Lt, NumOp::Gt, NumOp::Gte, NumOp::Lte]
            .map(|op| resolve_decimal_op(&deps, &env, left, right, op))
    };
    assert_eq!(verdicts(dec("1.5"), dec("2")), [false, true, true, false, false, true]);
    assert_eq!(verdicts(dec("2.0"), dec("2")), [true, false, false, false, true, true]);
    assert_eq!(verdicts(dec("2.000000000000000001"), dec("2")), [false, true, false, true, true, false]);
}

#[test]
fn nested_signed_expressions() {
    let host = mock_dependencies();
    let deps = Deps { host: host.as_ref() };
    let env = env_at(1, 1);
    let value = int_calc(
        int_calc(int_lit(6), NumExprOp::Mul, int_lit(8)),
        NumExprOp::Sub,
        int_fn(IntFnOp::Abs, int_fn(IntFnOp::Neg, int_lit(6))),
    );
    assert_eq!(resolve_num_value_int(&deps, &env, &value), Ok(42));
    let inner = NumExprValue {
        left: Box::new(int_lit(85)),
        op: NumExprOp::Div,
        right: Box::new(int_lit(2)),
    };
    assert_eq!(resolve_num_expr_int(&deps, &env, &inner), Ok(42));
    let expr = GenExpr { left: value, op: NumOp::Gte, right: int_lit(42) };
    assert_eq!(resolve_int_expr(&deps, &env, &expr), Ok(true));
    let failing_left = GenExpr {
        left: int_calc(int_lit(1), NumExprOp::Mod, int_lit(0)),
        op: NumOp::Eq,
        right: int_fn(IntFnOp::Abs, int_lit(i128::MIN)),
    };
    assert_eq!(resolve_int_expr(&deps, &env, &failing_left), Err(ContractError::DivisionByZero));
    let failing_right = GenExpr {
        left: int_lit(1),
        op: NumOp::Eq,
        right: int_fn(IntFnOp::Abs, int_lit(i128::MIN)),
    };
    assert_eq!(resolve_int_expr(&deps, &env, &failing_right), Err(ContractError::Overflow));
}

#[test]
fn nested_unsigned_expressions() {
    let host = mock_dependencies();
    let deps = Deps { host: host.as_ref() };
    let env = env_at(1, 1);
    let value = uint_calc(
        uint_calc(uint_lit(uint(6)), NumExprOp::Mul, uint_lit(uint(8))),
        NumExprOp::Sub,
        NumValue::Fn(NumFnValue { op: IntFnOp::Abs, right: Box::new(uint_lit(uint(6))) }),
    );
    assert_eq!(resolve_num_value_uint(&deps, &env, &value), Ok(uint(42)));
    let inner = NumExprValue {
        left: Box::new(uint_lit(uint(85))),
        op: NumExprOp::Div,
        right: Box::new(uint_lit(uint(2))),
    };
    assert_eq!(resolve_num_expr_uint(&deps, &env, &inner), Ok(uint(42)));
    let expr = GenExpr { left: value, op: NumOp::Lt, right: uint_lit(uint(43)) };
    assert_eq!(resolve_uint_expr(&deps, &env, &expr), Ok(true));
    let failing = GenExpr {
        left: uint_lit(uint(1)),
        op: NumOp::Lt,
        right: uint_calc(uint_lit(uint(1)), NumExprOp::Div, uint_lit(uint(0))),
    };
    assert_eq!(resolve_uint_expr(&deps, &env, &failing), Err(ContractError::DivisionByZero));
}

#[test]
fn nested_decimal_expressions() {
    let host = mock_dependencies();
    let deps = Deps { host: host.as_ref() };
    let env = env_at(1, 1);
    let value = dec_calc(
        dec_fn(DecimalFnOp::Ceil, dec_lit(dec("40.2"))),
        NumExprOp::Add,
        dec_fn(DecimalFnOp::Floor, dec_lit(dec("1.9"))),
    );
    assert_eq!(resolve_num_value_decimal(&deps, &env, &value), Ok(dec("42")));
    let inner = NumExprValue {
        left: Box::new(dec_lit(dec("21"))),
        op: NumExprOp::Mul,
        right: Box::new(dec_fn(DecimalFnOp::Sqrt, dec_lit(dec("4")))),
    };
    assert_eq!(resolve_num_expr_decimal(&deps, &env, &inner), Ok(dec("42")));
    let expr = GenExpr { left: value, op: NumOp::Eq, right: dec_lit(dec("42.0")) };
    assert_eq!(resolve_decimal_expr(&deps, &env, &expr), Ok(true));
    let failing = GenExpr {
        left: dec_fn(DecimalFnOp::Ceil, dec_lit(Decimal256::max_value())),
        op: NumOp::Eq,
        right: dec_lit(dec("42.0")),
    };
    assert_eq!(resolve_decimal_expr(&deps, &env, &failing), Err(ContractError::Overflow));
}

#[test]
fn time_and_height_are_read_from_the_block() {
    let host = mock_dependencies();
    let deps = Deps { host: host.as_ref() };
    let env = env_at(150, 1_000);
    let time = |comparator: u64, op: TimeOp| {
        resolve_timestamp_expr(&deps, &env, &TimeExpr { comparator, op })
    };
    assert_eq!(time(1_001, TimeOp::Lt), Ok(true));
    assert_eq!(time(1_000, TimeOp::Lt), Ok(false));
    assert_eq!(time(999, TimeOp::Gt), Ok(true));
    assert_eq!(time(1_000, TimeOp::Gt), Ok(false));
    let height = |comparator: u64, op: NumOp| {
        resolve_block_expr(&deps, &env, &BlockExpr { comparator, op })
    };
    assert_eq!(height(150, NumOp::Eq), Ok(true));
    assert_eq!(height(150, NumOp::Neq), Ok(false));
    assert_eq!(height(151, NumOp::Lt), Ok(true));
    assert_eq!(height(150, NumOp::Gt), Ok(false));
    assert_eq!(height(100, NumOp::Gt), Ok(true));
    assert_eq!(height(150, NumOp::Gte), Ok(true));
    assert_eq!(height(149, NumOp::Lte), Ok(false));
    let expr = Expr::Timestamp(TimeExpr { comparator: 999, op: TimeOp::Gt });
    assert_eq!(resolve_expr(&deps, &env, &expr), Ok(true));
}

#[test]
fn string_comparisons() {
    let host = mock_dependencies();
    let deps = Deps { host: host.as_ref() };
    let env = env_at(1, 1);
    let text = "hello-world".to_string();
    let verdict = |right: &str, op: StringOp| {
        resolve_str_op(&deps, &env, &text, &right.to_string(), op)
    };
    assert!(verdict("hello", StringOp::StartsWith));
    assert!(!verdict("world", StringOp::StartsWith));
    assert!(verdict("world", StringOp::EndsWith));
    assert!(!verdict("hello", StringOp::EndsWith));
    assert!(verdict("o-w", StringOp::Contains));
    assert!(!verdict("xyz", StringOp::Contains));
    assert!(verdict("hello-world", StringOp::Eq));
    assert!(!verdict("hello", StringOp::Eq));
    assert!(verdict("hello", StringOp::Neq));
    assert!(!verdict("hello-world", StringOp::Neq));
    assert!(verdict("", StringOp::StartsWith));
    assert!(verdict("", StringOp::Contains));
}

#[test]
fn string_expression_with_literals() {
    let host = mock_dependencies();
    let deps = Deps { host: host.as_ref() };
    let env = env_at(1, 1);
    let starts = GenExpr {
        left: Value::Simple("hello-world".to_string()),
        op: StringOp::StartsWith,
        right: Value::Simple("hello".to_string()),
    };
    assert_eq!(resolve_string_expr(&deps, &env, &starts), Ok(true));
    let contains = GenExpr {
        left: Value::Simple("hello-world".to_string()),
        op: StringOp::Contains,
        right: Value::Simple("xyz".to_string()),
    };
    assert_eq!(resolve_string_expr(&deps, &env, &contains), Ok(false));
    assert_eq!(resolve_expr(&deps, &env, &Expr::String(starts)), Ok(true));
}

#[test]
fn string_expression_with_lookups() {
    let host = host_answering(r#"{"name":"hello-world","tags":["a","hello"]}"#);
    let deps = Deps { host: host.as_ref() };
    let env = env_at(1, 1);
    let left_lookup = GenExpr {
        left: Value::Query(lookup(vec![key("name")])),
        op: StringOp::EndsWith,
        right: Value::Simple("world".to_string()),
    };
    assert_eq!(resolve_string_expr(&deps, &env, &left_lookup), Ok(true));
    let right_lookup = GenExpr {
        left: Value::Simple("hello-world".to_string()),
        op: StringOp::StartsWith,
        right: Value::Query(lookup(vec![key("tags"), PathStep::Index(1)])),
    };
    assert_eq!(resolve_string_expr(&deps, &env, &right_lookup), Ok(true));
    let both = GenExpr {
        left: Value::Query(lookup(vec![key("name")])),
        op: StringOp::Contains,
        right: Value::Query(lookup(vec![key("tags"), PathStep::Index(0)])),
    };
    assert_eq!(resolve_string_expr(&deps, &env, &both), Ok(false));
    let missing = GenExpr {
        left: Value::Query(lookup(vec![key("tags"), PathStep::Index(2)])),
        op: StringOp::Eq,
        right: Value::Simple("a".to_string()),
    };
    assert_eq!(resolve_string_expr(&deps, &env, &missing), Err(ContractError::DecodeError));
}

#[test]
fn unsigned_lookup_reads_a_number_from_a_string() {
    let host = host_answering(r#"{"price": "42"}"#);
    let deps = Deps { host: host.as_ref() };
    let env = env_at(1, 1);
    assert_eq!(resolve_query_expr_uint(&deps, &env, &lookup(vec![key("price")])), Ok(uint(42)));
    assert_eq!(
        resolve_query_expr_uint(&deps, &env, &lookup(vec![key("missing")])),
        Err(ContractError::DecodeError)
    );
    let value = uint_calc(
        NumValue::Query(lookup(vec![key("price")])),
        NumExprOp::Mul,
        uint_lit(uint(2)),
    );
    assert_eq!(resolve_num_value_uint(&deps, &env, &value), Ok(uint(84)));
}

#[test]
fn unsigned_lookup_rejects_what_is_not_a_number() {
    let host = host_answering(r#"{"price": 42, "label": "forty-two", "negative": "-1", "empty": ""}"#);
    let deps = Deps { host: host.as_ref() };
    let env = env_at(1, 1);
    for name in ["price", "label", "negative", "empty"] {
        assert_eq!(
            resolve_query_expr_uint(&deps, &env, &lookup(vec![key(name)])),
            Err(ContractError::DecodeError)
        );
    }
}

#[test]
fn typed_lookups() {
    let host = host_answering(
        r#"{"ok": true, "count": -7, "rate": "1.25", "name": "warp", "deep": [{"x": [10, 20, 30]}], "none": null}"#,
    );
    let deps = Deps { host: host.as_ref() };
    let env = env_at(1, 1);
    assert_eq!(resolve_query_expr_bool(&deps, &env, &lookup(vec![key("ok")])), Ok(true));
    assert_eq!(resolve_query_expr_int(&deps, &env, &lookup(vec![key("count")])), Ok(-7));
    assert_eq!(resolve_query_expr_decimal(&deps, &env, &lookup(vec![key("rate")])), Ok(dec("1.25")));
    assert_eq!(
        resolve_query_expr_string(&deps, &env, &lookup(vec![key("name")])),
        Ok("warp".to_string())
    );
    let deep = vec![key("deep"), PathStep::Index(0), key("x"), PathStep::Index(2)];
    assert_eq!(resolve_query_expr_int(&deps, &env, &lookup(deep)), Ok(30));
    assert_eq!(
        resolve_query_expr(&deps, &env, &lookup(vec![])).map(|text| text.len()),
        Ok(102)
    );
}

#[test]
fn lookups_of_the_wrong_kind_fail_to_decode() {
    let host = host_answering(r#"{"ok": true, "count": -7, "rate": "1.25", "name": "warp", "list": [1]}"#);
    let deps = Deps { host: host.as_ref() };
    let env = env_at(1, 1);
    let at = |name: &str| lookup(vec![key(name)]);
    assert_eq!(resolve_query_expr_bool(&deps, &env, &at("count")), Err(ContractError::DecodeError));
    assert_eq!(resolve_query_expr_int(&deps, &env, &at("rate")), Err(ContractError::DecodeError));
    assert_eq!(resolve_query_expr_decimal(&deps, &env, &at("count")), Err(ContractError::DecodeError));
    assert_eq!(resolve_query_expr_decimal(&deps, &env, &at("name")), Err(ContractError::DecodeError));
    assert_eq!(resolve_query_expr_string(&deps, &env, &at("ok")), Err(ContractError::DecodeError));
    assert_eq!(resolve_query_expr_string(&deps, &env, &at("absent")), Err(ContractError::DecodeError));
    let into_scalar = lookup(vec![key("ok"), key("inner")]);
    assert_eq!(resolve_query_expr_bool(&deps, &env, &into_scalar), Err(ContractError::DecodeError));
    let index_into_object = lookup(vec![PathStep::Index(0)]);
    assert_eq!(resolve_query_expr_bool(&deps, &env, &index_into_object), Err(ContractError::DecodeError));
    let key_into_array = lookup(vec![key("list"), key("0")]);
    assert_eq!(resolve_query_expr_int(&deps, &env, &key_into_array), Err(ContractError::DecodeError));
    let past_the_end = lookup(vec![key("list"), PathStep::Index(1)]);
    assert_eq!(resolve_query_expr_int(&deps, &env, &past_the_end), Err(ContractError::DecodeError));
}

#[test]
fn an_answer_that_is_no_document_fails_to_decode() {
    let host = host_answering(r#"{"price": "#);
    let deps = Deps { host: host.as_ref() };
    let env = env_at(1, 1);
    assert_eq!(
        resolve_query_expr_uint(&deps, &env, &lookup(vec![key("price")])),
        Err(ContractError::DecodeError)
    );
}

#[test]
fn bool_expression_is_the_looked_up_verdict() {
    let env = env_at(1, 1);
    let host = host_answering(r#"{"active": false}"#);
    let deps = Deps { host: host.as_ref() };
    let cond = Condition::Expr(Expr::Bool(lookup(vec![key("active")])));
    assert_eq!(resolve_cond(&deps, &env, &cond), Ok(false));
    assert_eq!(resolve_cond(&deps, &env, &Condition::Not(Box::new(cond))), Ok(true));
}

#[test]
fn a_contract_error_is_a_query_failure() {
    let host = host_refusing("insufficient data");
    let deps = Deps { host: host.as_ref() };
    let env = env_at(1, 1);
    assert_eq!(
        resolve_query_expr_uint(&deps, &env, &lookup(vec![key("price")])),
        Err(ContractError::QueryFailed {
            fault: QueryFault::Contract,
            reason: "Querier contract error: insufficient data".to_string(),
        })
    );
}

#[test]
fn a_system_error_is_a_query_failure() {
    let host = mock_dependencies();
    let deps = Deps { host: host.as_ref() };
    let env = env_at(1, 1);
    let expected = SystemError::NoSuchContract { addr: "oracle".to_string() };
    assert_eq!(
        resolve_query_expr(&deps, &env, &lookup(vec![])),
        Err(ContractError::QueryFailed {
            fault: QueryFault::System,
            reason: format!("Querier system error: {}", expected),
        })
    );
    let cond = Condition::And(vec![
        Box::new(always_true()),
        Box::new(Condition::Expr(Expr::Bool(lookup(vec![])))),
    ]);
    assert!(matches!(
        resolve_cond(&deps, &env, &cond),
        Err(ContractError::QueryFailed { fault: QueryFault::System, .. })
    ));
}

#[test]
fn a_bank_query_is_answered_by_the_host() {
    let mut host = mock_dependencies();
    host.querier.update_balance("rich", vec![cosmwasm_std::coin(42, "uluna")]);
    let deps = Deps { host: host.as_ref() };
    let env = env_at(1, 1);
    let expr = QueryExpr {
        selector: vec![key("amount"), key("amount")],
        query: QueryRequest::Bank(BankQuery::Balance {
            address: "rich".to_string(),
            denom: "uluna".to_string(),
        }),
    };
    assert_eq!(resolve_query_expr_uint(&deps, &env, &expr), Ok(uint(42)));
    let denom = QueryExpr {
        selector: vec![key("amount"), key("denom")],
        query: QueryRequest::Bank(BankQuery::Balance {
            address: "rich".to_string(),
            denom: "uluna".to_string(),
        }),
    };
    assert_eq!(resolve_query_expr_string(&deps, &env, &denom), Ok("uluna".to_string()));
}

#[test]
fn reply_text_sorts_the_three_kinds_of_answer() {
    assert_eq!(
        reply_text(QueryReply::Payload("{\"a\":\"\u{e9}\"}".as_bytes().to_vec())),
        Ok("{\"a\":\"\u{e9}\"}".to_string())
    );
    assert_eq!(reply_text(QueryReply::Payload(vec![])), Ok(String::new()));
    assert_eq!(reply_text(QueryReply::Payload(vec![0xff, 0xfe])), Err(ContractError::DecodeError));
    assert_eq!(
        reply_text(QueryReply::SystemFault("no route".to_string())),
        Err(ContractError::QueryFailed {
            fault: QueryFault::System,
            reason: "Querier system error: no route".to_string(),
        })
    );
    assert_eq!(
        reply_text(QueryReply::ContractFault("denied".to_string())),
        Err(ContractError::QueryFailed {
            fault: QueryFault::Contract,
            reason: "Querier contract error: denied".to_string(),
        })
    );
}
