use vstd::prelude::*;
use crate::condition::{
    BlockExpr, Condition, DecimalFnOp, Expr, GenExpr, IntFnOp, NumExprOp, NumExprValue, NumFnValue,
    NumOp, NumValue, PathStep, QueryExpr, StringOp, TimeExpr, TimeOp, Value,
};
use crate::document::{decode, decoding, resolve_path, DocValue, Document};
use crate::error::{ContractError, QueryFault};
use crate::host::{
    base64_bytes, base64_decode, base64_text, binary_to_base64, raw_query, serialize_query,
    serialized_query, string_from_vec, Deps, Env, QueryReply,
};
use crate::math::decimal256::{
    decimal256_abs_diff, decimal256_checked_ceil, decimal256_checked_div, decimal256_checked_rem,
    decimal256_floor, decimal256_from_str, decimal256_parsed, decimal256_saturating_add,
    decimal256_saturating_mul, decimal256_saturating_sub, decimal256_sqrt, decimal256_sqrt_of,
    decimal_ceil, decimal_floor, decimal_product, decimal_quotient, Decimal256,
};
use crate::math::int128::{
    abs, checked_abs, checked_div, checked_rem, clamp_i128, saturating_add, saturating_mul,
    saturating_sub, trunc_div, trunc_rem,
};
use crate::math::uint256::{
    clamp_uint256, order_of, uint256_abs_diff, uint256_checked_div, uint256_checked_rem,
    uint256_from_str, uint256_max, uint256_parsed, uint256_saturating_add,
    uint256_saturating_mul, uint256_saturating_sub, Order, Uint256,
};
use crate::text::{occurs_in, str_contains, str_ends_with, str_starts_with};
use cosmwasm_std::QueryRequest;
use vstd::string::StringExecFns;
use vstd::utf8::{decode_utf8, valid_utf8};

verus! {

/// Whether two numbers that stand as `order` says meet the comparison `op`.
pub open spec fn num_op_holds(order: Order, op: NumOp) -> bool {
    match op {
        NumOp::Eq => order == Order::Level,
        NumOp::Neq => order != Order::Level,
        NumOp::Lt => order == Order::Below,
        NumOp::Gt => order == Order::Above,
        NumOp::Gte => order != Order::Below,
        NumOp::Lte => order != Order::Above,
    }
}

/// Whether `left` and `right` meet the comparison `op`.
pub open spec fn str_op_holds(left: Seq<char>, right: Seq<char>, op: StringOp) -> bool {
    match op {
        StringOp::StartsWith => right.is_prefix_of(left),
        StringOp::EndsWith => right.is_suffix_of(left),
        StringOp::Contains => occurs_in(right, left),
        StringOp::Eq => left == right,
        StringOp::Neq => left != right,
    }
}

/// Whether the time `now` meets the comparison `op` with `comparator`.
pub open spec fn time_op_holds(now: u64, comparator: u64, op: TimeOp) -> bool {
    match op {
        TimeOp::Lt => now < comparator,
        TimeOp::Gt => now > comparator,
    }
}

/// What a binary operation on signed numbers comes to. Sums, differences and
/// products are held within the range; a quotient or remainder is refused for
/// a zero divisor, and for the least number divided by minus one.
pub open spec fn int_expr_result(left: i128, right: i128, op: NumExprOp) -> Result<
    i128,
    ContractError,
> {
    match op {
        NumExprOp::Add => Ok(clamp_i128(left + right)),
        NumExprOp::Sub => Ok(clamp_i128(left - right)),
        NumExprOp::Mul => Ok(clamp_i128(left * right)),
        NumExprOp::Div => if right == 0 {
            Err(ContractError::DivisionByZero)
        } else if left == i128::MIN && right == -1 {
            Err(ContractError::Overflow)
        } else {
            Ok(trunc_div(left as int, right as int) as i128)
        },
        NumExprOp::Mod => if right == 0 {
            Err(ContractError::DivisionByZero)
        } else if left == i128::MIN && right == -1 {
            Err(ContractError::Overflow)
        } else {
            Ok(trunc_rem(left as int, right as int) as i128)
        },
    }
}

/// What a function of one signed number comes to. The magnitude of the least
/// number is refused; its negation is the greatest number.
pub open spec fn int_fn_result(op: IntFnOp, operand: i128) -> Result<i128, ContractError> {
    match op {
        IntFnOp::Abs => if operand == i128::MIN {
            Err(ContractError::Overflow)
        } else {
            Ok(abs(operand as int) as i128)
        },
        IntFnOp::Neg => Ok(clamp_i128(-operand)),
    }
}

/// What a binary operation on unsigned numbers comes to.
pub open spec fn uint_expr_result(left: nat, right: nat, op: NumExprOp) -> Result<
    nat,
    ContractError,
> {
    match op {
        NumExprOp::Add => Ok(clamp_uint256((left + right) as int)),
        NumExprOp::Sub => Ok(clamp_uint256(left - right)),
        NumExprOp::Mul => Ok(clamp_uint256((left * right) as int)),
        NumExprOp::Div => if right == 0 {
            Err(ContractError::DivisionByZero)
        } else {
            Ok(left / right)
        },
        NumExprOp::Mod => if right == 0 {
            Err(ContractError::DivisionByZero)
        } else {
            Ok(left % right)
        },
    }
}

/// What a function of one unsigned number comes to. The magnitude is the
/// number itself; the negation is its distance from the largest number.
pub open spec fn uint_fn_result(op: IntFnOp, operand: nat) -> nat {
    match op {
        IntFnOp::Abs => operand,
        IntFnOp::Neg => clamp_uint256(uint256_max() - operand),
    }
}

/// What a binary operation on decimals comes to, in atomic units.
pub open spec fn decimal_expr_result(left: nat, right: nat, op: NumExprOp) -> Result<
    nat,
    ContractError,
> {
    match op {
        NumExprOp::Add => Ok(clamp_uint256((left + right) as int)),
        NumExprOp::Sub => Ok(clamp_uint256(left - right)),
        NumExprOp::Mul => Ok(clamp_uint256(decimal_product(left, right) as int)),
        NumExprOp::Div => if right == 0 {
            Err(ContractError::DivisionByZero)
        } else if decimal_quotient(left, right) > uint256_max() {
            Err(ContractError::Overflow)
        } else {
            Ok(decimal_quotient(left, right))
        },
        NumExprOp::Mod => if right == 0 {
            Err(ContractError::DivisionByZero)
        } else {
            Ok(left % right)
        },
    }
}

/// What a function of one decimal comes to, in atomic units.
pub open spec fn decimal_fn_result(op: DecimalFnOp, operand: nat) -> Result<nat, ContractError> {
    match op {
        DecimalFnOp::Abs => Ok(operand),
        DecimalFnOp::Neg => Ok(clamp_uint256(uint256_max() - operand)),
        DecimalFnOp::Floor => Ok(decimal_floor(operand)),
        DecimalFnOp::Sqrt => Ok(decimal256_sqrt(operand)),
        DecimalFnOp::Ceil => if decimal_ceil(operand) > uint256_max() {
            Err(ContractError::Overflow)
        } else {
            Ok(decimal_ceil(operand))
        },
    }
}

/// An outcome in unsigned numbers, by value.
pub open spec fn uint_outcome(r: Result<Uint256, ContractError>) -> Result<nat, ContractError> {
    match r {
        Ok(v) => Ok(v@),
        Err(e) => Err(e),
    }
}

/// An outcome in decimals, by value.
pub open spec fn decimal_outcome(r: Result<Decimal256, ContractError>) -> Result<
    nat,
    ContractError,
> {
    match r {
        Ok(v) => Ok(v@),
        Err(e) => Err(e),
    }
}

/// An outcome in texts, by value.
pub open spec fn string_outcome(r: Result<String, ContractError>) -> Result<
    Seq<char>,
    ContractError,
> {
    match r {
        Ok(v) => Ok(v@),
        Err(e) => Err(e),
    }
}

fn order_meets(order: Order, op: NumOp) -> (r: bool)
    ensures
        r == num_op_holds(order, op),
{
    match op {
        NumOp::Eq => matches!(order, Order::Level),
        NumOp::Neq => !matches!(order, Order::Level),
        NumOp::Lt => matches!(order, Order::Below),
        NumOp::Gt => matches!(order, Order::Above),
        NumOp::Gte => !matches!(order, Order::Below),
        NumOp::Lte => !matches!(order, Order::Above),
    }
}

/// Compares two unsigned numbers.
pub fn resolve_uint_op(_deps: &Deps<'_>, _env: &Env, left: Uint256, right: Uint256, op: NumOp) -> (r:
    bool)
    ensures
        r == num_op_holds(order_of(left@ as int, right@ as int), op),
{
    order_meets(left.order(&right), op)
}

/// Compares two signed numbers.
pub fn resolve_int_op(_deps: &Deps<'_>, _env: &Env, left: i128, right: i128, op: NumOp) -> (r: bool)
    ensures
        r == num_op_holds(order_of(left as int, right as int), op),
{
    match op {
        NumOp::Eq => left == right,
        NumOp::Neq => left != right,
        NumOp::Lt => left < right,
        NumOp::Gt => left > right,
        NumOp::Gte => left >= right,
        NumOp::Lte => left <= right,
    }
}

/// Compares two decimals.
pub fn resolve_decimal_op(
    _deps: &Deps<'_>,
    _env: &Env,
    left: Decimal256,
    right: Decimal256,
    op: NumOp,
) -> (r: bool)
    ensures
        r == num_op_holds(order_of(left@ as int, right@ as int), op),
{
    order_meets(left.order(&right), op)
}

/// Compares two texts.
pub fn resolve_str_op(_deps: &Deps<'_>, _env: &Env, left: &String, right: &String, op: StringOp) -> (r:
    bool)
    ensures
        r == str_op_holds(left@, right@, op),
{
    match op {
        StringOp::StartsWith => str_starts_with(left.as_str(), right.as_str()),
        StringOp::EndsWith => str_ends_with(left.as_str(), right.as_str()),
        StringOp::Contains => str_contains(left.as_str(), right.as_str()),
        StringOp::Eq => *left == *right,
        StringOp::Neq => !(*left == *right),
    }
}

/// Compares the block time, in whole seconds, with the comparator.
pub fn resolve_timestamp_expr(_deps: &Deps<'_>, env: &Env, expr: &TimeExpr) -> (r: Result<
    bool,
    ContractError,
>)
    ensures
        r == Ok::<bool, ContractError>(
            time_op_holds(env.block.time.seconds(), expr.comparator, expr.op),
        ),
{
    let res = match expr.op {
        TimeOp::Lt => env.block.time.seconds() < expr.comparator,
        TimeOp::Gt => env.block.time.seconds() > expr.comparator,
    };
    Ok(res)
}

/// Compares the block height with the comparator.
pub fn resolve_block_expr(_deps: &Deps<'_>, env: &Env, expr: &BlockExpr) -> (r: Result<
    bool,
    ContractError,
>)
    ensures
        r == Ok::<bool, ContractError>(
            num_op_holds(order_of(env.block.height as int, expr.comparator as int), expr.op),
        ),
{
    let res = match expr.op {
        NumOp::Eq => env.block.height == expr.comparator,
        NumOp::Neq => env.block.height != expr.comparator,
        NumOp::Lt => env.block.height < expr.comparator,
        NumOp::Gt => env.block.height > expr.comparator,
        NumOp::Gte => env.block.height >= expr.comparator,
        NumOp::Lte => env.block.height <= expr.comparator,
    };
    Ok(res)
}

/// Applies a binary operation to two signed numbers.
pub fn apply_int_expr_op(left: i128, right: i128, op: NumExprOp) -> (r: Result<
    i128,
    ContractError,
>)
    ensures
        r == int_expr_result(left, right, op),
{
    match op {
        NumExprOp::Sub => Ok(saturating_sub(left, right)),
        NumExprOp::Add => Ok(saturating_add(left, right)),
        NumExprOp::Div => match checked_div(left, right) {
            Some(quotient) => Ok(quotient),
            None => if right == 0 {
                Err(ContractError::DivisionByZero)
            } else {
                Err(ContractError::Overflow)
            },
        },
        NumExprOp::Mul => Ok(saturating_mul(left, right)),
        NumExprOp::Mod => match checked_rem(left, right) {
            Some(remainder) => Ok(remainder),
            None => if right == 0 {
                Err(ContractError::DivisionByZero)
            } else {
                Err(ContractError::Overflow)
            },
        },
    }
}

/// Applies a function to one signed number.
pub fn apply_int_fn_op(op: IntFnOp, operand: i128) -> (r: Result<i128, ContractError>)
    ensures
        r == int_fn_result(op, operand),
{
    match op {
        IntFnOp::Abs => match checked_abs(operand) {
            Some(magnitude) => Ok(magnitude),
            None => Err(ContractError::Overflow),
        },
        IntFnOp::Neg => Ok(saturating_mul(operand, -1)),
    }
}

/// Applies a binary operation to two unsigned numbers.
pub fn apply_uint_expr_op(left: Uint256, right: Uint256, op: NumExprOp) -> (r: Result<
    Uint256,
    ContractError,
>)
    ensures
        uint_outcome(r) == uint_expr_result(left@, right@, op),
{
    match op {
        NumExprOp::Sub => Ok(uint256_saturating_sub(left, right)),
        NumExprOp::Add => Ok(uint256_saturating_add(left, right)),
        NumExprOp::Div => match uint256_checked_div(left, right) {
            Some(quotient) => Ok(quotient),
            None => Err(ContractError::DivisionByZero),
        },
        NumExprOp::Mul => Ok(uint256_saturating_mul(left, right)),
        NumExprOp::Mod => match uint256_checked_rem(left, right) {
            Some(remainder) => Ok(remainder),
            None => Err(ContractError::DivisionByZero),
        },
    }
}

/// Applies a function to one unsigned number.
pub fn apply_uint_fn_op(op: IntFnOp, operand: Uint256) -> (r: Uint256)
    ensures
        r@ == uint_fn_result(op, operand@),
{
    match op {
        IntFnOp::Abs => uint256_abs_diff(operand, Uint256::zero()),
        IntFnOp::Neg => uint256_saturating_sub(Uint256::max_value(), operand),
    }
}

/// Applies a binary operation to two decimals.
pub fn apply_decimal_expr_op(left: Decimal256, right: Decimal256, op: NumExprOp) -> (r: Result<
    Decimal256,
    ContractError,
>)
    ensures
        decimal_outcome(r) == decimal_expr_result(left@, right@, op),
{
    match op {
        NumExprOp::Sub => Ok(decimal256_saturating_sub(left, right)),
        NumExprOp::Add => Ok(decimal256_saturating_add(left, right)),
        NumExprOp::Div => decimal256_checked_div(left, right),
        NumExprOp::Mul => Ok(decimal256_saturating_mul(left, right)),
        NumExprOp::Mod => match decimal256_checked_rem(left, right) {
            Some(remainder) => Ok(remainder),
            None => Err(ContractError::DivisionByZero),
        },
    }
}

/// Applies a function to one decimal.
pub fn apply_decimal_fn_op(op: DecimalFnOp, operand: Decimal256) -> (r: Result<
    Decimal256,
    ContractError,
>)
    ensures
        decimal_outcome(r) == decimal_fn_result(op, operand@),
{
    match op {
        DecimalFnOp::Abs => Ok(decimal256_abs_diff(operand, Decimal256::zero())),
        DecimalFnOp::Neg => Ok(decimal256_saturating_sub(Decimal256::max_value(), operand)),
        DecimalFnOp::Floor => Ok(decimal256_floor(operand)),
        DecimalFnOp::Sqrt => Ok(decimal256_sqrt_of(operand)),
        DecimalFnOp::Ceil => match decimal256_checked_ceil(operand) {
            Some(whole) => Ok(whole),
            None => Err(ContractError::Overflow),
        },
    }
}

/// The error is one that an external query ends in: the query was not
/// answered, or its answer does not hold the value asked for.
pub open spec fn query_fault(e: ContractError) -> bool {
    e is QueryFailed || e == ContractError::DecodeError
}

/// What the bytes of an answer come to as text: they are rendered in base 64,
/// read back, and taken as UTF-8.
pub open spec fn payload_text(bytes: Seq<u8>) -> Result<Seq<char>, ContractError> {
    match base64_bytes(base64_text(bytes)) {
        None => Err(ContractError::DecodeError),
        Some(raw) => if valid_utf8(raw) {
            Ok(decode_utf8(raw))
        } else {
            Err(ContractError::DecodeError)
        },
    }
}

/// `r` is the failure of a query at the step `fault`, with the text `reason`.
pub open spec fn failed_with<T>(r: Result<T, ContractError>, fault: QueryFault, reason: Seq<char>) -> bool {
    r matches Err(ContractError::QueryFailed { fault: f, reason: text }) && f == fault && text@
        == reason
}

/// `r` is the failure to serialize a query: the serializer's report behind
/// the name of the step.
pub open spec fn serialize_failed<T>(r: Result<T, ContractError>) -> bool {
    r matches Err(ContractError::QueryFailed { fault, reason }) && fault == QueryFault::Serialize
        && "Serializing QueryRequest: "@.is_prefix_of(reason@)
}

/// The bytes that an answer carries; none where it is a fault.
pub open spec fn reply_bytes(reply: QueryReply) -> Seq<u8> {
    match reply {
        QueryReply::Payload(bytes) => bytes@,
        _ => Seq::empty(),
    }
}

/// `r` is what comes of the answer `reply`, where its payload comes to
/// `on_payload`: a fault of the host or of the queried contract is a failure
/// with the report behind the name of the step, and a payload is what is made
/// of it.
pub open spec fn answered<T>(
    reply: QueryReply,
    on_payload: Result<T, ContractError>,
    r: Result<T, ContractError>,
) -> bool {
    match reply {
        QueryReply::SystemFault(report) => failed_with(
            r,
            QueryFault::System,
            "Querier system error: "@ + report@,
        ),
        QueryReply::ContractFault(report) => failed_with(
            r,
            QueryFault::Contract,
            "Querier contract error: "@ + report@,
        ),
        QueryReply::Payload(_) => r == on_payload,
    }
}

/// What the bytes of an answer come to as a document: their text, decoded.
pub open spec fn payload_value(bytes: Seq<u8>) -> Result<DocValue, ContractError> {
    match payload_text(bytes) {
        Ok(text) => decoding(text),
        Err(e) => Err(e),
    }
}

/// An outcome in documents, by value.
pub open spec fn document_outcome(r: Result<Document, ContractError>) -> Result<
    DocValue,
    ContractError,
> {
    match r {
        Ok(document) => Ok(document.value()),
        Err(e) => Err(e),
    }
}

/// `r` is the text of the answer `reply`.
pub open spec fn text_answer(reply: QueryReply, r: Result<Seq<char>, ContractError>) -> bool {
    answered(reply, payload_text(reply_bytes(reply)), r)
}

/// `r` is the document of the answer `reply`.
pub open spec fn document_answer(reply: QueryReply, r: Result<DocValue, ContractError>) -> bool {
    answered(reply, payload_value(reply_bytes(reply)), r)
}

/// `r` is the truth value at `path` of the document of the answer `reply`.
pub open spec fn bool_answer(
    reply: QueryReply,
    path: Seq<PathStep>,
    r: Result<bool, ContractError>,
) -> bool {
    answered(
        reply,
        match payload_value(reply_bytes(reply)) {
            Ok(value) => bool_at_path(value, path),
            Err(e) => Err(e),
        },
        r,
    )
}

/// `r` is the signed number at `path` of the document of the answer `reply`.
pub open spec fn int_answer(
    reply: QueryReply,
    path: Seq<PathStep>,
    r: Result<i128, ContractError>,
) -> bool {
    answered(
        reply,
        match payload_value(reply_bytes(reply)) {
            Ok(value) => int_at_path(value, path),
            Err(e) => Err(e),
        },
        r,
    )
}

/// `r` is the text at `path` of the document of the answer `reply`.
pub open spec fn string_answer(
    reply: QueryReply,
    path: Seq<PathStep>,
    r: Result<Seq<char>, ContractError>,
) -> bool {
    answered(
        reply,
        match payload_value(reply_bytes(reply)) {
            Ok(value) => text_at_path(value, path),
            Err(e) => Err(e),
        },
        r,
    )
}

/// `r` is the unsigned number that the text at `path` of the document of the
/// answer `reply` spells.
pub open spec fn uint_answer(
    reply: QueryReply,
    path: Seq<PathStep>,
    r: Result<nat, ContractError>,
) -> bool {
    answered(
        reply,
        match payload_value(reply_bytes(reply)) {
            Ok(value) => uint_at_path(value, path),
            Err(e) => Err(e),
        },
        r,
    )
}

/// `r` is the decimal that the text at `path` of the document of the answer
/// `reply` spells, in atomic units.
pub open spec fn decimal_answer(
    reply: QueryReply,
    path: Seq<PathStep>,
    r: Result<nat, ContractError>,
) -> bool {
    answered(
        reply,
        match payload_value(reply_bytes(reply)) {
            Ok(value) => decimal_at_path(value, path),
            Err(e) => Err(e),
        },
        r,
    )
}

/// The truth value at `path` of `document`.
pub open spec fn bool_at_path(document: DocValue, path: Seq<PathStep>) -> Result<
    bool,
    ContractError,
> {
    match document.at_path(path) {
        Some(part) => match part.bool_value() {
            Some(b) => Ok(b),
            None => Err(ContractError::DecodeError),
        },
        None => Err(ContractError::DecodeError),
    }
}

/// The signed number at `path` of `document`.
pub open spec fn int_at_path(document: DocValue, path: Seq<PathStep>) -> Result<
    i128,
    ContractError,
> {
    match document.at_path(path) {
        Some(part) => match part.int_value() {
            Some(n) => Ok(n),
            None => Err(ContractError::DecodeError),
        },
        None => Err(ContractError::DecodeError),
    }
}

/// The text at `path` of `document`.
pub open spec fn text_at_path(document: DocValue, path: Seq<PathStep>) -> Result<
    Seq<char>,
    ContractError,
> {
    match document.at_path(path) {
        Some(part) => match part.text_value() {
            Some(t) => Ok(t),
            None => Err(ContractError::DecodeError),
        },
        None => Err(ContractError::DecodeError),
    }
}

/// The unsigned number that the text at `path` of `document` spells.
pub open spec fn uint_at_path(document: DocValue, path: Seq<PathStep>) -> Result<
    nat,
    ContractError,
> {
    match text_at_path(document, path) {
        Ok(t) => match uint256_parsed(t) {
            Some(v) => Ok(v),
            None => Err(ContractError::DecodeError),
        },
        Err(e) => Err(e),
    }
}

/// The decimal that the text at `path` of `document` spells, in atomic units.
pub open spec fn decimal_at_path(document: DocValue, path: Seq<PathStep>) -> Result<
    nat,
    ContractError,
> {
    match text_at_path(document, path) {
        Ok(t) => match decimal256_parsed(t) {
            Some(v) => Ok(v),
            None => Err(ContractError::DecodeError),
        },
        Err(e) => Err(e),
    }
}

/// `r` is a possible outcome of putting `query` and taking the answer as
/// text: the failure to serialize, exactly where the query cannot be
/// serialized, and otherwise the text of some answer.
pub open spec fn text_lookup(query: QueryRequest<String>, r: Result<Seq<char>, ContractError>) -> bool {
    &&& serialized_query(query) is None <==> serialize_failed(r)
    &&& serialized_query(query) is Some ==> exists|reply: QueryReply| #[trigger]
        text_answer(reply, r)
}

/// `r` is a possible outcome of putting `query` and decoding the answer.
pub open spec fn document_lookup(
    query: QueryRequest<String>,
    r: Result<DocValue, ContractError>,
) -> bool {
    &&& serialized_query(query) is None <==> serialize_failed(r)
    &&& serialized_query(query) is Some ==> exists|reply: QueryReply| #[trigger]
        document_answer(reply, r)
}

/// `r` is a possible outcome of looking up a truth value with `expr`.
pub open spec fn bool_lookup(expr: QueryExpr, r: Result<bool, ContractError>) -> bool {
    &&& serialized_query(expr.query) is None <==> serialize_failed(r)
    &&& serialized_query(expr.query) is Some ==> exists|reply: QueryReply| #[trigger]
        bool_answer(reply, expr.selector@, r)
}

/// `r` is a possible outcome of looking up a signed number with `expr`.
pub open spec fn int_lookup(expr: QueryExpr, r: Result<i128, ContractError>) -> bool {
    &&& serialized_query(expr.query) is None <==> serialize_failed(r)
    &&& serialized_query(expr.query) is Some ==> exists|reply: QueryReply| #[trigger]
        int_answer(reply, expr.selector@, r)
}

/// `r` is a possible outcome of looking up a text with `expr`.
pub open spec fn string_lookup(expr: QueryExpr, r: Result<Seq<char>, ContractError>) -> bool {
    &&& serialized_query(expr.query) is None <==> serialize_failed(r)
    &&& serialized_query(expr.query) is Some ==> exists|reply: QueryReply| #[trigger]
        string_answer(reply, expr.selector@, r)
}

/// `r` is a possible outcome of looking up an unsigned number with `expr`,
/// by value.
pub open spec fn uint_lookup(expr: QueryExpr, r: Result<nat, ContractError>) -> bool {
    &&& serialized_query(expr.query) is None <==> serialize_failed(r)
    &&& serialized_query(expr.query) is Some ==> exists|reply: QueryReply| #[trigger]
        uint_answer(reply, expr.selector@, r)
}

/// `r` is a possible outcome of looking up a decimal with `expr`, in atomic
/// units.
pub open spec fn decimal_lookup(expr: QueryExpr, r: Result<nat, ContractError>) -> bool {
    &&& serialized_query(expr.query) is None <==> serialize_failed(r)
    &&& serialized_query(expr.query) is Some ==> exists|reply: QueryReply| #[trigger]
        decimal_answer(reply, expr.selector@, r)
}

fn query_failure(fault: QueryFault, step: &str, report: &String) -> (e: ContractError)
    ensures
        e matches ContractError::QueryFailed { fault: f, reason } && f == fault && reason@ == step@
            + report@,
{
    let reason = String::from_str(step).concat(report.as_str());
    ContractError::QueryFailed { fault, reason }
}

/// The text that an answer of the query channel holds. A fault becomes
/// `QueryFailed` with the report behind the name of the step; the bytes of a
/// payload become text as `payload_text` says.
pub fn reply_text(reply: QueryReply) -> (r: Result<String, ContractError>)
    ensures
        reply matches QueryReply::SystemFault(report) ==> r matches Err(
            ContractError::QueryFailed { fault, reason },
        ) && fault == QueryFault::System && reason@ == "Querier system error: "@ + report@,
        reply matches QueryReply::ContractFault(report) ==> r matches Err(
            ContractError::QueryFailed { fault, reason },
        ) && fault == QueryFault::Contract && reason@ == "Querier contract error: "@ + report@,
        reply matches QueryReply::Payload(bytes) ==> string_outcome(r) == payload_text(bytes@),
{
    match reply {
        QueryReply::SystemFault(report) => Err(
            query_failure(QueryFault::System, "Querier system error: ", &report),
        ),
        QueryReply::ContractFault(report) => Err(
            query_failure(QueryFault::Contract, "Querier contract error: ", &report),
        ),
        QueryReply::Payload(bytes) => {
            let rendered = binary_to_base64(&bytes);
            match base64_decode(rendered.as_str()) {
                None => Err(ContractError::DecodeError),
                Some(raw) => match string_from_vec(raw) {
                    Some(text) => Ok(text),
                    None => Err(ContractError::DecodeError),
                },
            }
        },
    }
}

/// Puts `query` to the query channel and gives the answer as text. The query
/// is serialized first; where that fails, the failure is the result. What
/// the channel answers is not known beforehand: whatever it is, the result is
/// the text of that answer.
pub fn query_text(deps: &Deps<'_>, query: &QueryRequest<String>) -> (r: Result<
    String,
    ContractError,
>)
    ensures
        r matches Err(e) ==> query_fault(e),
        text_lookup(*query, string_outcome(r)),
{
    let raw = match serialize_query(query) {
        Ok(bytes) => bytes,
        Err(report) => {
            let e = query_failure(QueryFault::Serialize, "Serializing QueryRequest: ", &report);
            proof {
                let step = "Serializing QueryRequest: "@;
                assert((step + report@).subrange(0, step.len() as int) =~= step);
            }
            return Err(e);
        },
    };
    let reply = raw_query(deps, &raw);
    let ghost answer = reply;
    let r = reply_text(reply);
    assert(text_answer(answer, string_outcome(r)));
    r
}

/// Puts the query of `expr` to the query channel and gives the answer as
/// text: the failure to serialize the query, or the text of whatever the
/// channel answers.
pub fn resolve_query_expr(deps: &Deps<'_>, _env: &Env, expr: &QueryExpr) -> (r: Result<
    String,
    ContractError,
>)
    ensures
        r matches Err(e) ==> query_fault(e),
        text_lookup(expr.query, string_outcome(r)),
{
    query_text(deps, &expr.query)
}

/// The truth value at `selector` of `document`.
pub fn bool_at(document: &Document, selector: &Vec<PathStep>) -> (r: Result<bool, ContractError>)
    ensures
        r == bool_at_path(document.value(), selector@),
{
    match resolve_path(document, selector) {
        Some(part) => match part.bool() {
            Some(b) => Ok(b),
            None => Err(ContractError::DecodeError),
        },
        None => Err(ContractError::DecodeError),
    }
}

/// The signed number at `selector` of `document`.
pub fn int_at(document: &Document, selector: &Vec<PathStep>) -> (r: Result<i128, ContractError>)
    ensures
        r == int_at_path(document.value(), selector@),
{
    match resolve_path(document, selector) {
        Some(part) => match part.i128() {
            Some(n) => Ok(n),
            None => Err(ContractError::DecodeError),
        },
        None => Err(ContractError::DecodeError),
    }
}

/// The text at `selector` of `document`.
pub fn string_at(document: &Document, selector: &Vec<PathStep>) -> (r: Result<
    String,
    ContractError,
>)
    ensures
        string_outcome(r) == text_at_path(document.value(), selector@),
{
    match resolve_path(document, selector) {
        Some(part) => match part.string() {
            Some(t) => Ok(t.clone()),
            None => Err(ContractError::DecodeError),
        },
        None => Err(ContractError::DecodeError),
    }
}

/// The unsigned number that the text at `selector` of `document` spells.
pub fn uint_at(document: &Document, selector: &Vec<PathStep>) -> (r: Result<
    Uint256,
    ContractError,
>)
    ensures
        uint_outcome(r) == uint_at_path(document.value(), selector@),
{
    match resolve_path(document, selector) {
        Some(part) => match part.string() {
            Some(t) => match uint256_from_str(t.as_str()) {
                Some(v) => Ok(v),
                None => Err(ContractError::DecodeError),
            },
            None => Err(ContractError::DecodeError),
        },
        None => Err(ContractError::DecodeError),
    }
}

/// The decimal that the text at `selector` of `document` spells.
pub fn decimal_at(document: &Document, selector: &Vec<PathStep>) -> (r: Result<
    Decimal256,
    ContractError,
>)
    ensures
        decimal_outcome(r) == decimal_at_path(document.value(), selector@),
{
    match resolve_path(document, selector) {
        Some(part) => match part.string() {
            Some(t) => match decimal256_from_str(t.as_str()) {
                Some(v) => Ok(v),
                None => Err(ContractError::DecodeError),
            },
            None => Err(ContractError::DecodeError),
        },
        None => Err(ContractError::DecodeError),
    }
}

/// Puts the query of `expr` and decodes the answer: the failure to serialize
/// the query, or the document of whatever the channel answers.
fn resolve_query_document(deps: &Deps<'_>, env: &Env, expr: &QueryExpr) -> (r: Result<
    Document,
    ContractError,
>)
    ensures
        r matches Err(e) ==> query_fault(e),
        document_lookup(expr.query, document_outcome(r)),
{
    let text = match resolve_query_expr(deps, env, expr) {
        Ok(text) => text,
        Err(e) => {
            proof {
                let failed = Err::<String, ContractError>(e);
                if !serialize_failed(failed) {
                    let reply = choose|reply: QueryReply| #[trigger]
                        text_answer(reply, string_outcome(failed));
                    assert(document_answer(reply, Err(e)));
                }
            }
            return Err(e);
        },
    };
    let r = decode(text.as_str());
    proof {
        let read = Ok::<String, ContractError>(text);
        let reply = choose|reply: QueryReply| #[trigger] text_answer(reply, string_outcome(read));
        assert(document_answer(reply, document_outcome(r)));
    }
    r
}

/// Looks up a truth value: the failure to serialize the query of `expr`, or
/// the truth value at the selector in the document of whatever the channel
/// answers.
pub fn resolve_query_expr_bool(deps: &Deps<'_>, env: &Env, expr: &QueryExpr) -> (r: Result<
    bool,
    ContractError,
>)
    ensures
        r matches Err(e) ==> query_fault(e),
        bool_lookup(*expr, r),
{
    let found = resolve_query_document(deps, env, expr);
    let ghost outcome = document_outcome(found);
    let document = match found {
        Ok(document) => document,
        Err(e) => {
            proof {
                if !serialize_failed(found) {
                    let reply = choose|reply: QueryReply| #[trigger]
                        document_answer(reply, outcome);
                    assert(bool_answer(reply, expr.selector@, Err(e)));
                }
            }
            return Err(e);
        },
    };
    let r = bool_at(&document, &expr.selector);
    proof {
        let reply = choose|reply: QueryReply| #[trigger] document_answer(reply, outcome);
        assert(bool_answer(reply, expr.selector@, r));
    }
    r
}

/// Looks up an unsigned number: the failure to serialize the query of
/// `expr`, or the number that the text at the selector spells in the
/// document of whatever the channel answers.
pub fn resolve_query_expr_uint(deps: &Deps<'_>, env: &Env, expr: &QueryExpr) -> (r: Result<
    Uint256,
    ContractError,
>)
    ensures
        r matches Err(e) ==> query_fault(e),
        uint_lookup(*expr, uint_outcome(r)),
{
    let found = resolve_query_document(deps, env, expr);
    let ghost outcome = document_outcome(found);
    let document = match found {
        Ok(document) => document,
        Err(e) => {
            proof {
                if !serialize_failed(found) {
                    let reply = choose|reply: QueryReply| #[trigger]
                        document_answer(reply, outcome);
                    assert(uint_answer(reply, expr.selector@, Err(e)));
                }
            }
            return Err(e);
        },
    };
    let r = uint_at(&document, &expr.selector);
    proof {
        let reply = choose|reply: QueryReply| #[trigger] document_answer(reply, outcome);
        assert(uint_answer(reply, expr.selector@, uint_outcome(r)));
    }
    r
}

/// Looks up a signed number: the failure to serialize the query of `expr`,
/// or the number at the selector in the document of whatever the channel
/// answers.
pub fn resolve_query_expr_int(deps: &Deps<'_>, env: &Env, expr: &QueryExpr) -> (r: Result<
    i128,
    ContractError,
>)
    ensures
        r matches Err(e) ==> query_fault(e),
        int_lookup(*expr, r),
{
    let found = resolve_query_document(deps, env, expr);
    let ghost outcome = document_outcome(found);
    let document = match found {
        Ok(document) => document,
        Err(e) => {
            proof {
                if !serialize_failed(found) {
                    let reply = choose|reply: QueryReply| #[trigger]
                        document_answer(reply, outcome);
                    assert(int_answer(reply, expr.selector@, Err(e)));
                }
            }
            return Err(e);
        },
    };
    let r = int_at(&document, &expr.selector);
    proof {
        let reply = choose|reply: QueryReply| #[trigger] document_answer(reply, outcome);
        assert(int_answer(reply, expr.selector@, r));
    }
    r
}

/// Looks up a decimal: the failure to serialize the query of `expr`, or the
/// decimal that the text at the selector spells in the document of whatever
/// the channel answers.
pub fn resolve_query_expr_decimal(deps: &Deps<'_>, env: &Env, expr: &QueryExpr) -> (r: Result<
    Decimal256,
    ContractError,
>)
    ensures
        r matches Err(e) ==> query_fault(e),
        decimal_lookup(*expr, decimal_outcome(r)),
{
    let found = resolve_query_document(deps, env, expr);
    let ghost outcome = document_outcome(found);
    let document = match found {
        Ok(document) => document,
        Err(e) => {
            proof {
                if !serialize_failed(found) {
                    let reply = choose|reply: QueryReply| #[trigger]
                        document_answer(reply, outcome);
                    assert(decimal_answer(reply, expr.selector@, Err(e)));
                }
            }
            return Err(e);
        },
    };
    let r = decimal_at(&document, &expr.selector);
    proof {
        let reply = choose|reply: QueryReply| #[trigger] document_answer(reply, outcome);
        assert(decimal_answer(reply, expr.selector@, decimal_outcome(r)));
    }
    r
}

/// Looks up a text: the failure to serialize the query of `expr`, or the
/// text at the selector in the document of whatever the channel answers.
pub fn resolve_query_expr_string(deps: &Deps<'_>, env: &Env, expr: &QueryExpr) -> (r: Result<
    String,
    ContractError,
>)
    ensures
        r matches Err(e) ==> query_fault(e),
        string_lookup(*expr, string_outcome(r)),
{
    let found = resolve_query_document(deps, env, expr);
    let ghost outcome = document_outcome(found);
    let document = match found {
        Ok(document) => document,
        Err(e) => {
            proof {
                if !serialize_failed(found) {
                    let reply = choose|reply: QueryReply| #[trigger]
                        document_answer(reply, outcome);
                    assert(string_answer(reply, expr.selector@, Err(e)));
                }
            }
            return Err(e);
        },
    };
    let r = string_at(&document, &expr.selector);
    proof {
        let reply = choose|reply: QueryReply| #[trigger] document_answer(reply, outcome);
        assert(string_answer(reply, expr.selector@, string_outcome(r)));
    }
    r
}

/// The one outcome of an operand that is written down.
pub open spec fn sure<T>(v: T) -> Set<Result<T, ContractError>> {
    Set::new(|r: Result<T, ContractError>| r == Ok::<T, ContractError>(v))
}

/// The outcomes of applying `f` to an operand with the outcomes `operand`:
/// the failures of the operand, and the results of `f` on its values.
pub open spec fn unary_outcomes<T, R>(
    operand: Set<Result<T, ContractError>>,
    f: spec_fn(T) -> Result<R, ContractError>,
) -> Set<Result<R, ContractError>> {
    Set::new(
        |r: Result<R, ContractError>|
            {
                ||| r matches Err(e) && operand.contains(Err(e))
                ||| exists|a: T| #[trigger] operand.contains(Ok(a)) && r == f(a)
            },
    )
}

/// The outcomes of applying `f` to two operands, the left evaluated first:
/// the failures of the left operand; where the left has a value, the failures
/// of the right one; and the results of `f` on the values of both.
pub open spec fn binary_outcomes<T, R>(
    left: Set<Result<T, ContractError>>,
    right: Set<Result<T, ContractError>>,
    f: spec_fn(T, T) -> Result<R, ContractError>,
) -> Set<Result<R, ContractError>> {
    Set::new(
        |r: Result<R, ContractError>|
            {
                ||| r matches Err(e) && left.contains(Err(e))
                ||| exists|a: T| #[trigger]
                    left.contains(Ok(a)) && {
                        ||| r matches Err(e) && right.contains(Err(e))
                        ||| exists|b: T| #[trigger] right.contains(Ok(b)) && r == f(a, b)
                    }
            },
    )
}

/// The possible outcomes of evaluating a signed operand.
pub open spec fn int_value_outcomes(value: NumValue<i128, NumExprOp, IntFnOp>) -> Set<
    Result<i128, ContractError>,
>
    decreases value,
{
    match value {
        NumValue::Simple(v) => sure(v),
        NumValue::Expr(expr) => int_num_expr_outcomes(expr),
        NumValue::Query(expr) => Set::new(|r: Result<i128, ContractError>| int_lookup(expr, r)),
        NumValue::Fn(expr) => int_num_fn_outcomes(expr),
    }
}

/// The possible outcomes of a binary operation on signed operands.
pub open spec fn int_num_expr_outcomes(expr: NumExprValue<i128, NumExprOp, IntFnOp>) -> Set<
    Result<i128, ContractError>,
>
    decreases expr,
{
    binary_outcomes(
        int_value_outcomes(*expr.left),
        int_value_outcomes(*expr.right),
        |a: i128, b: i128| int_expr_result(a, b, expr.op),
    )
}

/// The possible outcomes of a function of one signed operand.
pub open spec fn int_num_fn_outcomes(expr: NumFnValue<i128, NumExprOp, IntFnOp>) -> Set<
    Result<i128, ContractError>,
>
    decreases expr,
{
    unary_outcomes(int_value_outcomes(*expr.right), |a: i128| int_fn_result(expr.op, a))
}

/// The possible verdicts of comparing two signed operands.
pub open spec fn int_expr_outcomes(expr: GenExpr<NumValue<i128, NumExprOp, IntFnOp>, NumOp>) -> Set<
    Result<bool, ContractError>,
> {
    binary_outcomes(
        int_value_outcomes(expr.left),
        int_value_outcomes(expr.right),
        |a: i128, b: i128|
            Ok::<bool, ContractError>(num_op_holds(order_of(a as int, b as int), expr.op)),
    )
}

/// Evaluates a signed operand.
pub fn resolve_num_value_int(
    deps: &Deps<'_>,
    env: &Env,
    value: &NumValue<i128, NumExprOp, IntFnOp>,
) -> (r: Result<i128, ContractError>)
    ensures
        int_value_outcomes(*value).contains(r),
    decreases value,
{
    match value {
        NumValue::Simple(value) => Ok(*value),
        NumValue::Expr(expr) => resolve_num_expr_int(deps, env, expr),
        NumValue::Query(expr) => resolve_query_expr_int(deps, env, expr),
        NumValue::Fn(expr) => resolve_num_fn_int(deps, env, expr),
    }
}

/// Evaluates a function of one signed operand.
fn resolve_num_fn_int(deps: &Deps<'_>, env: &Env, expr: &NumFnValue<i128, NumExprOp, IntFnOp>) -> (r:
    Result<i128, ContractError>)
    ensures
        int_num_fn_outcomes(*expr).contains(r),
    decreases expr,
{
    let right = match resolve_num_value_int(deps, env, &expr.right) {
        Ok(v) => v,
        Err(e) => {
            return Err(e);
        },
    };
    apply_int_fn_op(expr.op, right)
}

/// Evaluates a binary operation on signed operands, the left operand first.
pub fn resolve_num_expr_int(
    deps: &Deps<'_>,
    env: &Env,
    expr: &NumExprValue<i128, NumExprOp, IntFnOp>,
) -> (r: Result<i128, ContractError>)
    ensures
        int_num_expr_outcomes(*expr).contains(r),
    decreases expr,
{
    let left = match resolve_num_value_int(deps, env, &expr.left) {
        Ok(v) => v,
        Err(e) => {
            return Err(e);
        },
    };
    let right = match resolve_num_value_int(deps, env, &expr.right) {
        Ok(v) => v,
        Err(e) => {
            return Err(e);
        },
    };
    apply_int_expr_op(left, right, expr.op)
}

/// Compares two signed operands, evaluating the left one first.
pub fn resolve_int_expr(
    deps: &Deps<'_>,
    env: &Env,
    expr: &GenExpr<NumValue<i128, NumExprOp, IntFnOp>, NumOp>,
) -> (r: Result<bool, ContractError>)
    ensures
        int_expr_outcomes(*expr).contains(r),
{
    let left = match resolve_num_value_int(deps, env, &expr.left) {
        Ok(v) => v,
        Err(e) => {
            return Err(e);
        },
    };
    let right = match resolve_num_value_int(deps, env, &expr.right) {
        Ok(v) => v,
        Err(e) => {
            return Err(e);
        },
    };
    Ok(resolve_int_op(deps, env, left, right, expr.op))
}

/// The possible outcomes of evaluating an unsigned operand, by value.
pub open spec fn uint_value_outcomes(value: NumValue<Uint256, NumExprOp, IntFnOp>) -> Set<
    Result<nat, ContractError>,
>
    decreases value,
{
    match value {
        NumValue::Simple(v) => sure(v@),
        NumValue::Expr(expr) => uint_num_expr_outcomes(expr),
        NumValue::Query(expr) => Set::new(|r: Result<nat, ContractError>| uint_lookup(expr, r)),
        NumValue::Fn(expr) => uint_num_fn_outcomes(expr),
    }
}

/// The possible outcomes of a binary operation on unsigned operands.
pub open spec fn uint_num_expr_outcomes(expr: NumExprValue<Uint256, NumExprOp, IntFnOp>) -> Set<
    Result<nat, ContractError>,
>
    decreases expr,
{
    binary_outcomes(
        uint_value_outcomes(*expr.left),
        uint_value_outcomes(*expr.right),
        |a: nat, b: nat| uint_expr_result(a, b, expr.op),
    )
}

/// The possible outcomes of a function of one unsigned operand.
pub open spec fn uint_num_fn_outcomes(expr: NumFnValue<Uint256, NumExprOp, IntFnOp>) -> Set<
    Result<nat, ContractError>,
>
    decreases expr,
{
    unary_outcomes(
        uint_value_outcomes(*expr.right),
        |a: nat| Ok::<nat, ContractError>(uint_fn_result(expr.op, a)),
    )
}

/// The possible verdicts of comparing two unsigned operands.
pub open spec fn uint_expr_outcomes(
    expr: GenExpr<NumValue<Uint256, NumExprOp, IntFnOp>, NumOp>,
) -> Set<Result<bool, ContractError>> {
    binary_outcomes(
        uint_value_outcomes(expr.left),
        uint_value_outcomes(expr.right),
        |a: nat, b: nat|
            Ok::<bool, ContractError>(num_op_holds(order_of(a as int, b as int), expr.op)),
    )
}

/// Evaluates an unsigned operand.
pub fn resolve_num_value_uint(
    deps: &Deps<'_>,
    env: &Env,
    value: &NumValue<Uint256, NumExprOp, IntFnOp>,
) -> (r: Result<Uint256, ContractError>)
    ensures
        uint_value_outcomes(*value).contains(uint_outcome(r)),
    decreases value,
{
    match value {
        NumValue::Simple(value) => Ok(*value),
        NumValue::Expr(expr) => resolve_num_expr_uint(deps, env, expr),
        NumValue::Query(expr) => resolve_query_expr_uint(deps, env, expr),
        NumValue::Fn(expr) => resolve_num_fn_uint(deps, env, expr),
    }
}

/// Evaluates a function of one unsigned operand.
fn resolve_num_fn_uint(deps: &Deps<'_>, env: &Env, expr: &NumFnValue<Uint256, NumExprOp, IntFnOp>) -> (r:
    Result<Uint256, ContractError>)
    ensures
        uint_num_fn_outcomes(*expr).contains(uint_outcome(r)),
    decreases expr,
{
    let right = match resolve_num_value_uint(deps, env, &expr.right) {
        Ok(v) => v,
        Err(e) => {
            return Err(e);
        },
    };
    Ok(apply_uint_fn_op(expr.op, right))
}

/// Evaluates a binary operation on unsigned operands, the left operand first.
pub fn resolve_num_expr_uint(
    deps: &Deps<'_>,
    env: &Env,
    expr: &NumExprValue<Uint256, NumExprOp, IntFnOp>,
) -> (r: Result<Uint256, ContractError>)
    ensures
        uint_num_expr_outcomes(*expr).contains(uint_outcome(r)),
    decreases expr,
{
    let left = match resolve_num_value_uint(deps, env, &expr.left) {
        Ok(v) => v,
        Err(e) => {
            return Err(e);
        },
    };
    let right = match resolve_num_value_uint(deps, env, &expr.right) {
        Ok(v) => v,
        Err(e) => {
            return Err(e);
        },
    };
    apply_uint_expr_op(left, right, expr.op)
}

/// Compares two unsigned operands, evaluating the left one first.
pub fn resolve_uint_expr(
    deps: &Deps<'_>,
    env: &Env,
    expr: &GenExpr<NumValue<Uint256, NumExprOp, IntFnOp>, NumOp>,
) -> (r: Result<bool, ContractError>)
    ensures
        uint_expr_outcomes(*expr).contains(r),
{
    let left = match resolve_num_value_uint(deps, env, &expr.left) {
        Ok(v) => v,
        Err(e) => {
            return Err(e);
        },
    };
    let right = match resolve_num_value_uint(deps, env, &expr.right) {
        Ok(v) => v,
        Err(e) => {
            return Err(e);
        },
    };
    Ok(resolve_uint_op(deps, env, left, right, expr.op))
}

/// The possible outcomes of evaluating a decimal operand, in atomic units.
pub open spec fn decimal_value_outcomes(
    value: NumValue<Decimal256, NumExprOp, DecimalFnOp>,
) -> Set<Result<nat, ContractError>>
    decreases value,
{
    match value {
        NumValue::Simple(v) => sure(v@),
        NumValue::Expr(expr) => decimal_num_expr_outcomes(expr),
        NumValue::Query(expr) => Set::new(|r: Result<nat, ContractError>| decimal_lookup(expr, r)),
        NumValue::Fn(expr) => decimal_num_fn_outcomes(expr),
    }
}

/// The possible outcomes of a binary operation on decimal operands.
pub open spec fn decimal_num_expr_outcomes(
    expr: NumExprValue<Decimal256, NumExprOp, DecimalFnOp>,
) -> Set<Result<nat, ContractError>>
    decreases expr,
{
    binary_outcomes(
        decimal_value_outcomes(*expr.left),
        decimal_value_outcomes(*expr.right),
        |a: nat, b: nat| decimal_expr_result(a, b, expr.op),
    )
}

/// The possible outcomes of a function of one decimal operand.
pub open spec fn decimal_num_fn_outcomes(
    expr: NumFnValue<Decimal256, NumExprOp, DecimalFnOp>,
) -> Set<Result<nat, ContractError>>
    decreases expr,
{
    unary_outcomes(decimal_value_outcomes(*expr.right), |a: nat| decimal_fn_result(expr.op, a))
}

/// The possible verdicts of comparing two decimal operands.
pub open spec fn decimal_expr_outcomes(
    expr: GenExpr<NumValue<Decimal256, NumExprOp, DecimalFnOp>, NumOp>,
) -> Set<Result<bool, ContractError>> {
    binary_outcomes(
        decimal_value_outcomes(expr.left),
        decimal_value_outcomes(expr.right),
        |a: nat, b: nat|
            Ok::<bool, ContractError>(num_op_holds(order_of(a as int, b as int), expr.op)),
    )
}

/// Evaluates a decimal operand.
pub fn resolve_num_value_decimal(
    deps: &Deps<'_>,
    env: &Env,
    value: &NumValue<Decimal256, NumExprOp, DecimalFnOp>,
) -> (r: Result<Decimal256, ContractError>)
    ensures
        decimal_value_outcomes(*value).contains(decimal_outcome(r)),
    decreases value,
{
    match value {
        NumValue::Simple(value) => Ok(*value),
        NumValue::Expr(expr) => resolve_num_expr_decimal(deps, env, expr),
        NumValue::Query(expr) => resolve_query_expr_decimal(deps, env, expr),
        NumValue::Fn(expr) => resolve_num_fn_decimal(deps, env, expr),
    }
}

/// Evaluates a function of one decimal operand.
fn resolve_num_fn_decimal(
    deps: &Deps<'_>,
    env: &Env,
    expr: &NumFnValue<Decimal256, NumExprOp, DecimalFnOp>,
) -> (r: Result<Decimal256, ContractError>)
    ensures
        decimal_num_fn_outcomes(*expr).contains(decimal_outcome(r)),
    decreases expr,
{
    let right = match resolve_num_value_decimal(deps, env, &expr.right) {
        Ok(v) => v,
        Err(e) => {
            return Err(e);
        },
    };
    apply_decimal_fn_op(expr.op, right)
}

/// Evaluates a binary operation on decimal operands, the left operand first.
pub fn resolve_num_expr_decimal(
    deps: &Deps<'_>,
    env: &Env,
    expr: &NumExprValue<Decimal256, NumExprOp, DecimalFnOp>,
) -> (r: Result<Decimal256, ContractError>)
    ensures
        decimal_num_expr_outcomes(*expr).contains(decimal_outcome(r)),
    decreases expr,
{
    let left = match resolve_num_value_decimal(deps, env, &expr.left) {
        Ok(v) => v,
        Err(e) => {
            return Err(e);
        },
    };
    let right = match resolve_num_value_decimal(deps, env, &expr.right) {
        Ok(v) => v,
        Err(e) => {
            return Err(e);
        },
    };
    apply_decimal_expr_op(left, right, expr.op)
}

/// Compares two decimal operands, evaluating the left one first.
pub fn resolve_decimal_expr(
    deps: &Deps<'_>,
    env: &Env,
    expr: &GenExpr<NumValue<Decimal256, NumExprOp, DecimalFnOp>, NumOp>,
) -> (r: Result<bool, ContractError>)
    ensures
        decimal_expr_outcomes(*expr).contains(r),
{
    let left = match resolve_num_value_decimal(deps, env, &expr.left) {
        Ok(v) => v,
        Err(e) => {
            return Err(e);
        },
    };
    let right = match resolve_num_value_decimal(deps, env, &expr.right) {
        Ok(v) => v,
        Err(e) => {
            return Err(e);
        },
    };
    Ok(resolve_decimal_op(deps, env, left, right, expr.op))
}

/// The possible outcomes of evaluating a text operand, by value.
pub open spec fn string_value_outcomes(value: Value<String>) -> Set<
    Result<Seq<char>, ContractError>,
> {
    match value {
        Value::Simple(text) => sure(text@),
        Value::Query(expr) => Set::new(
            |r: Result<Seq<char>, ContractError>| string_lookup(expr, r),
        ),
    }
}

/// The possible verdicts of comparing two text operands.
pub open spec fn string_expr_outcomes(expr: GenExpr<Value<String>, StringOp>) -> Set<
    Result<bool, ContractError>,
> {
    binary_outcomes(
        string_value_outcomes(expr.left),
        string_value_outcomes(expr.right),
        |a: Seq<char>, b: Seq<char>| Ok::<bool, ContractError>(str_op_holds(a, b, expr.op)),
    )
}

/// Evaluates a text operand.
fn resolve_string_value(deps: &Deps<'_>, env: &Env, value: &Value<String>) -> (r: Result<
    String,
    ContractError,
>)
    ensures
        string_value_outcomes(*value).contains(string_outcome(r)),
{
    match value {
        Value::Simple(text) => Ok(text.clone()),
        Value::Query(expr) => resolve_query_expr_string(deps, env, expr),
    }
}

/// Compares two text operands, evaluating the left one first.
pub fn resolve_string_expr(deps: &Deps<'_>, env: &Env, expr: &GenExpr<Value<String>, StringOp>) -> (r:
    Result<bool, ContractError>)
    ensures
        string_expr_outcomes(*expr).contains(r),
{
    let left = match resolve_string_value(deps, env, &expr.left) {
        Ok(v) => v,
        Err(e) => {
            return Err(e);
        },
    };
    let right = match resolve_string_value(deps, env, &expr.right) {
        Ok(v) => v,
        Err(e) => {
            return Err(e);
        },
    };
    Ok(resolve_str_op(deps, env, &left, &right, expr.op))
}

/// The possible verdicts of a comparison in the surroundings `env`.
pub open spec fn expr_outcomes(expr: Expr, env: Env) -> Set<Result<bool, ContractError>> {
    match expr {
        Expr::String(e) => string_expr_outcomes(e),
        Expr::Uint(e) => uint_expr_outcomes(e),
        Expr::Int(e) => int_expr_outcomes(e),
        Expr::Decimal(e) => decimal_expr_outcomes(e),
        Expr::Timestamp(e) => sure(time_op_holds(env.block.time.seconds(), e.comparator, e.op)),
        Expr::BlockHeight(e) => sure(
            num_op_holds(order_of(env.block.height as int, e.comparator as int), e.op),
        ),
        Expr::Bool(expr) => Set::new(|r: Result<bool, ContractError>| bool_lookup(expr, r)),
    }
}

/// Evaluates a comparison.
pub fn resolve_expr(deps: &Deps<'_>, env: &Env, expr: &Expr) -> (r: Result<bool, ContractError>)
    ensures
        expr_outcomes(*expr, *env).contains(r),
{
    match expr {
        Expr::String(expr) => resolve_string_expr(deps, env, expr),
        Expr::Uint(expr) => resolve_uint_expr(deps, env, expr),
        Expr::Int(expr) => resolve_int_expr(deps, env, expr),
        Expr::Decimal(expr) => resolve_decimal_expr(deps, env, expr),
        Expr::Timestamp(expr) => resolve_timestamp_expr(deps, env, expr),
        Expr::BlockHeight(expr) => resolve_block_expr(deps, env, expr),
        Expr::Bool(expr) => resolve_query_expr_bool(deps, env, expr),
    }
}

/// The verdicts of a condition that holds when `first` holds and then what
/// stands for `rest` holds: the failures of `first`; false where `first` is
/// false, whatever `rest` would come to; and where `first` is true, the
/// outcomes of `rest`.
pub open spec fn conjunction_outcomes(
    first: Set<Result<bool, ContractError>>,
    rest: Set<Result<bool, ContractError>>,
) -> Set<Result<bool, ContractError>> {
    Set::new(
        |r: Result<bool, ContractError>|
            {
                ||| r is Err && first.contains(r)
                ||| r == Ok::<bool, ContractError>(false) && first.contains(Ok(false))
                ||| first.contains(Ok(true)) && rest.contains(r)
            },
    )
}

/// The verdicts of a condition that holds when `first` holds or else what
/// stands for `rest` holds: the failures of `first`; true where `first` is
/// true, whatever `rest` would come to; and where `first` is false, the
/// outcomes of `rest`.
pub open spec fn disjunction_outcomes(
    first: Set<Result<bool, ContractError>>,
    rest: Set<Result<bool, ContractError>>,
) -> Set<Result<bool, ContractError>> {
    Set::new(
        |r: Result<bool, ContractError>|
            {
                ||| r is Err && first.contains(r)
                ||| r == Ok::<bool, ContractError>(true) && first.contains(Ok(true))
                ||| first.contains(Ok(false)) && rest.contains(r)
            },
    )
}

/// The verdicts of the opposite of a condition with the verdicts `inner`.
pub open spec fn negation_outcomes(inner: Set<Result<bool, ContractError>>) -> Set<
    Result<bool, ContractError>,
> {
    Set::new(
        |r: Result<bool, ContractError>|
            {
                ||| r is Err && inner.contains(r)
                ||| r matches Ok(b) && inner.contains(Ok(!b))
            },
    )
}

/// The possible verdicts of a condition in the surroundings `env`.
pub open spec fn cond_outcomes(cond: Condition, env: Env) -> Set<Result<bool, ContractError>>
    decreases cond, 0nat,
{
    match cond {
        Condition::And(conds) => all_outcomes(conds@, 0, env),
        Condition::Or(conds) => any_outcomes(conds@, 0, env),
        Condition::Not(inner) => negation_outcomes(cond_outcomes(*inner, env)),
        Condition::Expr(expr) => expr_outcomes(expr, env),
    }
}

/// The possible verdicts of "all of `conds` from `from` on hold": true for
/// none left.
pub open spec fn all_outcomes(conds: Seq<Box<Condition>>, from: nat, env: Env) -> Set<
    Result<bool, ContractError>,
>
    decreases conds, conds.len() - from,
{
    if from >= conds.len() {
        sure(true)
    } else {
        conjunction_outcomes(
            cond_outcomes(*conds[from as int], env),
            all_outcomes(conds, from + 1, env),
        )
    }
}

/// The possible verdicts of "one of `conds` from `from` on holds": false for
/// none left.
pub open spec fn any_outcomes(conds: Seq<Box<Condition>>, from: nat, env: Env) -> Set<
    Result<bool, ContractError>,
>
    decreases conds, conds.len() - from,
{
    if from >= conds.len() {
        sure(false)
    } else {
        disjunction_outcomes(
            cond_outcomes(*conds[from as int], env),
            any_outcomes(conds, from + 1, env),
        )
    }
}

/// Decides a condition. The children of a conjunction are tried from the
/// left until one is false, those of a disjunction until one is true; the
/// first failure ends the evaluation.
#[verifier::loop_isolation(false)]
pub fn resolve_cond(deps: &Deps<'_>, env: &Env, cond: &Condition) -> (r: Result<
    bool,
    ContractError,
>)
    ensures
        cond_outcomes(*cond, *env).contains(r),
    decreases cond,
{
    match cond {
        Condition::And(conds) => {
            let mut i: usize = 0;
            while i < conds.len()
                invariant
                    i <= conds.len(),
                    all_outcomes(conds@, i as nat, *env).subset_of(all_outcomes(conds@, 0, *env)),
                decreases conds.len() - i,
            {
                match resolve_cond(deps, env, &conds[i]) {
                    Err(e) => {
                        return Err(e);
                    },
                    Ok(false) => {
                        return Ok(false);
                    },
                    Ok(true) => {},
                }
                i = i + 1;
            }
            Ok(true)
        },
        Condition::Or(conds) => {
            let mut i: usize = 0;
            while i < conds.len()
                invariant
                    i <= conds.len(),
                    any_outcomes(conds@, i as nat, *env).subset_of(any_outcomes(conds@, 0, *env)),
                decreases conds.len() - i,
            {
                match resolve_cond(deps, env, &conds[i]) {
                    Err(e) => {
                        return Err(e);
                    },
                    Ok(true) => {
                        return Ok(true);
                    },
                    Ok(false) => {},
                }
                i = i + 1;
            }
            Ok(false)
        },
        Condition::Not(cond) => match resolve_cond(deps, env, cond) {
            Ok(verdict) => Ok(!verdict),
            Err(e) => Err(e),
        },
        Condition::Expr(expr) => resolve_expr(deps, env, expr),
    }
}

/// A conjunction of no conditions is true.
pub proof fn lemma_empty_and(conds: Vec<Box<Condition>>, env: Env)
    requires
        conds@.len() == 0,
    ensures
        cond_outcomes(Condition::And(conds), env) == sure(true),
{
    assert(all_outcomes(conds@, 0, env) == sure(true));
    assert(cond_outcomes(Condition::And(conds), env) == all_outcomes(conds@, 0, env));
}

/// A disjunction of no conditions is false.
pub proof fn lemma_empty_or(conds: Vec<Box<Condition>>, env: Env)
    requires
        conds@.len() == 0,
    ensures
        cond_outcomes(Condition::Or(conds), env) == sure(false),
{
    assert(any_outcomes(conds@, 0, env) == sure(false));
    assert(cond_outcomes(Condition::Or(conds), env) == any_outcomes(conds@, 0, env));
}

/// Negating a condition twice changes nothing: the outcomes are those of the
/// condition itself.
pub proof fn lemma_double_negation(cond: Condition, env: Env)
    ensures
        cond_outcomes(Condition::Not(Box::new(Condition::Not(Box::new(cond)))), env)
            == cond_outcomes(cond, env),
{
    let twice = Condition::Not(Box::new(Condition::Not(Box::new(cond))));
    reveal_with_fuel(cond_outcomes, 3);
    assert forall|r: Result<bool, ContractError>|
        cond_outcomes(twice, env).contains(r) == cond_outcomes(cond, env).contains(r) by {
        if let Ok(b) = r {
            assert(!!b == b);
        }
    }
    assert(cond_outcomes(twice, env) =~= cond_outcomes(cond, env));
}

/// A conjunction whose first condition is false is false, whatever the
/// conditions after it would come to: their failures do not surface.
pub proof fn lemma_and_short_circuit(conds: Vec<Box<Condition>>, env: Env)
    requires
        conds@.len() >= 1,
        cond_outcomes(*conds@[0], env) == sure(false),
    ensures
        cond_outcomes(Condition::And(conds), env) == sure(false),
{
    assert(all_outcomes(conds@, 0, env) =~= sure(false));
    assert(cond_outcomes(Condition::And(conds), env) == all_outcomes(conds@, 0, env));
}

/// A disjunction whose first condition is true is true, whatever the
/// conditions after it would come to: their failures do not surface.
pub proof fn lemma_or_short_circuit(conds: Vec<Box<Condition>>, env: Env)
    requires
        conds@.len() >= 1,
        cond_outcomes(*conds@[0], env) == sure(true),
    ensures
        cond_outcomes(Condition::Or(conds), env) == sure(true),
{
    assert(any_outcomes(conds@, 0, env) =~= sure(true));
    assert(cond_outcomes(Condition::Or(conds), env) == any_outcomes(conds@, 0, env));
}

/// Sums, differences and products of signed numbers never fail: they are
/// held within the range.
pub proof fn lemma_int_saturation(left: i128, right: i128, op: NumExprOp)
    requires
        op == NumExprOp::Add || op == NumExprOp::Sub || op == NumExprOp::Mul,
    ensures
        int_expr_result(left, right, op) is Ok,
        op == NumExprOp::Add ==> int_expr_result(left, right, op) == Ok::<i128, ContractError>(
            clamp_i128(left + right),
        ),
        op == NumExprOp::Sub ==> int_expr_result(left, right, op) == Ok::<i128, ContractError>(
            clamp_i128(left - right),
        ),
        op == NumExprOp::Mul ==> int_expr_result(left, right, op) == Ok::<i128, ContractError>(
            clamp_i128(left * right),
        ),
{
}

/// Sums, differences and products of unsigned numbers never fail: they are
/// held between zero and the largest number.
pub proof fn lemma_uint_saturation(left: nat, right: nat, op: NumExprOp)
    requires
        op == NumExprOp::Add || op == NumExprOp::Sub || op == NumExprOp::Mul,
    ensures
        uint_expr_result(left, right, op) matches Ok(v) && v <= uint256_max(),
        op == NumExprOp::Add ==> uint_expr_result(left, right, op) == Ok::<nat, ContractError>(
            clamp_uint256((left + right) as int),
        ),
        op == NumExprOp::Sub ==> uint_expr_result(left, right, op) == Ok::<nat, ContractError>(
            clamp_uint256(left - right),
        ),
        op == NumExprOp::Mul ==> uint_expr_result(left, right, op) == Ok::<nat, ContractError>(
            clamp_uint256((left * right) as int),
        ),
{
}

/// Sums, differences and products of decimals never fail: they are held
/// between zero and the largest decimal.
pub proof fn lemma_decimal_saturation(left: nat, right: nat, op: NumExprOp)
    requires
        op == NumExprOp::Add || op == NumExprOp::Sub || op == NumExprOp::Mul,
    ensures
        decimal_expr_result(left, right, op) matches Ok(v) && v <= uint256_max(),
        op == NumExprOp::Add ==> decimal_expr_result(left, right, op) == Ok::<nat, ContractError>(
            clamp_uint256((left + right) as int),
        ),
        op == NumExprOp::Sub ==> decimal_expr_result(left, right, op) == Ok::<nat, ContractError>(
            clamp_uint256(left - right),
        ),
        op == NumExprOp::Mul ==> decimal_expr_result(left, right, op) == Ok::<nat, ContractError>(
            clamp_uint256(decimal_product(left, right) as int),
        ),
{
}

} // verus!
