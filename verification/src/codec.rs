//! The reading side of the text codec: from the text of a frame, through its
//! JSON tree, to a typed response.
//!
//! A text frame is an envelope `{"t": tag, "d": payload}`. The tag selects the
//! response; the payload is an object with the members of that response.
//! Each decoder has a specification, a function on trees whose name ends in
//! `_spec`, and returns exactly what that function says: the value, or the
//! first error in reading order.

use vstd::prelude::*;
use crate::errors::DecodeError;
use crate::json::{json_parse, member, parse_json, str_eq, tree_of, Json, JsonValue};
use crate::messages::{
    operations_view, updates_view, values_view, EventJson, EventView, FnCall, FnCallView,
    FunctionCallJson, FunctionCallView, IdentityTokenJson, IdentityTokenView, SpaceDbResponse,
    SpaceDbResponseView, SubscriptionUpdateJson, SubscriptionUpdateView, TableOp,
    TableRowOperationJson, TableRowOperationView, TableUpdateJson, TableUpdateView,
    TransactionUpdateJson, TransactionUpdateView, TypeValue, TypeValueView,
};

verus! {

/// The trees of the items of an array, in order.
pub open spec fn trees(items: Seq<Json>) -> Seq<JsonValue> {
    items.map_values(|j: Json| j@)
}

/// The member `key` of an object.
pub open spec fn field(j: JsonValue, key: Seq<char>) -> Result<JsonValue, DecodeError> {
    match j {
        JsonValue::Object(members) => match member(members, key) {
            Some(value) => Ok(value),
            None => Err(DecodeError::MissingField),
        },
        _ => Err(DecodeError::ExpectedObject),
    }
}

/// The string member `key` of an object.
pub open spec fn text_field(j: JsonValue, key: Seq<char>) -> Result<Seq<char>, DecodeError> {
    match field(j, key) {
        Ok(JsonValue::Str(s)) => Ok(s),
        Ok(_) => Err(DecodeError::ExpectedString),
        Err(e) => Err(e),
    }
}

/// The integer member `key` of an object, which must lie from `low` to `high`.
pub open spec fn integer_field(j: JsonValue, key: Seq<char>, low: int, high: int) -> Result<
    int,
    DecodeError,
> {
    match field(j, key) {
        Ok(JsonValue::Int(n)) => if low <= n <= high {
            Ok(n)
        } else {
            Err(DecodeError::OutOfRange)
        },
        Ok(_) => Err(DecodeError::ExpectedInteger),
        Err(e) => Err(e),
    }
}

/// The array member `key` of an object.
pub open spec fn array_field(j: JsonValue, key: Seq<char>) -> Result<Seq<JsonValue>, DecodeError> {
    match field(j, key) {
        Ok(JsonValue::Array(items)) => Ok(items),
        Ok(_) => Err(DecodeError::ExpectedArray),
        Err(e) => Err(e),
    }
}

/// Decodes the items of an array from first to last and stops at the first
/// that fails.
pub open spec fn decode_each<T>(
    items: Seq<JsonValue>,
    decode: spec_fn(JsonValue) -> Result<T, DecodeError>,
) -> Result<Seq<T>, DecodeError>
    decreases items.len(),
{
    if items.len() == 0 {
        Ok(Seq::empty())
    } else {
        match decode_each(items.drop_last(), decode) {
            Err(e) => Err(e),
            Ok(head) => match decode(items.last()) {
                Err(e) => Err(e),
                Ok(x) => Ok(head.push(x)),
            },
        }
    }
}

/// A failure among the first items of an array is the failure of the array.
pub proof fn lemma_decode_each_prefix<T>(
    items: Seq<JsonValue>,
    decode: spec_fn(JsonValue) -> Result<T, DecodeError>,
    n: int,
)
    requires
        0 <= n <= items.len(),
        decode_each(items.take(n), decode) is Err,
    ensures
        decode_each(items, decode) == decode_each(items.take(n), decode),
    decreases items.len() - n,
{
    if n == items.len() {
        assert(items.take(n) =~= items);
    } else {
        let next = items.take(n + 1);
        assert(next.drop_last() =~= items.take(n));
        lemma_decode_each_prefix(items, decode, n + 1);
    }
}

/// The narrowest integer variant that holds `n`, a signed width before the
/// unsigned one of the same size; nothing where `n` needs more than 64 bits.
pub open spec fn integer_value(n: int) -> Option<TypeValueView> {
    if i8::MIN <= n <= i8::MAX {
        Some(TypeValueView::I8(n as i8))
    } else if 0 <= n <= u8::MAX {
        Some(TypeValueView::U8(n as u8))
    } else if i16::MIN <= n <= i16::MAX {
        Some(TypeValueView::I16(n as i16))
    } else if 0 <= n <= u16::MAX {
        Some(TypeValueView::U16(n as u16))
    } else if i32::MIN <= n <= i32::MAX {
        Some(TypeValueView::I32(n as i32))
    } else if 0 <= n <= u32::MAX {
        Some(TypeValueView::U32(n as u32))
    } else if i64::MIN <= n <= i64::MAX {
        Some(TypeValueView::I64(n as i64))
    } else if 0 <= n <= u64::MAX {
        Some(TypeValueView::U64(n as u64))
    } else {
        None
    }
}

/// One byte of a byte string: an integer from 0 to 255.
pub open spec fn byte_spec(j: JsonValue) -> Result<u8, DecodeError> {
    match j {
        JsonValue::Int(n) => if 0 <= n <= u8::MAX {
            Ok(n as u8)
        } else {
            Err(DecodeError::OutOfRange)
        },
        _ => Err(DecodeError::ExpectedInteger),
    }
}

/// [`byte_spec`], as a value to hand on.
pub open spec fn byte_decoder() -> spec_fn(JsonValue) -> Result<u8, DecodeError> {
    |j: JsonValue| byte_spec(j)
}

/// One column value: a boolean, an integer in its narrowest variant, a
/// string, or an array of bytes.
pub open spec fn value_spec(j: JsonValue) -> Result<TypeValueView, DecodeError> {
    match j {
        JsonValue::Bool(b) => Ok(TypeValueView::Bool(b)),
        JsonValue::Int(n) => match integer_value(n) {
            Some(v) => Ok(v),
            None => Err(DecodeError::OutOfRange),
        },
        JsonValue::Str(s) => Ok(TypeValueView::String(s)),
        JsonValue::Array(items) => match decode_each(items, byte_decoder()) {
            Ok(bytes) => Ok(TypeValueView::Bytes(bytes)),
            Err(_) => Err(DecodeError::UnsupportedValue),
        },
        _ => Err(DecodeError::UnsupportedValue),
    }
}

/// [`value_spec`], as a value to hand on.
pub open spec fn value_decoder() -> spec_fn(JsonValue) -> Result<TypeValueView, DecodeError> {
    |j: JsonValue| value_spec(j)
}

/// The operation that a lower-case name stands for.
pub open spec fn op_spec(name: Seq<char>) -> Result<TableOp, DecodeError> {
    if name == "insert"@ {
        Ok(TableOp::Insert)
    } else if name == "delete"@ {
        Ok(TableOp::Delete)
    } else if name == "update"@ {
        Ok(TableOp::Update)
    } else {
        Err(DecodeError::UnknownOp)
    }
}

/// `{"op": .., "row_pk": .., "row": [..]}`
pub open spec fn row_operation_spec(j: JsonValue) -> Result<TableRowOperationView, DecodeError> {
    match text_field(j, "op"@) {
        Err(e) => Err(e),
        Ok(name) => match op_spec(name) {
            Err(e) => Err(e),
            Ok(op) => match text_field(j, "row_pk"@) {
                Err(e) => Err(e),
                Ok(row_pk) => match array_field(j, "row"@) {
                    Err(e) => Err(e),
                    Ok(items) => match decode_each(items, value_decoder()) {
                        Err(e) => Err(e),
                        Ok(row) => Ok(TableRowOperationView { op, row_pk, row }),
                    },
                },
            },
        },
    }
}

/// [`row_operation_spec`], as a value to hand on.
pub open spec fn row_operation_decoder() -> spec_fn(JsonValue) -> Result<
    TableRowOperationView,
    DecodeError,
> {
    |j: JsonValue| row_operation_spec(j)
}

/// `{"table_id": .., "table_name": .., "table_row_operations": [..]}`
pub open spec fn table_update_spec(j: JsonValue) -> Result<TableUpdateView, DecodeError> {
    match integer_field(j, "table_id"@, 0, u32::MAX as int) {
        Err(e) => Err(e),
        Ok(id) => match text_field(j, "table_name"@) {
            Err(e) => Err(e),
            Ok(table_name) => match array_field(j, "table_row_operations"@) {
                Err(e) => Err(e),
                Ok(items) => match decode_each(items, row_operation_decoder()) {
                    Err(e) => Err(e),
                    Ok(ops) => Ok(
                        TableUpdateView {
                            table_id: id as u32,
                            table_name,
                            table_row_operations: ops,
                        },
                    ),
                },
            },
        },
    }
}

/// [`table_update_spec`], as a value to hand on.
pub open spec fn table_update_decoder() -> spec_fn(JsonValue) -> Result<
    TableUpdateView,
    DecodeError,
> {
    |j: JsonValue| table_update_spec(j)
}

/// `{"table_updates": [..]}`
pub open spec fn subscription_update_spec(j: JsonValue) -> Result<
    SubscriptionUpdateView,
    DecodeError,
> {
    match array_field(j, "table_updates"@) {
        Err(e) => Err(e),
        Ok(items) => match decode_each(items, table_update_decoder()) {
            Err(e) => Err(e),
            Ok(table_updates) => Ok(SubscriptionUpdateView { table_updates }),
        },
    }
}

/// `{"identity": .., "token": ..}`
pub open spec fn identity_token_spec(j: JsonValue) -> Result<IdentityTokenView, DecodeError> {
    match text_field(j, "identity"@) {
        Err(e) => Err(e),
        Ok(identity) => match text_field(j, "token"@) {
            Err(e) => Err(e),
            Ok(token) => Ok(IdentityTokenView { identity, token }),
        },
    }
}

/// `{"reducer": .., "arg_bytes": [..]}`
pub open spec fn function_call_spec(j: JsonValue) -> Result<FunctionCallView, DecodeError> {
    match text_field(j, "reducer"@) {
        Err(e) => Err(e),
        Ok(reducer) => match array_field(j, "arg_bytes"@) {
            Err(e) => Err(e),
            Ok(items) => match decode_each(items, byte_decoder()) {
                Err(e) => Err(e),
                Ok(arg_bytes) => Ok(FunctionCallView { reducer, arg_bytes }),
            },
        },
    }
}

/// `{"timestamp": .., "status": .., "caller_identity": .., "function_call":
/// {..}, "energy_quanta_used": ..}`
pub open spec fn event_spec(j: JsonValue) -> Result<EventView, DecodeError> {
    match integer_field(j, "timestamp"@, 0, u64::MAX as int) {
        Err(e) => Err(e),
        Ok(timestamp) => match text_field(j, "status"@) {
            Err(e) => Err(e),
            Ok(status) => match text_field(j, "caller_identity"@) {
                Err(e) => Err(e),
                Ok(caller_identity) => match field(j, "function_call"@) {
                    Err(e) => Err(e),
                    Ok(call) => match function_call_spec(call) {
                        Err(e) => Err(e),
                        Ok(function_call) => match integer_field(
                            j,
                            "energy_quanta_used"@,
                            i64::MIN as int,
                            i64::MAX as int,
                        ) {
                            Err(e) => Err(e),
                            Ok(energy) => Ok(
                                EventView {
                                    timestamp: timestamp as u64,
                                    status,
                                    caller_identity,
                                    function_call,
                                    energy_quanta_used: energy as i64,
                                },
                            ),
                        },
                    },
                },
            },
        },
    }
}

/// `{"event": {..}, "subscription_update": {..}}`
pub open spec fn transaction_update_spec(j: JsonValue) -> Result<
    TransactionUpdateView,
    DecodeError,
> {
    match field(j, "event"@) {
        Err(e) => Err(e),
        Ok(ev) => match event_spec(ev) {
            Err(e) => Err(e),
            Ok(event) => match field(j, "subscription_update"@) {
                Err(e) => Err(e),
                Ok(su) => match subscription_update_spec(su) {
                    Err(e) => Err(e),
                    Ok(subscription_update) => Ok(
                        TransactionUpdateView { event, subscription_update },
                    ),
                },
            },
        },
    }
}

/// The response that an envelope `{"t": tag, "d": payload}` carries. A tag
/// that names no response is an error.
pub open spec fn response_spec(j: JsonValue) -> Result<SpaceDbResponseView, DecodeError> {
    match text_field(j, "t"@) {
        Err(e) => Err(e),
        Ok(tag) => match field(j, "d"@) {
            Err(e) => Err(e),
            Ok(d) => if tag == "IdentityToken"@ {
                match identity_token_spec(d) {
                    Ok(v) => Ok(SpaceDbResponseView::IdentityToken(v)),
                    Err(e) => Err(e),
                }
            } else if tag == "SubscriptionUpdate"@ {
                match subscription_update_spec(d) {
                    Ok(v) => Ok(SpaceDbResponseView::SubscriptionUpdate(v)),
                    Err(e) => Err(e),
                }
            } else if tag == "TransactionUpdate"@ {
                match transaction_update_spec(d) {
                    Ok(v) => Ok(SpaceDbResponseView::TransactionUpdate(v)),
                    Err(e) => Err(e),
                }
            } else if tag == "FunctionCall"@ {
                match function_call_spec(d) {
                    Ok(v) => Ok(SpaceDbResponseView::FunctionCall(v)),
                    Err(e) => Err(e),
                }
            } else if tag == "Event"@ {
                match event_spec(d) {
                    Ok(v) => Ok(SpaceDbResponseView::Event(v)),
                    Err(e) => Err(e),
                }
            } else {
                Err(DecodeError::UnknownTag)
            },
        },
    }
}

/// The response that a text frame carries, given the tree that its text
/// parses to.
pub open spec fn text_frame_spec(parsed: Option<JsonValue>) -> Result<
    SpaceDbResponseView,
    DecodeError,
> {
    match parsed {
        None => Err(DecodeError::Syntax),
        Some(j) => response_spec(j),
    }
}

/// Whether an exec result and the result of a spec decoder agree.
pub open spec fn agrees<T: View>(r: Result<T, DecodeError>, spec: Result<T::V, DecodeError>) -> bool {
    match r {
        Ok(x) => spec == Ok::<T::V, DecodeError>(x@),
        Err(e) => spec == Err::<T::V, DecodeError>(e),
    }
}

/// The tree of an array is the array of the trees of its items.
pub proof fn lemma_array_trees(items: Vec<Json>)
    ensures
        tree_of(Json::Array(items)) == JsonValue::Array(trees(items@)),
{
    assert(tree_of(Json::Array(items))->Array_0 =~= trees(items@));
}

fn get_field<'a>(j: &'a Json, key: &str) -> (r: Result<&'a Json, DecodeError>)
    ensures
        match r {
            Ok(value) => field(j@, key@) == Ok::<JsonValue, DecodeError>(value@),
            Err(e) => field(j@, key@) == Err::<JsonValue, DecodeError>(e),
        },
{
    match j {
        Json::Object(_) => match j.get(key) {
            Some(value) => Ok(value),
            None => Err(DecodeError::MissingField),
        },
        _ => Err(DecodeError::ExpectedObject),
    }
}

fn get_text<'a>(j: &'a Json, key: &str) -> (r: Result<&'a String, DecodeError>)
    ensures
        match r {
            Ok(s) => text_field(j@, key@) == Ok::<Seq<char>, DecodeError>(s@),
            Err(e) => text_field(j@, key@) == Err::<Seq<char>, DecodeError>(e),
        },
{
    match get_field(j, key) {
        Ok(Json::Str(s)) => Ok(s),
        Ok(_) => Err(DecodeError::ExpectedString),
        Err(e) => Err(e),
    }
}

fn get_integer(j: &Json, key: &str, low: i128, high: i128) -> (r: Result<i128, DecodeError>)
    ensures
        match r {
            Ok(n) => integer_field(j@, key@, low as int, high as int) == Ok::<int, DecodeError>(
                n as int,
            ) && low <= n <= high,
            Err(e) => integer_field(j@, key@, low as int, high as int) == Err::<int, DecodeError>(e),
        },
{
    match get_field(j, key) {
        Ok(Json::Int(n)) => if low <= *n && *n <= high {
            Ok(*n)
        } else {
            Err(DecodeError::OutOfRange)
        },
        Ok(_) => Err(DecodeError::ExpectedInteger),
        Err(e) => Err(e),
    }
}

fn get_array<'a>(j: &'a Json, key: &str) -> (r: Result<&'a Vec<Json>, DecodeError>)
    ensures
        match r {
            Ok(items) => array_field(j@, key@) == Ok::<Seq<JsonValue>, DecodeError>(
                trees(items@),
            ),
            Err(e) => array_field(j@, key@) == Err::<Seq<JsonValue>, DecodeError>(e),
        },
{
    match get_field(j, key) {
        Ok(Json::Array(items)) => {
            proof {
                lemma_array_trees(*items);
            }
            Ok(items)
        },
        Ok(_) => Err(DecodeError::ExpectedArray),
        Err(e) => Err(e),
    }
}

/// The narrowest integer variant that holds `n`.
pub fn narrowest_integer(n: i128) -> (r: Option<TypeValue>)
    ensures
        match r {
            Some(v) => integer_value(n as int) == Some(v@),
            None => integer_value(n as int) is None,
        },
{
    if -128 <= n && n <= 127 {
        Some(TypeValue::I8(n as i8))
    } else if 0 <= n && n <= 255 {
        Some(TypeValue::U8(n as u8))
    } else if -32768 <= n && n <= 32767 {
        Some(TypeValue::I16(n as i16))
    } else if 0 <= n && n <= 65535 {
        Some(TypeValue::U16(n as u16))
    } else if -2147483648 <= n && n <= 2147483647 {
        Some(TypeValue::I32(n as i32))
    } else if 0 <= n && n <= 4294967295 {
        Some(TypeValue::U32(n as u32))
    } else if -9223372036854775808 <= n && n <= 9223372036854775807 {
        Some(TypeValue::I64(n as i64))
    } else if 0 <= n && n <= 18446744073709551615 {
        Some(TypeValue::U64(n as u64))
    } else {
        None
    }
}

fn decode_byte(j: &Json) -> (r: Result<u8, DecodeError>)
    ensures
        r == byte_spec(j@),
{
    match j {
        Json::Int(n) => if 0 <= *n && *n <= 255 {
            Ok(*n as u8)
        } else {
            Err(DecodeError::OutOfRange)
        },
        _ => Err(DecodeError::ExpectedInteger),
    }
}

fn decode_bytes(items: &Vec<Json>) -> (r: Result<Vec<u8>, DecodeError>)
    ensures
        match r {
            Ok(bytes) => decode_each(trees(items@), byte_decoder()) == Ok::<
                Seq<u8>,
                DecodeError,
            >(bytes@),
            Err(e) => decode_each(trees(items@), byte_decoder()) == Err::<Seq<u8>, DecodeError>(e),
        },
{
    let mut out: Vec<u8> = Vec::new();
    let mut i: usize = 0;
    assert(trees(items@).take(0) =~= Seq::empty());
    while i < items.len()
        invariant
            i <= items.len(),
            decode_each(trees(items@).take(i as int), byte_decoder()) == Ok::<
                Seq<u8>,
                DecodeError,
            >(out@),
        decreases items.len() - i,
    {
        let ghost all = trees(items@);
        assert(all.take(i + 1).drop_last() =~= all.take(i as int));
        assert(all.take(i + 1).last() == items[i as int]@);
        match decode_byte(&items[i]) {
            Ok(b) => {
                out.push(b);
            },
            Err(e) => {
                proof {
                    lemma_decode_each_prefix(all, byte_decoder(), i + 1);
                }
                return Err(e);
            },
        }
        i += 1;
    }
    assert(trees(items@).take(i as int) =~= trees(items@));
    Ok(out)
}

/// Decodes one column value.
pub fn decode_value(j: &Json) -> (r: Result<TypeValue, DecodeError>)
    ensures
        agrees(r, value_spec(j@)),
{
    match j {
        Json::Bool(b) => Ok(TypeValue::Bool(*b)),
        Json::Int(n) => match narrowest_integer(*n) {
            Some(v) => Ok(v),
            None => Err(DecodeError::OutOfRange),
        },
        Json::Str(s) => Ok(TypeValue::String(s.clone())),
        Json::Array(items) => {
            proof {
                lemma_array_trees(*items);
            }
            match decode_bytes(items) {
                Ok(bytes) => Ok(TypeValue::Bytes(bytes)),
                Err(_) => Err(DecodeError::UnsupportedValue),
            }
        },
        _ => Err(DecodeError::UnsupportedValue),
    }
}

fn decode_values(items: &Vec<Json>) -> (r: Result<Vec<TypeValue>, DecodeError>)
    ensures
        match r {
            Ok(values) => decode_each(trees(items@), value_decoder()) == Ok::<
                Seq<TypeValueView>,
                DecodeError,
            >(values_view(values@)),
            Err(e) => decode_each(trees(items@), value_decoder()) == Err::<
                Seq<TypeValueView>,
                DecodeError,
            >(e),
        },
{
    let mut out: Vec<TypeValue> = Vec::new();
    let mut i: usize = 0;
    assert(trees(items@).take(0) =~= Seq::empty());
    assert(values_view(out@) =~= Seq::empty());
    while i < items.len()
        invariant
            i <= items.len(),
            decode_each(trees(items@).take(i as int), value_decoder()) == Ok::<
                Seq<TypeValueView>,
                DecodeError,
            >(values_view(out@)),
        decreases items.len() - i,
    {
        let ghost all = trees(items@);
        let ghost before = out@;
        assert(all.take(i + 1).drop_last() =~= all.take(i as int));
        assert(all.take(i + 1).last() == items[i as int]@);
        match decode_value(&items[i]) {
            Ok(v) => {
                out.push(v);
                assert(values_view(out@) =~= values_view(before).push(v@));
            },
            Err(e) => {
                proof {
                    lemma_decode_each_prefix(all, value_decoder(), i + 1);
                }
                return Err(e);
            },
        }
        i += 1;
    }
    assert(trees(items@).take(i as int) =~= trees(items@));
    Ok(out)
}

fn decode_op(name: &str) -> (r: Result<TableOp, DecodeError>)
    ensures
        r == op_spec(name@),
{
    if str_eq(name, "insert") {
        Ok(TableOp::Insert)
    } else if str_eq(name, "delete") {
        Ok(TableOp::Delete)
    } else if str_eq(name, "update") {
        Ok(TableOp::Update)
    } else {
        Err(DecodeError::UnknownOp)
    }
}

/// Decodes one row operation.
pub fn decode_row_operation(j: &Json) -> (r: Result<TableRowOperationJson, DecodeError>)
    ensures
        agrees(r, row_operation_spec(j@)),
{
    let name = get_text(j, "op")?;
    let op = decode_op(name.as_str())?;
    let row_pk = get_text(j, "row_pk")?;
    let items = get_array(j, "row")?;
    let row = decode_values(items)?;
    Ok(TableRowOperationJson { op, row_pk: row_pk.clone(), row })
}

fn decode_row_operations(items: &Vec<Json>) -> (r: Result<Vec<TableRowOperationJson>, DecodeError>)
    ensures
        match r {
            Ok(ops) => decode_each(trees(items@), row_operation_decoder()) == Ok::<
                Seq<TableRowOperationView>,
                DecodeError,
            >(operations_view(ops@)),
            Err(e) => decode_each(trees(items@), row_operation_decoder()) == Err::<
                Seq<TableRowOperationView>,
                DecodeError,
            >(e),
        },
{
    let mut out: Vec<TableRowOperationJson> = Vec::new();
    let mut i: usize = 0;
    assert(trees(items@).take(0) =~= Seq::empty());
    assert(operations_view(out@) =~= Seq::empty());
    while i < items.len()
        invariant
            i <= items.len(),
            decode_each(trees(items@).take(i as int), row_operation_decoder()) == Ok::<
                Seq<TableRowOperationView>,
                DecodeError,
            >(operations_view(out@)),
        decreases items.len() - i,
    {
        let ghost all = trees(items@);
        let ghost before = out@;
        assert(all.take(i + 1).drop_last() =~= all.take(i as int));
        assert(all.take(i + 1).last() == items[i as int]@);
        match decode_row_operation(&items[i]) {
            Ok(op) => {
                out.push(op);
                assert(operations_view(out@) =~= operations_view(before).push(op@));
            },
            Err(e) => {
                proof {
                    lemma_decode_each_prefix(all, row_operation_decoder(), i + 1);
                }
                return Err(e);
            },
        }
        i += 1;
    }
    assert(trees(items@).take(i as int) =~= trees(items@));
    Ok(out)
}

/// Decodes the update of one table.
pub fn decode_table_update(j: &Json) -> (r: Result<TableUpdateJson, DecodeError>)
    ensures
        agrees(r, table_update_spec(j@)),
{
    let id = get_integer(j, "table_id", 0, 4294967295)?;
    let table_name = get_text(j, "table_name")?;
    let items = get_array(j, "table_row_operations")?;
    let ops = decode_row_operations(items)?;
    Ok(
        TableUpdateJson {
            table_id: id as u32,
            table_name: table_name.clone(),
            table_row_operations: ops,
        },
    )
}

fn decode_table_updates(items: &Vec<Json>) -> (r: Result<Vec<TableUpdateJson>, DecodeError>)
    ensures
        match r {
            Ok(updates) => decode_each(trees(items@), table_update_decoder()) == Ok::<
                Seq<TableUpdateView>,
                DecodeError,
            >(updates_view(updates@)),
            Err(e) => decode_each(trees(items@), table_update_decoder()) == Err::<
                Seq<TableUpdateView>,
                DecodeError,
            >(e),
        },
{
    let mut out: Vec<TableUpdateJson> = Vec::new();
    let mut i: usize = 0;
    assert(trees(items@).take(0) =~= Seq::empty());
    assert(updates_view(out@) =~= Seq::empty());
    while i < items.len()
        invariant
            i <= items.len(),
            decode_each(trees(items@).take(i as int), table_update_decoder()) == Ok::<
                Seq<TableUpdateView>,
                DecodeError,
            >(updates_view(out@)),
        decreases items.len() - i,
    {
        let ghost all = trees(items@);
        let ghost before = out@;
        assert(all.take(i + 1).drop_last() =~= all.take(i as int));
        assert(all.take(i + 1).last() == items[i as int]@);
        match decode_table_update(&items[i]) {
            Ok(update) => {
                out.push(update);
                assert(updates_view(out@) =~= updates_view(before).push(update@));
            },
            Err(e) => {
                proof {
                    lemma_decode_each_prefix(all, table_update_decoder(), i + 1);
                }
                return Err(e);
            },
        }
        i += 1;
    }
    assert(trees(items@).take(i as int) =~= trees(items@));
    Ok(out)
}

/// Decodes a batch of table updates.
pub fn decode_subscription_update(j: &Json) -> (r: Result<SubscriptionUpdateJson, DecodeError>)
    ensures
        agrees(r, subscription_update_spec(j@)),
{
    let items = get_array(j, "table_updates")?;
    let table_updates = decode_table_updates(items)?;
    Ok(SubscriptionUpdateJson { table_updates })
}

/// Decodes an identity and its token.
pub fn decode_identity_token(j: &Json) -> (r: Result<IdentityTokenJson, DecodeError>)
    ensures
        agrees(r, identity_token_spec(j@)),
{
    let identity = get_text(j, "identity")?;
    let token = get_text(j, "token")?;
    Ok(IdentityTokenJson { identity: identity.clone(), token: token.clone() })
}

/// Decodes the description of a call.
pub fn decode_function_call(j: &Json) -> (r: Result<FunctionCallJson, DecodeError>)
    ensures
        agrees(r, function_call_spec(j@)),
{
    let reducer = get_text(j, "reducer")?;
    let items = get_array(j, "arg_bytes")?;
    let arg_bytes = decode_bytes(items)?;
    Ok(FunctionCallJson { reducer: reducer.clone(), arg_bytes })
}

/// Decodes the record of one call that the service ran.
pub fn decode_event(j: &Json) -> (r: Result<EventJson, DecodeError>)
    ensures
        agrees(r, event_spec(j@)),
{
    let timestamp = get_integer(j, "timestamp", 0, 18446744073709551615)?;
    let status = get_text(j, "status")?;
    let caller_identity = get_text(j, "caller_identity")?;
    let call = get_field(j, "function_call")?;
    let function_call = decode_function_call(call)?;
    let energy = get_integer(
        j,
        "energy_quanta_used",
        -9223372036854775808,
        9223372036854775807,
    )?;
    Ok(
        EventJson {
            timestamp: timestamp as u64,
            status: status.clone(),
            caller_identity: caller_identity.clone(),
            function_call,
            energy_quanta_used: energy as i64,
        },
    )
}

/// Decodes an event together with the updates it caused.
pub fn decode_transaction_update(j: &Json) -> (r: Result<TransactionUpdateJson, DecodeError>)
    ensures
        agrees(r, transaction_update_spec(j@)),
{
    let ev = get_field(j, "event")?;
    let event = decode_event(ev)?;
    let su = get_field(j, "subscription_update")?;
    let subscription_update = decode_subscription_update(su)?;
    Ok(TransactionUpdateJson { event, subscription_update })
}

/// Decodes the envelope of a text frame: one decoder per tag, an error for a
/// tag that names none.
pub fn decode_response(j: &Json) -> (r: Result<SpaceDbResponse, DecodeError>)
    ensures
        agrees(r, response_spec(j@)),
{
    let envelope = crate::envelope::Envelope::open(j)?;
    let tag = envelope.message_type.as_str();
    let d = envelope.payload;
    if str_eq(tag, "IdentityToken") {
        Ok(SpaceDbResponse::IdentityToken(decode_identity_token(d)?))
    } else if str_eq(tag, "SubscriptionUpdate") {
        Ok(SpaceDbResponse::SubscriptionUpdate(decode_subscription_update(d)?))
    } else if str_eq(tag, "TransactionUpdate") {
        Ok(SpaceDbResponse::TransactionUpdate(decode_transaction_update(d)?))
    } else if str_eq(tag, "FunctionCall") {
        Ok(SpaceDbResponse::FunctionCall(decode_function_call(d)?))
    } else if str_eq(tag, "Event") {
        Ok(SpaceDbResponse::Event(decode_event(d)?))
    } else {
        Err(DecodeError::UnknownTag)
    }
}

/// Decodes the text of a text frame. The text is read by `serde_json`; the
/// contract goes through [`json_parse`], the name of what it reads.
pub fn decode_text(text: &str) -> (r: Result<SpaceDbResponse, DecodeError>)
    ensures
        agrees(r, text_frame_spec(json_parse(text@))),
{
    match parse_json(text) {
        None => Err(DecodeError::Syntax),
        Some(tree) => decode_response(&tree),
    }
}

/// The call that an envelope `{"fn": name, "args": [..]}` describes.
pub open spec fn call_spec(j: JsonValue) -> Result<FnCallView, DecodeError> {
    match text_field(j, "fn"@) {
        Err(e) => Err(e),
        Ok(name) => match array_field(j, "args"@) {
            Err(e) => Err(e),
            Ok(items) => match decode_each(items, value_decoder()) {
                Err(e) => Err(e),
                Ok(args) => Ok(FnCallView { name, args }),
            },
        },
    }
}

/// The call that the text of a frame describes, given the tree that the text
/// parses to.
pub open spec fn call_text_spec(parsed: Option<JsonValue>) -> Result<FnCallView, DecodeError> {
    match parsed {
        None => Err(DecodeError::Syntax),
        Some(j) => call_spec(j),
    }
}

/// Reads back the envelope of a remote call, as the receiving side does.
pub fn decode_call(j: &Json) -> (r: Result<FnCall, DecodeError>)
    ensures
        agrees(r, call_spec(j@)),
{
    let name = get_text(j, "fn")?;
    let items = get_array(j, "args")?;
    let args = decode_values(items)?;
    Ok(FnCall::new(name.clone(), args))
}

/// Reads a remote call from the text of a frame.
pub fn decode_call_text(text: &str) -> (r: Result<FnCall, DecodeError>)
    ensures
        agrees(r, call_text_spec(json_parse(text@))),
{
    match parse_json(text) {
        None => Err(DecodeError::Syntax),
        Some(tree) => decode_call(&tree),
    }
}

} // verus!
