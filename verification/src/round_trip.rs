//! What is written can be read back: the laws that tie the two sides of the
//! text codec together, on JSON trees.

use vstd::prelude::*;
use crate::codec::{
    byte_decoder, call_spec, decode_each, event_spec, function_call_spec, identity_token_spec,
    integer_value, op_spec, response_spec, row_operation_decoder, row_operation_spec,
    subscription_update_spec, table_update_decoder, table_update_spec, transaction_update_spec,
    value_decoder, value_spec,
};
use crate::encode::{
    byte_tree, call_tree, event_tree, function_call_tree, identity_token_tree, op_name,
    response_tree, row_operation_tree, row_operation_trees, subscription_update_tree,
    table_update_tree, table_update_trees, transaction_update_tree, value_tree, value_trees,
};
use crate::errors::DecodeError;
use crate::json::{lemma_member_at, member, JsonValue};
use crate::messages::{
    EventView, FnCallView, FunctionCallView, IdentityTokenView, SpaceDbResponseView,
    SubscriptionUpdateView, TableOp, TableRowOperationView, TableUpdateView,
    TransactionUpdateView, TypeValueView,
};

verus! {

/// What a column value reads back as: an integer in the narrowest variant
/// that holds its number, anything else itself.
pub open spec fn normal_form(v: TypeValueView) -> TypeValueView {
    match v.integer() {
        Some(n) => match integer_value(n) {
            Some(narrow) => narrow,
            None => v,
        },
        None => v,
    }
}

/// The normal forms of a run of values, in order.
pub open spec fn normal_forms(values: Seq<TypeValueView>) -> Seq<TypeValueView> {
    values.map_values(|v: TypeValueView| normal_form(v))
}

/// The normal form of a value holds the same number, or is the value itself
/// where it holds none; and it is its own normal form.
pub proof fn lemma_normal_form_keeps_value(v: TypeValueView)
    ensures
        normal_form(v).integer() == v.integer(),
        v.integer() is None ==> normal_form(v) == v,
        normal_form(normal_form(v)) == normal_form(v),
{
}

proof fn lemma_bytes_round_trip(bytes: Seq<u8>)
    ensures
        decode_each(bytes.map_values(|b: u8| byte_tree(b)), byte_decoder()) == Ok::<
            Seq<u8>,
            DecodeError,
        >(bytes),
    decreases bytes.len(),
{
    let items = bytes.map_values(|b: u8| byte_tree(b));
    if bytes.len() > 0 {
        lemma_bytes_round_trip(bytes.drop_last());
        assert(items.drop_last() =~= bytes.drop_last().map_values(|b: u8| byte_tree(b)));
        assert(items.last() == byte_tree(bytes.last()));
        assert(bytes.drop_last().push(bytes.last()) =~= bytes);
    } else {
        assert(bytes =~= Seq::empty());
    }
}

/// A value that is written and read back comes out in its normal form.
pub proof fn lemma_value_round_trip(v: TypeValueView)
    ensures
        value_spec(value_tree(v)) == Ok::<TypeValueView, DecodeError>(normal_form(v)),
{
    match v {
        TypeValueView::Bytes(b) => {
            lemma_bytes_round_trip(b);
        },
        _ => {},
    }
}

proof fn lemma_values_round_trip(values: Seq<TypeValueView>)
    ensures
        decode_each(value_trees(values), value_decoder()) == Ok::<Seq<TypeValueView>, DecodeError>(
            normal_forms(values),
        ),
    decreases values.len(),
{
    let items = value_trees(values);
    if values.len() > 0 {
        lemma_values_round_trip(values.drop_last());
        lemma_value_round_trip(values.last());
        assert(items.drop_last() =~= value_trees(values.drop_last()));
        assert(items.last() == value_tree(values.last()));
        assert(normal_forms(values.drop_last()).push(normal_form(values.last())) =~= normal_forms(
            values,
        ));
    } else {
        assert(normal_forms(values) =~= Seq::empty());
    }
}

/// A call that is written as an envelope and read back keeps its name and
/// its arguments, in order and in number; each argument comes out in its
/// normal form, which holds the same value.
pub proof fn lemma_call_round_trip(name: Seq<char>, args: Seq<TypeValueView>)
    ensures
        call_spec(call_tree(name, args)) == Ok::<FnCallView, DecodeError>(
            FnCallView { name, args: normal_forms(args) },
        ),
        normal_forms(args).len() == args.len(),
        forall|i: int|
            0 <= i < args.len() ==> (#[trigger] normal_forms(args)[i]).integer()
                == args[i].integer(),
        forall|i: int|
            0 <= i < args.len() && args[i].integer() is None ==> #[trigger] normal_forms(args)[i]
                == args[i],
{
    reveal_strlit("fn");
    reveal_strlit("args");
    let members = seq![("fn"@, JsonValue::Str(name)), ("args"@, JsonValue::Array(value_trees(args)))];
    assert(members[0].0 == "fn"@);
    assert("fn"@.len() != "args"@.len());
    assert(member(members, "fn"@) == Some(JsonValue::Str(name)));
    let rest = members.drop_first();
    assert(rest[0] == members[1]);
    assert(member(rest, "args"@) == Some(JsonValue::Array(value_trees(args))));
    assert(member(members, "args"@) == Some(JsonValue::Array(value_trees(args))));
    lemma_values_round_trip(args);
    assert forall|i: int| 0 <= i < args.len() implies (#[trigger] normal_forms(args)[i]).integer()
        == args[i].integer() by {
        lemma_normal_form_keeps_value(args[i]);
    }
}

/// A row operation with every value of its row in normal form.
pub open spec fn normal_row_operation(v: TableRowOperationView) -> TableRowOperationView {
    TableRowOperationView { row: normal_forms(v.row), ..v }
}

/// A table update with every row in normal form.
pub open spec fn normal_table_update(v: TableUpdateView) -> TableUpdateView {
    TableUpdateView {
        table_row_operations: v.table_row_operations.map_values(
            |op: TableRowOperationView| normal_row_operation(op),
        ),
        ..v
    }
}

/// A subscription update with every row in normal form.
pub open spec fn normal_subscription_update(v: SubscriptionUpdateView) -> SubscriptionUpdateView {
    SubscriptionUpdateView {
        table_updates: v.table_updates.map_values(|u: TableUpdateView| normal_table_update(u)),
    }
}

/// A response with every row in normal form.
pub open spec fn normal_response(v: SpaceDbResponseView) -> SpaceDbResponseView {
    match v {
        SpaceDbResponseView::SubscriptionUpdate(u) => SpaceDbResponseView::SubscriptionUpdate(
            normal_subscription_update(u),
        ),
        SpaceDbResponseView::TransactionUpdate(t) => SpaceDbResponseView::TransactionUpdate(
            TransactionUpdateView {
                subscription_update: normal_subscription_update(t.subscription_update),
                ..t
            },
        ),
        _ => v,
    }
}

proof fn lemma_identity_token_round_trip(v: IdentityTokenView)
    ensures
        identity_token_spec(identity_token_tree(v)) == Ok::<IdentityTokenView, DecodeError>(v),
{
    reveal_strlit("identity");
    reveal_strlit("token");
    let members = identity_token_tree(v)->Object_0;
    assert("identity"@.len() != "token"@.len());
    lemma_member_at(members, 0);
    lemma_member_at(members, 1);
}

proof fn lemma_function_call_round_trip(v: FunctionCallView)
    ensures
        function_call_spec(function_call_tree(v)) == Ok::<FunctionCallView, DecodeError>(v),
{
    reveal_strlit("reducer");
    reveal_strlit("arg_bytes");
    let members = function_call_tree(v)->Object_0;
    assert("reducer"@.len() != "arg_bytes"@.len());
    lemma_member_at(members, 0);
    lemma_member_at(members, 1);
    lemma_bytes_round_trip(v.arg_bytes);
}

proof fn lemma_op_round_trip(op: TableOp)
    ensures
        op_spec(op_name(op)) == Ok::<TableOp, DecodeError>(op),
{
    reveal_strlit("insert");
    reveal_strlit("delete");
    reveal_strlit("update");
    assert("insert"@[0] != "delete"@[0]);
    assert("insert"@[0] != "update"@[0]);
    assert("delete"@[0] != "update"@[0]);
}

proof fn lemma_row_operation_round_trip(v: TableRowOperationView)
    ensures
        row_operation_spec(row_operation_tree(v)) == Ok::<TableRowOperationView, DecodeError>(
            normal_row_operation(v),
        ),
{
    reveal_strlit("op");
    reveal_strlit("row_pk");
    reveal_strlit("row");
    let members = row_operation_tree(v)->Object_0;
    assert("op"@.len() != "row_pk"@.len());
    assert("op"@.len() != "row"@.len());
    assert("row_pk"@.len() != "row"@.len());
    lemma_member_at(members, 0);
    lemma_member_at(members, 1);
    lemma_member_at(members, 2);
    lemma_op_round_trip(v.op);
    lemma_values_round_trip(v.row);
}

proof fn lemma_row_operations_round_trip(ops: Seq<TableRowOperationView>)
    ensures
        decode_each(row_operation_trees(ops), row_operation_decoder()) == Ok::<
            Seq<TableRowOperationView>,
            DecodeError,
        >(ops.map_values(|op: TableRowOperationView| normal_row_operation(op))),
    decreases ops.len(),
{
    let items = row_operation_trees(ops);
    let out = ops.map_values(|op: TableRowOperationView| normal_row_operation(op));
    if ops.len() > 0 {
        lemma_row_operations_round_trip(ops.drop_last());
        lemma_row_operation_round_trip(ops.last());
        assert(items.drop_last() =~= row_operation_trees(ops.drop_last()));
        assert(items.last() == row_operation_tree(ops.last()));
        assert(ops.drop_last().map_values(|op: TableRowOperationView| normal_row_operation(op)).push(
            normal_row_operation(ops.last()),
        ) =~= out);
    } else {
        assert(out =~= Seq::empty());
    }
}

proof fn lemma_table_update_round_trip(v: TableUpdateView)
    ensures
        table_update_spec(table_update_tree(v)) == Ok::<TableUpdateView, DecodeError>(
            normal_table_update(v),
        ),
{
    reveal_strlit("table_id");
    reveal_strlit("table_name");
    reveal_strlit("table_row_operations");
    let members = table_update_tree(v)->Object_0;
    assert("table_id"@.len() != "table_name"@.len());
    assert("table_id"@.len() != "table_row_operations"@.len());
    assert("table_name"@.len() != "table_row_operations"@.len());
    lemma_member_at(members, 0);
    lemma_member_at(members, 1);
    lemma_member_at(members, 2);
    lemma_row_operations_round_trip(v.table_row_operations);
}

proof fn lemma_table_updates_round_trip(updates: Seq<TableUpdateView>)
    ensures
        decode_each(table_update_trees(updates), table_update_decoder()) == Ok::<
            Seq<TableUpdateView>,
            DecodeError,
        >(updates.map_values(|u: TableUpdateView| normal_table_update(u))),
    decreases updates.len(),
{
    let items = table_update_trees(updates);
    let out = updates.map_values(|u: TableUpdateView| normal_table_update(u));
    if updates.len() > 0 {
        lemma_table_updates_round_trip(updates.drop_last());
        lemma_table_update_round_trip(updates.last());
        assert(items.drop_last() =~= table_update_trees(updates.drop_last()));
        assert(items.last() == table_update_tree(updates.last()));
        assert(updates.drop_last().map_values(|u: TableUpdateView| normal_table_update(u)).push(
            normal_table_update(updates.last()),
        ) =~= out);
    } else {
        assert(out =~= Seq::empty());
    }
}

proof fn lemma_subscription_update_round_trip(v: SubscriptionUpdateView)
    ensures
        subscription_update_spec(subscription_update_tree(v)) == Ok::<
            SubscriptionUpdateView,
            DecodeError,
        >(normal_subscription_update(v)),
{
    let members = subscription_update_tree(v)->Object_0;
    lemma_member_at(members, 0);
    lemma_table_updates_round_trip(v.table_updates);
}

proof fn lemma_event_round_trip(v: EventView)
    ensures
        event_spec(event_tree(v)) == Ok::<EventView, DecodeError>(v),
{
    reveal_strlit("timestamp");
    reveal_strlit("status");
    reveal_strlit("caller_identity");
    reveal_strlit("function_call");
    reveal_strlit("energy_quanta_used");
    let members = event_tree(v)->Object_0;
    assert("timestamp"@.len() == 9);
    assert("status"@.len() == 6);
    assert("caller_identity"@.len() == 15);
    assert("function_call"@.len() == 13);
    assert("energy_quanta_used"@.len() == 18);
    lemma_member_at(members, 0);
    lemma_member_at(members, 1);
    lemma_member_at(members, 2);
    lemma_member_at(members, 3);
    lemma_member_at(members, 4);
    lemma_function_call_round_trip(v.function_call);
}

proof fn lemma_transaction_update_round_trip(v: TransactionUpdateView)
    ensures
        transaction_update_spec(transaction_update_tree(v)) == Ok::<
            TransactionUpdateView,
            DecodeError,
        >(
            TransactionUpdateView {
                subscription_update: normal_subscription_update(v.subscription_update),
                ..v
            },
        ),
{
    reveal_strlit("event");
    reveal_strlit("subscription_update");
    let members = transaction_update_tree(v)->Object_0;
    assert("event"@.len() != "subscription_update"@.len());
    lemma_member_at(members, 0);
    lemma_member_at(members, 1);
    lemma_event_round_trip(v.event);
    lemma_subscription_update_round_trip(v.subscription_update);
}

/// A response that is written as an envelope and read back is the same
/// response, its rows in normal form: nothing is lost, nothing is added, and
/// the order of tables, operations and values stays.
pub proof fn lemma_response_round_trip(v: SpaceDbResponseView)
    ensures
        response_spec(response_tree(v)) == Ok::<SpaceDbResponseView, DecodeError>(
            normal_response(v),
        ),
{
    reveal_strlit("t");
    reveal_strlit("d");
    reveal_strlit("IdentityToken");
    reveal_strlit("SubscriptionUpdate");
    reveal_strlit("TransactionUpdate");
    reveal_strlit("FunctionCall");
    reveal_strlit("Event");
    let members = response_tree(v)->Object_0;
    assert("t"@[0] != "d"@[0]);
    assert("IdentityToken"@.len() == 13);
    assert("SubscriptionUpdate"@.len() == 18);
    assert("TransactionUpdate"@.len() == 17);
    assert("FunctionCall"@.len() == 12);
    assert("Event"@.len() == 5);
    lemma_member_at(members, 0);
    lemma_member_at(members, 1);
    match v {
        SpaceDbResponseView::FunctionCall(c) => lemma_function_call_round_trip(c),
        SpaceDbResponseView::SubscriptionUpdate(u) => lemma_subscription_update_round_trip(u),
        SpaceDbResponseView::Event(e) => lemma_event_round_trip(e),
        SpaceDbResponseView::TransactionUpdate(t) => lemma_transaction_update_round_trip(t),
        SpaceDbResponseView::IdentityToken(t) => lemma_identity_token_round_trip(t),
    }
}

} // verus!
