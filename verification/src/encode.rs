//! The writing side of the text codec: from typed messages to JSON trees,
//! and from there, through `serde_json`, to the text of a frame.

use vstd::prelude::*;
use crate::codec::{lemma_array_trees, trees};
use crate::json::{distinct_names, json_text, print_json, tree_of, Json, JsonValue};
use crate::messages::{
    values_view, EventJson, EventView, FunctionCallJson, FunctionCallView, IdentityTokenJson,
    IdentityTokenView, SpaceDbResponse, SpaceDbResponseView, SubscriptionUpdateJson,
    SubscriptionUpdateView, TableOp, TableRowOperationJson, TableRowOperationView,
    TableUpdateJson, TableUpdateView, TransactionUpdateJson, TransactionUpdateView, TypeValue,
    TypeValueView,
};

verus! {

/// The JSON form of a byte: its number.
pub open spec fn byte_tree(b: u8) -> JsonValue {
    JsonValue::Int(b as int)
}

/// The JSON form of a byte string: the array of its bytes' numbers.
pub open spec fn bytes_tree(bytes: Seq<u8>) -> JsonValue {
    JsonValue::Array(bytes.map_values(|b: u8| byte_tree(b)))
}

/// The JSON form of a column value: an integer is its number, whatever its
/// width.
pub open spec fn value_tree(v: TypeValueView) -> JsonValue {
    match v {
        TypeValueView::Bool(b) => JsonValue::Bool(b),
        TypeValueView::I8(n) => JsonValue::Int(n as int),
        TypeValueView::U8(n) => JsonValue::Int(n as int),
        TypeValueView::I16(n) => JsonValue::Int(n as int),
        TypeValueView::U16(n) => JsonValue::Int(n as int),
        TypeValueView::I32(n) => JsonValue::Int(n as int),
        TypeValueView::U32(n) => JsonValue::Int(n as int),
        TypeValueView::I64(n) => JsonValue::Int(n as int),
        TypeValueView::U64(n) => JsonValue::Int(n as int),
        TypeValueView::String(s) => JsonValue::Str(s),
        TypeValueView::Bytes(b) => bytes_tree(b),
    }
}

/// The JSON forms of a row's values, in order.
pub open spec fn value_trees(values: Seq<TypeValueView>) -> Seq<JsonValue> {
    values.map_values(|v: TypeValueView| value_tree(v))
}

/// The envelope of a remote call: `{"fn": name, "args": [..]}`.
pub open spec fn call_tree(name: Seq<char>, args: Seq<TypeValueView>) -> JsonValue {
    JsonValue::Object(
        seq![("fn"@, JsonValue::Str(name)), ("args"@, JsonValue::Array(value_trees(args)))],
    )
}

fn encode_bytes(bytes: &Vec<u8>) -> (r: Json)
    ensures
        r@ == bytes_tree(bytes@),
        r@.printable(),
{
    let mut items: Vec<Json> = Vec::new();
    let mut i: usize = 0;
    while i < bytes.len()
        invariant
            i <= bytes.len(),
            items.len() == i,
            forall|k: int| 0 <= k < i ==> (#[trigger] items[k])@ == byte_tree(bytes[k]),
        decreases bytes.len() - i,
    {
        items.push(Json::Int(bytes[i] as i128));
        i += 1;
    }
    let r = Json::Array(items);
    proof {
        lemma_array_trees(items);
        assert(trees(items@) =~= bytes@.map_values(|b: u8| byte_tree(b)));
        assert forall|k: int| 0 <= k < trees(items@).len() implies (#[trigger] trees(
            items@,
        )[k]).printable() by {
            assert(trees(items@)[k] == byte_tree(bytes[k]));
        }
    }
    r
}

/// The JSON form of one column value.
pub fn encode_value(v: &TypeValue) -> (r: Json)
    ensures
        r@ == value_tree(v@),
        r@.printable(),
{
    match v {
        TypeValue::Bool(b) => Json::Bool(*b),
        TypeValue::I8(n) => Json::Int(*n as i128),
        TypeValue::U8(n) => Json::Int(*n as i128),
        TypeValue::I16(n) => Json::Int(*n as i128),
        TypeValue::U16(n) => Json::Int(*n as i128),
        TypeValue::I32(n) => Json::Int(*n as i128),
        TypeValue::U32(n) => Json::Int(*n as i128),
        TypeValue::I64(n) => Json::Int(*n as i128),
        TypeValue::U64(n) => Json::Int(*n as i128),
        TypeValue::String(s) => Json::Str(s.clone()),
        TypeValue::Bytes(b) => encode_bytes(b),
    }
}

/// The JSON form of a run of values: the array of their forms.
pub fn encode_values(values: &Vec<TypeValue>) -> (r: Json)
    ensures
        r@ == JsonValue::Array(value_trees(values_view(values@))),
        r@.printable(),
{
    let mut items: Vec<Json> = Vec::new();
    let mut i: usize = 0;
    while i < values.len()
        invariant
            i <= values.len(),
            items.len() == i,
            forall|k: int| 0 <= k < i ==> (#[trigger] items[k])@ == value_tree(values[k]@),
            forall|k: int| 0 <= k < i ==> (#[trigger] items[k])@.printable(),
        decreases values.len() - i,
    {
        items.push(encode_value(&values[i]));
        i += 1;
    }
    let r = Json::Array(items);
    proof {
        lemma_array_trees(items);
        assert(trees(items@) =~= value_trees(values_view(values@)));
    }
    r
}

/// The tree of an object is the object of the names and trees of its
/// members.
pub proof fn lemma_object_tree(members: Vec<(String, Json)>)
    ensures
        tree_of(Json::Object(members)) == JsonValue::Object(
            Seq::new(members.len() as nat, |i: int| (members[i].0@, members[i].1@)),
        ),
{
    assert(tree_of(Json::Object(members))->Object_0 =~= Seq::new(
        members.len() as nat,
        |i: int| (members[i].0@, members[i].1@),
    ));
}

/// Names of different lengths are different names.
pub proof fn lemma_distinct_by_length(members: Seq<(Seq<char>, JsonValue)>)
    requires
        forall|i: int, j: int|
            0 <= i < j < members.len() ==> (#[trigger] members[i]).0.len() != (
            #[trigger] members[j]).0.len(),
    ensures
        distinct_names(members),
{
}

/// The members of the envelope of a call have different names.
pub proof fn lemma_call_names(name: Seq<char>, args: Seq<TypeValueView>)
    ensures
        distinct_names(call_tree(name, args)->Object_0),
{
    reveal_strlit("fn");
    reveal_strlit("args");
    lemma_distinct_by_length(call_tree(name, args)->Object_0);
}

/// The envelope of a remote call.
pub fn encode_call(name: &str, args: &Vec<TypeValue>) -> (r: Json)
    ensures
        r@ == call_tree(name@, values_view(args@)),
        r@.printable(),
{
    let mut members: Vec<(String, Json)> = Vec::new();
    members.push(member_of("fn", Json::Str(name.to_owned())));
    members.push(member_of("args", encode_values(args)));
    proof {
        assert(members_view(members@) =~= call_tree(name@, values_view(args@))->Object_0);
        lemma_call_names(name@, values_view(args@));
    }
    object(members)
}

/// Writes a remote call as the text of a frame. The text is written by
/// `serde_json`; the contract goes through [`json_text`], the name of what it
/// writes.
pub fn encode_call_text(name: &str, args: &Vec<TypeValue>) -> (text: String)
    ensures
        text@ == json_text(call_tree(name@, values_view(args@))),
{
    let tree = encode_call(name, args);
    print_json(&tree)
}

/// The views of the members of an object, in order.
pub open spec fn members_view(members: Seq<(String, Json)>) -> Seq<(Seq<char>, JsonValue)> {
    members.map_values(|m: (String, Json)| (m.0@, m.1@))
}

/// Whether every value of a run of members is printable.
pub open spec fn members_printable(members: Seq<(String, Json)>) -> bool {
    forall|i: int| 0 <= i < members.len() ==> (#[trigger] members[i]).1@.printable()
}

/// The object with the given members.
pub fn object(members: Vec<(String, Json)>) -> (r: Json)
    ensures
        r@ == JsonValue::Object(members_view(members@)),
        members_printable(members@) && distinct_names(members_view(members@)) ==> r@.printable(),
{
    let ghost view = members_view(members@);
    let r = Json::Object(members);
    proof {
        lemma_object_tree(members);
        assert(r@->Object_0 =~= view);
        if members_printable(members@) {
            assert forall|k: int| 0 <= k < view.len() implies (#[trigger] view[k]).1.printable() by {
                assert(view[k].1 == members[k].1@);
            }
        }
    }
    r
}

/// The array with the given items.
pub fn array(items: Vec<Json>) -> (r: Json)
    ensures
        r@ == JsonValue::Array(trees(items@)),
        (forall|i: int| 0 <= i < items.len() ==> (#[trigger] items[i])@.printable())
            ==> r@.printable(),
{
    let r = Json::Array(items);
    proof {
        lemma_array_trees(items);
        if forall|i: int| 0 <= i < items.len() ==> (#[trigger] items[i])@.printable() {
            assert forall|k: int| 0 <= k < trees(items@).len() implies (#[trigger] trees(
                items@,
            )[k]).printable() by {
                assert(trees(items@)[k] == items[k]@);
            }
        }
    }
    r
}

/// A member of an object.
pub fn member_of(key: &str, value: Json) -> (r: (String, Json))
    ensures
        r.0@ == key@,
        r.1 == value,
{
    (key.to_owned(), value)
}

/// The lower-case name of an operation.
pub open spec fn op_name(op: TableOp) -> Seq<char> {
    match op {
        TableOp::Insert => "insert"@,
        TableOp::Delete => "delete"@,
        TableOp::Update => "update"@,
    }
}

pub open spec fn identity_token_tree(v: IdentityTokenView) -> JsonValue {
    JsonValue::Object(
        seq![("identity"@, JsonValue::Str(v.identity)), ("token"@, JsonValue::Str(v.token))],
    )
}

pub open spec fn function_call_tree(v: FunctionCallView) -> JsonValue {
    JsonValue::Object(
        seq![("reducer"@, JsonValue::Str(v.reducer)), ("arg_bytes"@, bytes_tree(v.arg_bytes))],
    )
}

pub open spec fn row_operation_tree(v: TableRowOperationView) -> JsonValue {
    JsonValue::Object(
        seq![
            ("op"@, JsonValue::Str(op_name(v.op))),
            ("row_pk"@, JsonValue::Str(v.row_pk)),
            ("row"@, JsonValue::Array(value_trees(v.row))),
        ],
    )
}

pub open spec fn row_operation_trees(ops: Seq<TableRowOperationView>) -> Seq<JsonValue> {
    ops.map_values(|op: TableRowOperationView| row_operation_tree(op))
}

pub open spec fn table_update_tree(v: TableUpdateView) -> JsonValue {
    JsonValue::Object(
        seq![
            ("table_id"@, JsonValue::Int(v.table_id as int)),
            ("table_name"@, JsonValue::Str(v.table_name)),
            (
                "table_row_operations"@,
                JsonValue::Array(row_operation_trees(v.table_row_operations)),
            ),
        ],
    )
}

pub open spec fn table_update_trees(updates: Seq<TableUpdateView>) -> Seq<JsonValue> {
    updates.map_values(|u: TableUpdateView| table_update_tree(u))
}

pub open spec fn subscription_update_tree(v: SubscriptionUpdateView) -> JsonValue {
    JsonValue::Object(
        seq![("table_updates"@, JsonValue::Array(table_update_trees(v.table_updates)))],
    )
}

pub open spec fn event_tree(v: EventView) -> JsonValue {
    JsonValue::Object(
        seq![
            ("timestamp"@, JsonValue::Int(v.timestamp as int)),
            ("status"@, JsonValue::Str(v.status)),
            ("caller_identity"@, JsonValue::Str(v.caller_identity)),
            ("function_call"@, function_call_tree(v.function_call)),
            ("energy_quanta_used"@, JsonValue::Int(v.energy_quanta_used as int)),
        ],
    )
}

pub open spec fn transaction_update_tree(v: TransactionUpdateView) -> JsonValue {
    JsonValue::Object(
        seq![
            ("event"@, event_tree(v.event)),
            ("subscription_update"@, subscription_update_tree(v.subscription_update)),
        ],
    )
}

/// The tag of a response.
pub open spec fn response_tag(v: SpaceDbResponseView) -> Seq<char> {
    match v {
        SpaceDbResponseView::FunctionCall(_) => "FunctionCall"@,
        SpaceDbResponseView::SubscriptionUpdate(_) => "SubscriptionUpdate"@,
        SpaceDbResponseView::Event(_) => "Event"@,
        SpaceDbResponseView::TransactionUpdate(_) => "TransactionUpdate"@,
        SpaceDbResponseView::IdentityToken(_) => "IdentityToken"@,
    }
}

/// The payload of a response.
pub open spec fn response_payload(v: SpaceDbResponseView) -> JsonValue {
    match v {
        SpaceDbResponseView::FunctionCall(c) => function_call_tree(c),
        SpaceDbResponseView::SubscriptionUpdate(u) => subscription_update_tree(u),
        SpaceDbResponseView::Event(e) => event_tree(e),
        SpaceDbResponseView::TransactionUpdate(t) => transaction_update_tree(t),
        SpaceDbResponseView::IdentityToken(t) => identity_token_tree(t),
    }
}

/// The envelope of a response: `{"t": tag, "d": payload}`.
pub open spec fn response_tree(v: SpaceDbResponseView) -> JsonValue {
    JsonValue::Object(seq![("t"@, JsonValue::Str(response_tag(v))), ("d"@, response_payload(v))])
}

/// The members of the envelope of a response have different names.
pub proof fn lemma_response_names(v: SpaceDbResponseView)
    ensures
        distinct_names(response_tree(v)->Object_0),
{
    reveal_strlit("t");
    reveal_strlit("d");
    let members = response_tree(v)->Object_0;
    assert(members[0].0[0] != members[1].0[0]);
}

/// The members of an identity token have different names.
pub proof fn lemma_identity_token_names(v: IdentityTokenView)
    ensures
        distinct_names(identity_token_tree(v)->Object_0),
{
    reveal_strlit("identity");
    reveal_strlit("token");
    lemma_distinct_by_length(identity_token_tree(v)->Object_0);
}

/// The members of the description of a call have different names.
pub proof fn lemma_function_call_names(v: FunctionCallView)
    ensures
        distinct_names(function_call_tree(v)->Object_0),
{
    reveal_strlit("reducer");
    reveal_strlit("arg_bytes");
    lemma_distinct_by_length(function_call_tree(v)->Object_0);
}

/// The members of a row operation have different names.
pub proof fn lemma_row_operation_names(v: TableRowOperationView)
    ensures
        distinct_names(row_operation_tree(v)->Object_0),
{
    reveal_strlit("op");
    reveal_strlit("row_pk");
    reveal_strlit("row");
    lemma_distinct_by_length(row_operation_tree(v)->Object_0);
}

/// The members of a table update have different names.
pub proof fn lemma_table_update_names(v: TableUpdateView)
    ensures
        distinct_names(table_update_tree(v)->Object_0),
{
    reveal_strlit("table_id");
    reveal_strlit("table_name");
    reveal_strlit("table_row_operations");
    lemma_distinct_by_length(table_update_tree(v)->Object_0);
}

/// The members of an event have different names.
pub proof fn lemma_event_names(v: EventView)
    ensures
        distinct_names(event_tree(v)->Object_0),
{
    reveal_strlit("timestamp");
    reveal_strlit("status");
    reveal_strlit("caller_identity");
    reveal_strlit("function_call");
    reveal_strlit("energy_quanta_used");
    let members = event_tree(v)->Object_0;
    assert(members[0].0.len() == 9);
    assert(members[1].0.len() == 6);
    assert(members[2].0.len() == 15);
    assert(members[3].0.len() == 13);
    assert(members[4].0.len() == 18);
    lemma_distinct_by_length(members);
}

/// The members of a transaction update have different names.
pub proof fn lemma_transaction_update_names(v: TransactionUpdateView)
    ensures
        distinct_names(transaction_update_tree(v)->Object_0),
{
    reveal_strlit("event");
    reveal_strlit("subscription_update");
    lemma_distinct_by_length(transaction_update_tree(v)->Object_0);
}

/// The JSON form of an identity and its token.
pub fn encode_identity_token(v: &IdentityTokenJson) -> (r: Json)
    ensures
        r@ == identity_token_tree(v@),
        r@.printable(),
{
    let mut members: Vec<(String, Json)> = Vec::new();
    members.push(member_of("identity", Json::Str(v.identity.clone())));
    members.push(member_of("token", Json::Str(v.token.clone())));
    assert(members_view(members@) =~= identity_token_tree(v@)->Object_0);
    proof {
        lemma_identity_token_names(v@);
    }
    object(members)
}

/// The JSON form of the description of a call.
pub fn encode_function_call(v: &FunctionCallJson) -> (r: Json)
    ensures
        r@ == function_call_tree(v@),
        r@.printable(),
{
    let mut members: Vec<(String, Json)> = Vec::new();
    members.push(member_of("reducer", Json::Str(v.reducer.clone())));
    members.push(member_of("arg_bytes", encode_bytes(&v.arg_bytes)));
    assert(members_view(members@) =~= function_call_tree(v@)->Object_0);
    proof {
        lemma_function_call_names(v@);
    }
    object(members)
}

fn op_text(op: TableOp) -> (r: &'static str)
    ensures
        r@ == op_name(op),
{
    match op {
        TableOp::Insert => "insert",
        TableOp::Delete => "delete",
        TableOp::Update => "update",
    }
}

/// The JSON form of one row operation.
pub fn encode_row_operation(v: &TableRowOperationJson) -> (r: Json)
    ensures
        r@ == row_operation_tree(v@),
        r@.printable(),
{
    let mut members: Vec<(String, Json)> = Vec::new();
    members.push(member_of("op", Json::Str(op_text(v.op).to_owned())));
    members.push(member_of("row_pk", Json::Str(v.row_pk.clone())));
    members.push(member_of("row", encode_values(&v.row)));
    assert(members_view(members@) =~= row_operation_tree(v@)->Object_0);
    proof {
        lemma_row_operation_names(v@);
    }
    object(members)
}

/// The JSON form of the update of one table.
pub fn encode_table_update(v: &TableUpdateJson) -> (r: Json)
    ensures
        r@ == table_update_tree(v@),
        r@.printable(),
{
    let mut ops: Vec<Json> = Vec::new();
    let mut i: usize = 0;
    while i < v.table_row_operations.len()
        invariant
            i <= v.table_row_operations.len(),
            ops.len() == i,
            forall|k: int|
                0 <= k < i ==> (#[trigger] ops[k])@ == row_operation_tree(
                    v.table_row_operations[k]@,
                ),
            forall|k: int| 0 <= k < i ==> (#[trigger] ops[k])@.printable(),
        decreases v.table_row_operations.len() - i,
    {
        ops.push(encode_row_operation(&v.table_row_operations[i]));
        i += 1;
    }
    assert(trees(ops@) =~= row_operation_trees(v@.table_row_operations));
    let mut members: Vec<(String, Json)> = Vec::new();
    members.push(member_of("table_id", Json::Int(v.table_id as i128)));
    members.push(member_of("table_name", Json::Str(v.table_name.clone())));
    members.push(member_of("table_row_operations", array(ops)));
    assert(members_view(members@) =~= table_update_tree(v@)->Object_0);
    proof {
        lemma_table_update_names(v@);
    }
    object(members)
}

/// The JSON form of a batch of table updates.
pub fn encode_subscription_update(v: &SubscriptionUpdateJson) -> (r: Json)
    ensures
        r@ == subscription_update_tree(v@),
        r@.printable(),
{
    let mut updates: Vec<Json> = Vec::new();
    let mut i: usize = 0;
    while i < v.table_updates.len()
        invariant
            i <= v.table_updates.len(),
            updates.len() == i,
            forall|k: int|
                0 <= k < i ==> (#[trigger] updates[k])@ == table_update_tree(v.table_updates[k]@),
            forall|k: int| 0 <= k < i ==> (#[trigger] updates[k])@.printable(),
        decreases v.table_updates.len() - i,
    {
        updates.push(encode_table_update(&v.table_updates[i]));
        i += 1;
    }
    assert(trees(updates@) =~= table_update_trees(v@.table_updates));
    let mut members: Vec<(String, Json)> = Vec::new();
    members.push(member_of("table_updates", array(updates)));
    assert(members_view(members@) =~= subscription_update_tree(v@)->Object_0);
    object(members)
}

/// The JSON form of the record of one call.
pub fn encode_event(v: &EventJson) -> (r: Json)
    ensures
        r@ == event_tree(v@),
        r@.printable(),
{
    let mut members: Vec<(String, Json)> = Vec::new();
    members.push(member_of("timestamp", Json::Int(v.timestamp as i128)));
    members.push(member_of("status", Json::Str(v.status.clone())));
    members.push(member_of("caller_identity", Json::Str(v.caller_identity.clone())));
    members.push(member_of("function_call", encode_function_call(&v.function_call)));
    members.push(member_of("energy_quanta_used", Json::Int(v.energy_quanta_used as i128)));
    assert(members_view(members@) =~= event_tree(v@)->Object_0);
    proof {
        lemma_event_names(v@);
    }
    object(members)
}

/// The JSON form of an event together with the updates it caused.
pub fn encode_transaction_update(v: &TransactionUpdateJson) -> (r: Json)
    ensures
        r@ == transaction_update_tree(v@),
        r@.printable(),
{
    let mut members: Vec<(String, Json)> = Vec::new();
    members.push(member_of("event", encode_event(&v.event)));
    members.push(member_of("subscription_update", encode_subscription_update(&v.subscription_update)));
    assert(members_view(members@) =~= transaction_update_tree(v@)->Object_0);
    proof {
        lemma_transaction_update_names(v@);
    }
    object(members)
}

/// The envelope of a response.
pub fn encode_response(v: &SpaceDbResponse) -> (r: Json)
    ensures
        r@ == response_tree(v@),
        r@.printable(),
{
    let (tag, payload) = match v {
        SpaceDbResponse::FunctionCall(c) => ("FunctionCall", encode_function_call(c)),
        SpaceDbResponse::SubscriptionUpdate(u) => (
            "SubscriptionUpdate",
            encode_subscription_update(u),
        ),
        SpaceDbResponse::Event(e) => ("Event", encode_event(e)),
        SpaceDbResponse::TransactionUpdate(t) => ("TransactionUpdate", encode_transaction_update(t)),
        SpaceDbResponse::IdentityToken(t) => ("IdentityToken", encode_identity_token(t)),
    };
    let mut members: Vec<(String, Json)> = Vec::new();
    members.push(member_of("t", Json::Str(tag.to_owned())));
    members.push(member_of("d", payload));
    assert(members_view(members@) =~= response_tree(v@)->Object_0);
    proof {
        lemma_response_names(v@);
    }
    object(members)
}

impl SpaceDbResponse {
    /// The text of the frame that carries this response. The text is
    /// written by `serde_json`; the contract goes through [`json_text`].
    pub fn to_json(&self) -> (text: String)
        ensures
            text@ == json_text(response_tree(self@)),
    {
        let tree = encode_response(self);
        print_json(&tree)
    }
}

} // verus!
