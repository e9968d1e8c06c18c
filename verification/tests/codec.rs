use spacetime_client_sdk::codec::{
    decode_call_text, decode_response, decode_text, decode_value, narrowest_integer,
};
use spacetime_client_sdk::encode::{encode_call, encode_call_text, encode_value};
use spacetime_client_sdk::errors::DecodeError;
use spacetime_client_sdk::json::Json;
use spacetime_client_sdk::messages::{
    FnCall, SpaceDbResponse, TableOp, TypeValue,
};

fn member(key: &str, value: Json) -> (String, Json) {
    (key.to_string(), value)
}

#[test]
fn subscription_update_text_frame_decodes() {
    let text = "{\"t\":\"SubscriptionUpdate\",\"d\":{\"table_updates\":[{\"table_id\":1,\"table_name\":\"PlayerComponent\",\"table_row_operations\":[{\"op\":\"insert\",\"row_pk\":\"abc\",\"row\":[0,5]}]}]}}";
    let response = decode_text(text).unwrap();
    match response {
        SpaceDbResponse::SubscriptionUpdate(update) => {
            assert_eq!(update.table_updates.len(), 1);
            let table = &update.table_updates[0];
            assert_eq!(table.table_id, 1);
            assert_eq!(table.table_name, "PlayerComponent");
            assert_eq!(table.table_row_operations.len(), 1);
            let op = &table.table_row_operations[0];
            assert_eq!(op.op, TableOp::Insert);
            assert_eq!(op.row_pk, "abc");
            assert_eq!(op.row, vec![TypeValue::I8(0), TypeValue::I8(5)]);
            assert_eq!(op.row[0].as_i8(), Some(0));
            assert_eq!(op.row[1].as_integer(), Some(5));
        }
        other => panic!("unexpected response {:?}", other),
    }
}

#[test]
fn function_call_round_trip() {
    let args = vec![TypeValue::I8(0), TypeValue::I8(5)];
    let text = encode_call_text("move_player", &args);
    assert_eq!(text, "{\"fn\":\"move_player\",\"args\":[0,5]}");
    let call = decode_call_text(&text).unwrap();
    assert_eq!(call, FnCall::new("move_player".to_string(), args));
    assert_eq!(call.name(), "move_player");
    assert_eq!(call.args().len(), 2);
}

#[test]
fn function_call_round_trip_keeps_values_of_wider_variants() {
    let args = vec![
        TypeValue::U32(0),
        TypeValue::U8(5),
        TypeValue::U64(300),
        TypeValue::String("a\"b".to_string()),
        TypeValue::Bool(true),
        TypeValue::Bytes(vec![1, 2, 255]),
        TypeValue::I64(-9),
    ];
    let text = encode_call_text("create_new_player", &args);
    assert_eq!(
        text,
        "{\"fn\":\"create_new_player\",\"args\":[0,5,300,\"a\\\"b\",true,[1,2,255],-9]}"
    );
    let call = decode_call_text(&text).unwrap();
    assert_eq!(call.name(), "create_new_player");
    assert_eq!(
        call.args(),
        &vec![
            TypeValue::I8(0),
            TypeValue::I8(5),
            TypeValue::I16(300),
            TypeValue::String("a\"b".to_string()),
            TypeValue::Bool(true),
            TypeValue::Bytes(vec![1, 2, 255]),
            TypeValue::I8(-9),
        ]
    );
    for (sent, read) in args.iter().zip(call.args().iter()) {
        assert_eq!(sent.as_integer(), read.as_integer());
    }
}

#[test]
fn integers_take_the_narrowest_variant() {
    assert_eq!(narrowest_integer(-128), Some(TypeValue::I8(-128)));
    assert_eq!(narrowest_integer(127), Some(TypeValue::I8(127)));
    assert_eq!(narrowest_integer(128), Some(TypeValue::U8(128)));
    assert_eq!(narrowest_integer(255), Some(TypeValue::U8(255)));
    assert_eq!(narrowest_integer(256), Some(TypeValue::I16(256)));
    assert_eq!(narrowest_integer(-129), Some(TypeValue::I16(-129)));
    assert_eq!(narrowest_integer(32768), Some(TypeValue::U16(32768)));
    assert_eq!(narrowest_integer(65536), Some(TypeValue::I32(65536)));
    assert_eq!(narrowest_integer(2147483648), Some(TypeValue::U32(2147483648)));
    assert_eq!(narrowest_integer(4294967296), Some(TypeValue::I64(4294967296)));
    assert_eq!(
        narrowest_integer(9223372036854775808),
        Some(TypeValue::U64(9223372036854775808))
    );
    assert_eq!(
        narrowest_integer(18446744073709551615),
        Some(TypeValue::U64(18446744073709551615))
    );
    assert_eq!(narrowest_integer(18446744073709551616), None);
    assert_eq!(narrowest_integer(-9223372036854775809), None);
}

#[test]
fn values_decode_by_kind() {
    assert_eq!(decode_value(&Json::Bool(false)), Ok(TypeValue::Bool(false)));
    assert_eq!(decode_value(&Json::Int(70000)), Ok(TypeValue::I32(70000)));
    assert_eq!(
        decode_value(&Json::Str("x".to_string())),
        Ok(TypeValue::String("x".to_string()))
    );
    assert_eq!(
        decode_value(&Json::Array(vec![Json::Int(0), Json::Int(255)])),
        Ok(TypeValue::Bytes(vec![0, 255]))
    );
    assert_eq!(
        decode_value(&Json::Array(vec![Json::Int(256)])),
        Err(DecodeError::UnsupportedValue)
    );
    assert_eq!(decode_value(&Json::Null), Err(DecodeError::UnsupportedValue));
    assert_eq!(
        decode_value(&Json::Object(vec![])),
        Err(DecodeError::UnsupportedValue)
    );
    assert_eq!(
        decode_value(&Json::Int(1 << 70)),
        Err(DecodeError::OutOfRange)
    );
}

#[test]
fn values_encode_as_their_numbers() {
    assert_eq!(encode_value(&TypeValue::U64(7)), Json::Int(7));
    assert_eq!(encode_value(&TypeValue::I16(-7)), Json::Int(-7));
    assert_eq!(
        encode_value(&TypeValue::Bytes(vec![3, 4])),
        Json::Array(vec![Json::Int(3), Json::Int(4)])
    );
    assert_eq!(
        encode_call("f", &vec![TypeValue::Bool(true)]),
        Json::Object(vec![
            member("fn", Json::Str("f".to_string())),
            member("args", Json::Array(vec![Json::Bool(true)])),
        ])
    );
}

#[test]
fn text_that_is_not_json_is_a_syntax_error() {
    assert_eq!(decode_text("{\"t\":"), Err(DecodeError::Syntax));
    assert_eq!(decode_text(""), Err(DecodeError::Syntax));
    assert_eq!(decode_call_text("nonsense"), Err(DecodeError::Syntax));
}

#[test]
fn a_number_that_is_no_integer_is_no_column_value() {
    assert_eq!(
        decode_text("{\"t\":\"IdentityToken\",\"d\":{\"identity\":\"a\",\"token\":\"b\"},\"x\":1.5}"),
        Ok(SpaceDbResponse::IdentityToken(
            spacetime_client_sdk::messages::IdentityTokenJson::new("a", "b")
        ))
    );
    assert_eq!(decode_value(&Json::Real), Err(DecodeError::UnsupportedValue));
    assert_eq!(
        decode_text("{\"t\":\"SubscriptionUpdate\",\"d\":{\"table_updates\":[{\"table_id\":1,\"table_name\":\"T\",\"table_row_operations\":[{\"op\":\"insert\",\"row_pk\":\"k\",\"row\":[0.5]}]}]}}"),
        Err(DecodeError::UnsupportedValue)
    );
    assert_eq!(
        decode_text("{\"t\":\"SubscriptionUpdate\",\"d\":{\"table_updates\":[{\"table_id\":1.0}]}}"),
        Err(DecodeError::ExpectedInteger)
    );
}

#[test]
fn envelope_errors() {
    assert_eq!(decode_text("[1,2]"), Err(DecodeError::ExpectedObject));
    assert_eq!(decode_text("{\"d\":{}}"), Err(DecodeError::MissingField));
    assert_eq!(decode_text("{\"t\":1,\"d\":{}}"), Err(DecodeError::ExpectedString));
    assert_eq!(
        decode_text("{\"t\":\"IdentityToken\"}"),
        Err(DecodeError::MissingField)
    );
    assert_eq!(
        decode_text("{\"t\":\"Mystery\",\"d\":{}}"),
        Err(DecodeError::UnknownTag)
    );
    assert_eq!(
        decode_text("{\"t\":\"SubscriptionUpdate\",\"d\":{\"table_updates\":3}}"),
        Err(DecodeError::ExpectedArray)
    );
    assert_eq!(
        decode_text("{\"t\":\"SubscriptionUpdate\",\"d\":{\"table_updates\":[{\"table_id\":\"x\"}]}}"),
        Err(DecodeError::ExpectedInteger)
    );
    assert_eq!(
        decode_text("{\"t\":\"SubscriptionUpdate\",\"d\":{\"table_updates\":[{\"table_id\":4294967296}]}}"),
        Err(DecodeError::OutOfRange)
    );
    assert_eq!(
        decode_text("{\"t\":\"SubscriptionUpdate\",\"d\":{\"table_updates\":[{\"table_id\":1,\"table_name\":\"T\",\"table_row_operations\":[{\"op\":\"upsert\",\"row_pk\":\"k\",\"row\":[]}]}]}}"),
        Err(DecodeError::UnknownOp)
    );
    assert_eq!(
        decode_text("{\"t\":\"SubscriptionUpdate\",\"d\":{\"table_updates\":[{\"table_id\":1,\"table_name\":\"T\",\"table_row_operations\":[{\"op\":\"delete\",\"row_pk\":\"k\",\"row\":[null]}]}]}}"),
        Err(DecodeError::UnsupportedValue)
    );
}

#[test]
fn the_first_failing_item_decides() {
    let text = "{\"t\":\"SubscriptionUpdate\",\"d\":{\"table_updates\":[{\"table_id\":1,\"table_name\":\"T\",\"table_row_operations\":[{\"op\":\"delete\",\"row_pk\":\"k\",\"row\":[{}]},{\"op\":\"bad\"}]}]}}";
    assert_eq!(decode_text(text), Err(DecodeError::UnsupportedValue));
}

#[test]
fn operations_keep_their_order() {
    let text = "{\"t\":\"SubscriptionUpdate\",\"d\":{\"table_updates\":[{\"table_id\":7,\"table_name\":\"T\",\"table_row_operations\":[{\"op\":\"insert\",\"row_pk\":\"a\",\"row\":[1]},{\"op\":\"update\",\"row_pk\":\"a\",\"row\":[2]},{\"op\":\"delete\",\"row_pk\":\"a\",\"row\":[2]}]}]}}";
    match decode_text(text).unwrap() {
        SpaceDbResponse::SubscriptionUpdate(update) => {
            let ops: Vec<TableOp> = update.table_updates[0]
                .table_row_operations
                .iter()
                .map(|o| o.op)
                .collect();
            assert_eq!(ops, vec![TableOp::Insert, TableOp::Update, TableOp::Delete]);
        }
        other => panic!("unexpected response {:?}", other),
    }
}

#[test]
fn other_responses_decode() {
    let token = decode_text("{\"t\":\"IdentityToken\",\"d\":{\"identity\":\"id\",\"token\":\"tk\"}}").unwrap();
    match token {
        SpaceDbResponse::IdentityToken(t) => {
            assert_eq!(t.identity, "id");
            assert_eq!(t.token, "tk");
        }
        other => panic!("unexpected response {:?}", other),
    }
    let call = decode_text("{\"t\":\"FunctionCall\",\"d\":{\"reducer\":\"move_player\",\"arg_bytes\":[1,2,3]}}").unwrap();
    match call {
        SpaceDbResponse::FunctionCall(c) => {
            assert_eq!(c.reducer, "move_player");
            assert_eq!(c.arg_bytes, vec![1, 2, 3]);
        }
        other => panic!("unexpected response {:?}", other),
    }
    let event_text = "{\"timestamp\":18446744073709551615,\"status\":\"committed\",\"caller_identity\":\"ff\",\"function_call\":{\"reducer\":\"r\",\"arg_bytes\":[]},\"energy_quanta_used\":-3}";
    let event = decode_text(&format!("{{\"t\":\"Event\",\"d\":{}}}", event_text)).unwrap();
    match event {
        SpaceDbResponse::Event(e) => {
            assert_eq!(e.timestamp, u64::MAX);
            assert_eq!(e.status, "committed");
            assert_eq!(e.caller_identity, "ff");
            assert_eq!(e.function_call.reducer, "r");
            assert_eq!(e.energy_quanta_used, -3);
        }
        other => panic!("unexpected response {:?}", other),
    }
    let tx = decode_text(&format!(
        "{{\"t\":\"TransactionUpdate\",\"d\":{{\"event\":{},\"subscription_update\":{{\"table_updates\":[]}}}}}}",
        event_text
    ))
    .unwrap();
    match tx {
        SpaceDbResponse::TransactionUpdate(t) => {
            assert_eq!(t.event.status, "committed");
            assert!(t.subscription_update.table_updates.is_empty());
        }
        other => panic!("unexpected response {:?}", other),
    }
}

#[test]
fn the_first_member_of_a_name_counts() {
    let tree = Json::Object(vec![
        member("t", Json::Str("IdentityToken".to_string())),
        member(
            "d",
            Json::Object(vec![
                member("identity", Json::Str("first".to_string())),
                member("token", Json::Str("tk".to_string())),
                member("identity", Json::Str("second".to_string())),
            ]),
        ),
    ]);
    match decode_response(&tree).unwrap() {
        SpaceDbResponse::IdentityToken(t) => assert_eq!(t.identity, "first"),
        other => panic!("unexpected response {:?}", other),
    }
    assert_eq!(tree.get("t"), Some(&Json::Str("IdentityToken".to_string())));
    assert_eq!(tree.get("missing"), None);
    assert_eq!(Json::Null.get("t"), None);
}
