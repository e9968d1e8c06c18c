use spacetime_client_sdk::codec::decode_response;
use spacetime_client_sdk::encode::{encode_identity_token, encode_response};
use spacetime_client_sdk::envelope::{Envelope, MessageType, SendEnveloppe};
use spacetime_client_sdk::errors::DecodeError;
use spacetime_client_sdk::json::Json;
use spacetime_client_sdk::messages::{
    EventJson, FunctionCallJson, IdentityTokenJson, SpaceDbResponse, SubscriptionUpdateJson,
    TableOp, TableRowOperationJson, TableUpdateJson, TransactionUpdateJson, TypeValue,
};
use spacetime_client_sdk::network_manager::{Message, NetworkManager};

fn member(key: &str, value: Json) -> (String, Json) {
    (key.to_string(), value)
}

fn event() -> EventJson {
    EventJson {
        timestamp: 12,
        status: "committed".to_string(),
        caller_identity: "c0ffee".to_string(),
        function_call: FunctionCallJson {
            reducer: "move_player".to_string(),
            arg_bytes: vec![0, 5],
        },
        energy_quanta_used: -1,
    }
}

fn update() -> SubscriptionUpdateJson {
    SubscriptionUpdateJson {
        table_updates: vec![TableUpdateJson {
            table_id: 1,
            table_name: "PlayerComponent".to_string(),
            table_row_operations: vec![
                TableRowOperationJson {
                    op: TableOp::Insert,
                    row_pk: "abc".to_string(),
                    row: vec![TypeValue::I8(0), TypeValue::I8(5)],
                },
                TableRowOperationJson {
                    op: TableOp::Update,
                    row_pk: "abc".to_string(),
                    row: vec![TypeValue::I16(300), TypeValue::String("x".to_string())],
                },
            ],
        }],
    }
}

#[test]
fn tags_of_the_messages() {
    assert_eq!(IdentityTokenJson::message_type(), "IdentityToken");
    assert_eq!(SubscriptionUpdateJson::message_type(), "SubscriptionUpdate");
    assert_eq!(TransactionUpdateJson::message_type(), "TransactionUpdate");
    assert_eq!(FunctionCallJson::message_type(), "FunctionCall");
    assert_eq!(EventJson::message_type(), "Event");
}

#[test]
fn an_envelope_to_send() {
    let token = IdentityTokenJson::new("me", "tk");
    let envelope = SendEnveloppe::new(token.clone());
    assert_eq!(envelope.message_type, "IdentityToken");
    assert_eq!(envelope.payload, token);
    let tree = SendEnveloppe {
        message_type: envelope.message_type,
        payload: encode_identity_token(&envelope.payload),
    }
    .into_json();
    assert_eq!(tree, encode_response(&SpaceDbResponse::IdentityToken(token.clone())));
    assert_eq!(
        decode_response(&tree),
        Ok(SpaceDbResponse::IdentityToken(token))
    );
}

#[test]
fn an_envelope_received() {
    let tree = Json::Object(vec![
        member("t", Json::Str("Anything".to_string())),
        member("d", Json::Int(3)),
    ]);
    let envelope = Envelope::open(&tree).unwrap();
    assert_eq!(envelope.message_type, "Anything");
    assert_eq!(envelope.payload, &Json::Int(3));
    assert_eq!(Envelope::open(&Json::Int(1)), Err(DecodeError::ExpectedObject));
    assert_eq!(
        Envelope::open(&Json::Object(vec![member("d", Json::Null)])),
        Err(DecodeError::MissingField)
    );
    assert_eq!(
        Envelope::open(&Json::Object(vec![member("t", Json::Null), member("d", Json::Null)])),
        Err(DecodeError::ExpectedString)
    );
    assert_eq!(
        Envelope::open(&Json::Object(vec![member("t", Json::Str("x".to_string()))])),
        Err(DecodeError::MissingField)
    );
}

#[test]
fn responses_round_trip_as_text() {
    let responses = vec![
        SpaceDbResponse::IdentityToken(IdentityTokenJson::new("me", "tk")),
        SpaceDbResponse::FunctionCall(FunctionCallJson {
            reducer: "r".to_string(),
            arg_bytes: vec![255, 0],
        }),
        SpaceDbResponse::Event(event()),
        SpaceDbResponse::SubscriptionUpdate(update()),
        SpaceDbResponse::TransactionUpdate(TransactionUpdateJson {
            event: event(),
            subscription_update: update(),
        }),
    ];
    for response in responses {
        let text = response.to_json();
        assert_eq!(
            spacetime_client_sdk::codec::decode_text(&text),
            Ok(response)
        );
    }
}

#[test]
fn a_response_as_text() {
    assert_eq!(
        SpaceDbResponse::SubscriptionUpdate(update()).to_json(),
        "{\"t\":\"SubscriptionUpdate\",\"d\":{\"table_updates\":[{\"table_id\":1,\"table_name\":\"PlayerComponent\",\"table_row_operations\":[{\"op\":\"insert\",\"row_pk\":\"abc\",\"row\":[0,5]},{\"op\":\"update\",\"row_pk\":\"abc\",\"row\":[300,\"x\"]}]}]}}"
    );
}

#[test]
fn reducer_calls_as_messages() {
    let msg = Message {
        fn_: "move_player".to_string(),
        args: vec![TypeValue::U32(0), TypeValue::U8(5)],
    };
    assert_eq!(msg.to_json(), "{\"fn_\":\"move_player\",\"args\":[0,5]}");
    assert_eq!(
        msg.to_tree(),
        Json::Object(vec![
            member("fn_", Json::Str("move_player".to_string())),
            member("args", Json::Array(vec![Json::Int(0), Json::Int(5)])),
        ])
    );
    let manager = NetworkManager::new();
    assert_eq!(manager.internal_call_reducer(&msg), Ok(()));
}
