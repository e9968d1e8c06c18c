use spacetime_client_sdk::errors::{ClientError, DecodeError};
use spacetime_client_sdk::messages::{
    Frame, IdentityTokenJson, SpaceDbRequest, SpaceDbResponse, SubscriptionUpdateJson, TableOp,
    TableRowOperationJson, TableUpdateJson, TypeValue,
};
use spacetime_client_sdk::web_socket::{
    process_msg, serialize_msg, step, Client, ConnectionHandle, ConnectionState, NetworkEvent,
    SendStatus, TaskAction, TaskEvent, Transition,
};
use spacetime_client_sdk::ws::{BuildConnection, Protocol};

fn handle() -> ConnectionHandle {
    ConnectionHandle { uuid: 42 }
}

fn token_frame() -> Frame {
    Frame::Text("{\"t\":\"IdentityToken\",\"d\":{\"identity\":\"id\",\"token\":\"tk\"}}".to_string())
}

#[test]
fn web_socket_test_connect() {
    let room_url = "ws://127.0.0.1:3000/database/subscribe?name_or_address=extremeviolenceonspace";
    let mut client = Client::new("127.0.0.1:3000", "extremeviolenceonspace").unwrap();
    assert_eq!(client.con().url(), room_url);
    assert!(!client.is_running());

    let runtime = tokio::runtime::Builder::new_current_thread().build().unwrap();
    let (ev_tx, ev_rx) = crossbeam_channel::unbounded();
    let (frame_tx, mut frame_rx) = tokio::sync::mpsc::unbounded_channel();
    let task = runtime.spawn(async {});
    ev_tx
        .send(NetworkEvent::Connected(ConnectionHandle::new()))
        .unwrap();
    let con = client.con().clone();
    client.connect(con, task, ev_rx, frame_tx);

    assert!(client.is_running());

    assert_eq!(
        client.send_raw_message(Frame::Text("Hi".to_string())),
        SendStatus::Queued
    );
    assert_eq!(frame_rx.try_recv().unwrap(), Frame::Text("Hi".to_string()));

    match client.try_recv() {
        Some(NetworkEvent::Connected(h)) => assert_ne!(h, ConnectionHandle::default()),
        other => panic!("unexpected event {:?}", other),
    }
    assert_eq!(client.try_recv(), None);
}

#[test]
fn a_new_client_is_not_running() {
    let mut client = Client::new("localhost:3000", "game").unwrap();
    assert!(!client.is_running());
    assert_eq!(client.try_recv(), None);
    assert_eq!(
        client.send_raw_message(Frame::Text("x".to_string())),
        SendStatus::NotConnected
    );
    assert_eq!(client.send_message(SpaceDbRequest::Ping), SendStatus::NoFrame);
    assert_eq!(
        client.send_message(SpaceDbRequest::FunctionCall {
            name: "f".to_string(),
            args: vec![]
        }),
        SendStatus::NotConnected
    );
    assert_eq!(client.con().protocol(), Protocol::Text);
    assert_eq!(client.con().auth(), &None);
    assert_eq!(
        client.con().url(),
        "ws://localhost:3000/database/subscribe?name_or_address=game"
    );
}

#[test]
fn a_client_without_a_host_is_a_configuration_error() {
    assert!(matches!(Client::new("", "game"), Err(ClientError::Configuration)));
    assert!(matches!(
        Client::new("bad host", "game"),
        Err(ClientError::Configuration)
    ));
}

#[test]
fn a_client_is_running_as_soon_as_it_has_a_task() {
    let mut client = Client::new("localhost:3000", "game").unwrap();
    let runtime = tokio::runtime::Builder::new_current_thread().build().unwrap();
    let (_ev_tx, ev_rx) = crossbeam_channel::unbounded();
    let (frame_tx, frame_rx) = tokio::sync::mpsc::unbounded_channel();
    let con = BuildConnection::new("ws://localhost:3000/db".to_string())
        .with_auth(IdentityTokenJson::new("me", "tk"));
    client.connect(con.clone(), runtime.spawn(async {}), ev_rx, frame_tx);
    assert!(client.is_running());
    assert_eq!(client.con(), &con);
    assert_eq!(client.try_recv(), None);
    assert_eq!(
        client.send_message(SpaceDbRequest::FunctionCall {
            name: "move_player".to_string(),
            args: vec![TypeValue::U32(0), TypeValue::U8(5)],
        }),
        SendStatus::Queued
    );
    assert_eq!(client.send_message(SpaceDbRequest::Pong), SendStatus::NoFrame);
    drop(frame_rx);
    assert_eq!(
        client.send_raw_message(Frame::Text("late".to_string())),
        SendStatus::Closed
    );
    assert!(client.is_running());
}

#[test]
fn the_frame_of_a_request_is_what_is_queued() {
    let mut client = Client::new("localhost:3000", "game").unwrap();
    let runtime = tokio::runtime::Builder::new_current_thread().build().unwrap();
    let (_ev_tx, ev_rx) = crossbeam_channel::unbounded();
    let (frame_tx, mut frame_rx) = tokio::sync::mpsc::unbounded_channel();
    let con = client.con().clone();
    client.connect(con.clone(), runtime.spawn(async {}), ev_rx, frame_tx);
    let first = SpaceDbRequest::FunctionCall {
        name: "create_new_player".to_string(),
        args: vec![TypeValue::U32(1), TypeValue::U8(0)],
    };
    let second = SpaceDbRequest::FunctionCall {
        name: "move_player".to_string(),
        args: vec![TypeValue::U32(1), TypeValue::U8(17)],
    };
    assert_eq!(client.send_message(first.clone()), SendStatus::Queued);
    assert_eq!(client.send_message(SpaceDbRequest::Ping), SendStatus::NoFrame);
    assert_eq!(
        client.send_raw_message(Frame::Binary(vec![1, 2])),
        SendStatus::Queued
    );
    assert_eq!(client.send_message(second.clone()), SendStatus::Queued);
    assert_eq!(frame_rx.try_recv().ok(), serialize_msg(&con, first));
    assert_eq!(frame_rx.try_recv().ok(), Some(Frame::Binary(vec![1, 2])));
    assert_eq!(
        frame_rx.try_recv().ok(),
        Some(Frame::Text(
            "{\"fn\":\"move_player\",\"args\":[1,17]}".to_string()
        ))
    );
    assert!(frame_rx.try_recv().is_err());
    assert_eq!(client.try_recv(), None);
}

#[test]
fn a_second_task_takes_the_place_of_the_first() {
    let mut client = Client::new("localhost:3000", "game").unwrap();
    let runtime = tokio::runtime::Builder::new_current_thread().build().unwrap();
    let (old_ev_tx, old_ev_rx) = crossbeam_channel::unbounded();
    let (old_frame_tx, mut old_frame_rx) = tokio::sync::mpsc::unbounded_channel();
    let con = client.con().clone();
    client.connect(con.clone(), runtime.spawn(async {}), old_ev_rx, old_frame_tx);
    old_ev_tx.send(NetworkEvent::Connected(handle())).unwrap();
    let (new_ev_tx, new_ev_rx) = crossbeam_channel::unbounded();
    let (new_frame_tx, mut new_frame_rx) = tokio::sync::mpsc::unbounded_channel();
    client.connect(con, runtime.spawn(async {}), new_ev_rx, new_frame_tx);
    assert!(client.is_running());
    assert_eq!(client.try_recv(), None);
    new_ev_tx.send(NetworkEvent::Disconnected(handle())).unwrap();
    assert_eq!(client.try_recv(), Some(NetworkEvent::Disconnected(handle())));
    assert_eq!(
        client.send_raw_message(Frame::Text("x".to_string())),
        SendStatus::Queued
    );
    assert_eq!(new_frame_rx.try_recv().ok(), Some(Frame::Text("x".to_string())));
    assert!(old_frame_rx.try_recv().is_err());
}

#[test]
fn events_come_out_in_the_order_they_went_in() {
    let mut client = Client::new("localhost:3000", "game").unwrap();
    let runtime = tokio::runtime::Builder::new_current_thread().build().unwrap();
    let (ev_tx, ev_rx) = crossbeam_channel::unbounded();
    let (frame_tx, _frame_rx) = tokio::sync::mpsc::unbounded_channel();
    let con = client.con().clone();
    client.connect(con, runtime.spawn(async {}), ev_rx, frame_tx);
    ev_tx.send(NetworkEvent::Connected(handle())).unwrap();
    ev_tx.send(NetworkEvent::Disconnected(handle())).unwrap();
    assert_eq!(client.try_recv(), Some(NetworkEvent::Connected(handle())));
    assert_eq!(client.try_recv(), Some(NetworkEvent::Disconnected(handle())));
    assert_eq!(client.try_recv(), None);
    drop(ev_tx);
    assert_eq!(client.try_recv(), None);
}

#[test]
fn requests_and_their_frames() {
    let con = BuildConnection::new("ws://localhost/db".to_string());
    assert_eq!(serialize_msg(&con, SpaceDbRequest::Ping), None);
    assert_eq!(serialize_msg(&con, SpaceDbRequest::Pong), None);
    assert_eq!(
        serialize_msg(
            &con,
            SpaceDbRequest::FunctionCall {
                name: "move_player".to_string(),
                args: vec![TypeValue::U32(0), TypeValue::U8(5)],
            }
        ),
        Some(Frame::Text("{\"fn\":\"move_player\",\"args\":[0,5]}".to_string()))
    );
}

#[test]
fn frames_and_their_events() {
    assert_eq!(
        process_msg(handle(), Ok(token_frame())),
        Some(NetworkEvent::Message(
            handle(),
            SpaceDbResponse::IdentityToken(IdentityTokenJson::new("id", "tk"))
        ))
    );
    assert_eq!(
        process_msg(handle(), Ok(Frame::Text("{".to_string()))),
        Some(NetworkEvent::Error(
            Some(handle()),
            ClientError::Decode(DecodeError::Syntax)
        ))
    );
    assert_eq!(
        process_msg(handle(), Ok(Frame::Binary(vec![0x0a]))),
        Some(NetworkEvent::Error(
            Some(handle()),
            ClientError::Decode(DecodeError::Truncated)
        ))
    );
    assert_eq!(process_msg(handle(), Ok(Frame::Binary(vec![]))), None);
    assert_eq!(process_msg(handle(), Ok(Frame::Ping(vec![1]))), None);
    assert_eq!(process_msg(handle(), Ok(Frame::Pong(vec![1]))), None);
    assert_eq!(process_msg(handle(), Ok(Frame::Raw)), None);
    assert_eq!(process_msg(handle(), Ok(Frame::Close)), None);
    assert_eq!(
        process_msg(handle(), Err("reset".to_string())),
        Some(NetworkEvent::Error(
            None,
            ClientError::Transport("reset".to_string())
        ))
    );
}

#[test]
fn a_connection_from_start_to_close() {
    let t = step(ConnectionState::Disconnected, TaskEvent::Start);
    assert_eq!(
        t,
        Transition {
            state: ConnectionState::Connecting,
            emit: None,
            action: TaskAction::Handshake
        }
    );
    let t = step(t.state, TaskEvent::HandshakeAccepted(handle()));
    assert_eq!(
        t,
        Transition {
            state: ConnectionState::Connected(handle()),
            emit: Some(NetworkEvent::Connected(handle())),
            action: TaskAction::Wait
        }
    );
    let t = step(t.state, TaskEvent::Inbound(Ok(token_frame())));
    assert_eq!(t.state, ConnectionState::Connected(handle()));
    assert_eq!(
        t.emit,
        Some(NetworkEvent::Message(
            handle(),
            SpaceDbResponse::IdentityToken(IdentityTokenJson::new("id", "tk"))
        ))
    );
    assert_eq!(t.action, TaskAction::Wait);
    let t = step(t.state, TaskEvent::Outbound(Frame::Text("out".to_string())));
    assert_eq!(
        t,
        Transition {
            state: ConnectionState::Connected(handle()),
            emit: None,
            action: TaskAction::Write(Frame::Text("out".to_string()))
        }
    );
    let t = step(t.state, TaskEvent::WriteFailed("broken pipe".to_string()));
    assert_eq!(
        t,
        Transition {
            state: ConnectionState::Connected(handle()),
            emit: Some(NetworkEvent::Error(
                Some(handle()),
                ClientError::Transport("broken pipe".to_string())
            )),
            action: TaskAction::Wait
        }
    );
    let t = step(t.state, TaskEvent::Inbound(Ok(Frame::Text("garbage".to_string()))));
    assert_eq!(t.state, ConnectionState::Connected(handle()));
    assert_eq!(
        t.emit,
        Some(NetworkEvent::Error(
            Some(handle()),
            ClientError::Decode(DecodeError::Syntax)
        ))
    );
    let t = step(t.state, TaskEvent::Inbound(Ok(Frame::Ping(vec![]))));
    assert_eq!(
        t,
        Transition {
            state: ConnectionState::Connected(handle()),
            emit: None,
            action: TaskAction::Wait
        }
    );
    let t = step(t.state, TaskEvent::Inbound(Ok(Frame::Close)));
    assert_eq!(
        t,
        Transition {
            state: ConnectionState::Closed,
            emit: Some(NetworkEvent::Disconnected(handle())),
            action: TaskAction::Stop
        }
    );
    let t = step(t.state, TaskEvent::Inbound(Ok(token_frame())));
    assert_eq!(
        t,
        Transition {
            state: ConnectionState::Closed,
            emit: None,
            action: TaskAction::Stop
        }
    );
}

#[test]
fn a_subscription_update_frame_becomes_one_message() {
    let text = "{\"t\":\"SubscriptionUpdate\",\"d\":{\"table_updates\":[{\"table_id\":1,\"table_name\":\"PlayerComponent\",\"table_row_operations\":[{\"op\":\"insert\",\"row_pk\":\"abc\",\"row\":[0,5]}]}]}}";
    let t = step(
        ConnectionState::Connected(handle()),
        TaskEvent::Inbound(Ok(Frame::Text(text.to_string()))),
    );
    assert_eq!(t.state, ConnectionState::Connected(handle()));
    assert_eq!(t.action, TaskAction::Wait);
    let expected = SpaceDbResponse::SubscriptionUpdate(SubscriptionUpdateJson {
        table_updates: vec![TableUpdateJson {
            table_id: 1,
            table_name: "PlayerComponent".to_string(),
            table_row_operations: vec![TableRowOperationJson {
                op: TableOp::Insert,
                row_pk: "abc".to_string(),
                row: vec![TypeValue::I8(0), TypeValue::I8(5)],
            }],
        }],
    });
    assert_eq!(t.emit, Some(NetworkEvent::Message(handle(), expected)));
}

#[test]
fn the_end_of_the_stream_closes() {
    let t = step(ConnectionState::Connected(handle()), TaskEvent::StreamEnded);
    assert_eq!(
        t,
        Transition {
            state: ConnectionState::Closed,
            emit: Some(NetworkEvent::Disconnected(handle())),
            action: TaskAction::Stop
        }
    );
}

#[test]
fn a_failed_handshake_never_connects() {
    let t = step(
        ConnectionState::Connecting,
        TaskEvent::HandshakeFailed("refused".to_string()),
    );
    assert_eq!(
        t,
        Transition {
            state: ConnectionState::Errored,
            emit: Some(NetworkEvent::Error(
                None,
                ClientError::Transport("refused".to_string())
            )),
            action: TaskAction::Stop
        }
    );
    for event in [
        TaskEvent::Start,
        TaskEvent::HandshakeAccepted(handle()),
        TaskEvent::Inbound(Ok(token_frame())),
        TaskEvent::StreamEnded,
        TaskEvent::Outbound(Frame::Close),
        TaskEvent::WriteFailed("x".to_string()),
    ] {
        assert_eq!(
            step(ConnectionState::Errored, event),
            Transition {
                state: ConnectionState::Errored,
                emit: None,
                action: TaskAction::Stop
            }
        );
    }
}

#[test]
fn events_out_of_place_are_ignored() {
    for (state, event) in [
        (ConnectionState::Disconnected, TaskEvent::HandshakeAccepted(handle())),
        (ConnectionState::Disconnected, TaskEvent::Outbound(Frame::Close)),
        (ConnectionState::Disconnected, TaskEvent::StreamEnded),
        (ConnectionState::Connecting, TaskEvent::Start),
        (ConnectionState::Connecting, TaskEvent::Inbound(Ok(token_frame()))),
        (ConnectionState::Connected(handle()), TaskEvent::Start),
        (
            ConnectionState::Connected(handle()),
            TaskEvent::HandshakeFailed("late".to_string()),
        ),
    ] {
        assert_eq!(
            step(state, event),
            Transition {
                state,
                emit: None,
                action: TaskAction::Wait
            }
        );
    }
}

#[test]
fn a_buffer_of_events_starts_empty() {
    let mut buffer = spacetime_client_sdk::web_socket::WsMsg::new();
    assert!(buffer.ev.is_empty());
    buffer.ev.push(NetworkEvent::Connected(handle()));
    assert_eq!(buffer.ev.len(), 1);
}

#[test]
fn the_answer_of_the_queue_is_the_status() {
    assert_eq!(Client::status(true), SendStatus::Queued);
    assert_eq!(Client::status(false), SendStatus::Closed);
}

#[test]
fn handles() {
    let a = ConnectionHandle::new();
    let b = ConnectionHandle::new();
    assert_ne!(a, b);
    assert_ne!(a, ConnectionHandle::default());
    assert_eq!(ConnectionHandle::default().id(), 0);
    assert_eq!(a.id(), a.uuid);
    assert_eq!((a.uuid >> 76) & 0xf, 4);
    assert_eq!((a.uuid >> 62) & 0x3, 2);
}

#[test]
fn errors_describe_themselves() {
    assert_eq!(ClientError::Configuration.describe(), "configuration error");
    assert_eq!(
        ClientError::Transport("reset".to_string()).describe(),
        "transport error: reset"
    );
    assert_eq!(
        ClientError::Decode(DecodeError::Syntax).describe(),
        "decode error"
    );
    assert_eq!(ClientError::Auth.describe(), "authentication error");
}
