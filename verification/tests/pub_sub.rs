use spacetime_client_sdk::pub_sub::{
    copy_msg, subscribers_among, Channel, Msg, PubSubDb, Received, MAX_PUB_SUB_CONNECTIONS,
};
use std::sync::{Arc, Mutex};
use tokio::sync::broadcast::error::TryRecvError;

#[test]
fn test_pub_sub() {
    let mut server = PubSubDb::new();

    let ch1 = Channel::new(0, "");
    let ch2 = Channel::new(1, "");

    let mut ret = server.subscribe(ch1.clone());

    server.publish(ch1.clone(), Msg::Ping);
    server.publish(ch1.clone(), Msg::Ping);
    server.publish(ch2.clone(), Msg::Ping);

    assert_eq!(ret.try_recv(), Ok(Msg::Ping));
    assert_eq!(ret.try_recv(), Ok(Msg::Ping));
    assert_eq!(ret.try_recv(), Err(TryRecvError::Empty));

    //Joining later not see past messages!
    let mut ret = server.subscribe(ch2);
    assert_eq!(ret.try_recv(), Err(TryRecvError::Empty));
}

#[test]
fn publish_without_subscribers_returns_zero() {
    let mut db = PubSubDb::new();
    let quiet = Channel::new(7, "nobody");
    assert_eq!(db.publish(quiet.clone(), Msg::Op("lost".to_string())), 0);
    assert_eq!(db.len(), 0);
    assert!(!db.contains(&quiet));

    let mut other = db.subscribe(Channel::new(8, "somebody"));
    assert_eq!(db.publish(quiet.clone(), Msg::Op("lost".to_string())), 0);
    assert_eq!(other.try_recv(), Err(TryRecvError::Empty));

    let mut late = db.subscribe(quiet);
    assert_eq!(late.try_recv(), Err(TryRecvError::Empty));
}

#[test]
fn late_subscriber_sees_nothing_earlier() {
    let mut db = PubSubDb::new();
    let ch = Channel::new(1, "players");
    let mut early = db.subscribe(ch.clone());
    for i in 0..5 {
        assert!(db.publish(ch.clone(), Msg::Op(format!("p{}", i))) > 0);
    }
    let mut late = db.subscribe(ch.clone());
    assert_eq!(late.try_recv(), Err(TryRecvError::Empty));
    db.publish(ch.clone(), Msg::Op("after".to_string()));
    assert_eq!(late.try_recv(), Ok(Msg::Op("after".to_string())));
    assert_eq!(late.try_recv(), Err(TryRecvError::Empty));
    for i in 0..5 {
        assert_eq!(early.try_recv(), Ok(Msg::Op(format!("p{}", i))));
    }
    assert_eq!(early.try_recv(), Ok(Msg::Op("after".to_string())));
}

#[test]
fn slow_subscriber_loses_the_oldest() {
    assert_eq!(MAX_PUB_SUB_CONNECTIONS, 1024);
    let mut db = PubSubDb::new();
    let ch = Channel::new(2, "slow");
    let mut rx = db.subscribe(ch.clone());
    for i in 0..(MAX_PUB_SUB_CONNECTIONS + 1) {
        db.publish(ch.clone(), Msg::Op(i.to_string()));
    }
    assert_eq!(rx.try_recv(), Err(TryRecvError::Lagged(1)));
    for i in 1..(MAX_PUB_SUB_CONNECTIONS + 1) {
        assert_eq!(rx.try_recv(), Ok(Msg::Op(i.to_string())));
    }
    assert_eq!(rx.try_recv(), Err(TryRecvError::Empty));
}

#[test]
fn two_subscribers_receive_each_value_once() {
    let db = Arc::new(Mutex::new(PubSubDb::new()));
    let ch = Channel::new(3, "fanout");
    let mut first = db.lock().unwrap().subscribe(ch.clone());
    let mut second = db.lock().unwrap().subscribe(ch.clone());

    let runtime = tokio::runtime::Builder::new_multi_thread()
        .worker_threads(2)
        .build()
        .unwrap();
    let mut producers = Vec::new();
    for producer in 0..2 {
        let db = db.clone();
        let ch = ch.clone();
        producers.push(runtime.spawn(async move {
            for i in 0..100 {
                let n = db
                    .lock()
                    .unwrap()
                    .publish(ch.clone(), Msg::Op(format!("{}-{}", producer, i)));
                assert_eq!(n, 2);
            }
        }));
    }
    for p in producers {
        runtime.block_on(p).unwrap();
    }

    let mut seen_first = Vec::new();
    while let Ok(Msg::Op(v)) = first.try_recv() {
        seen_first.push(v);
    }
    let mut seen_second = Vec::new();
    while let Ok(Msg::Op(v)) = second.try_recv() {
        seen_second.push(v);
    }
    assert_eq!(seen_first.len(), 200);
    assert_eq!(seen_first, seen_second);
    let mut sorted = seen_first.clone();
    sorted.sort();
    sorted.dedup();
    assert_eq!(sorted.len(), 200);
    for producer in 0..2 {
        let own: Vec<&String> = seen_first
            .iter()
            .filter(|v| v.starts_with(&format!("{}-", producer)))
            .collect();
        let expected: Vec<String> = (0..100).map(|i| format!("{}-{}", producer, i)).collect();
        assert_eq!(own, expected.iter().collect::<Vec<&String>>());
    }
}

#[test]
fn publish_counts_the_subscribers() {
    let mut db = PubSubDb::new();
    let ch = Channel::new(4, "count");
    let _a = db.subscribe(ch.clone());
    assert_eq!(db.publish(ch.clone(), Msg::Ping), 1);
    let _b = db.subscribe(ch.clone());
    assert_eq!(db.publish(ch.clone(), Msg::Pong), 2);
    let _c = db.listen(ch.clone());
    assert_eq!(db.publish(ch.clone(), Msg::Pong), 3);
    drop(_a);
    assert_eq!(db.publish(ch.clone(), Msg::Pong), 2);
    assert_eq!(db.len(), 1);
}

#[test]
fn publish_after_the_subscribers_are_gone_returns_zero() {
    let mut db = PubSubDb::new();
    let ch = Channel::new(4, "gone");
    let first = db.subscribe(ch.clone());
    let second = db.listen(ch.clone());
    drop(first);
    assert_eq!(db.publish(ch.clone(), Msg::Ping), 1);
    drop(second);
    assert_eq!(db.publish(ch.clone(), Msg::Op("lost".to_string())), 0);
    assert_eq!(db.publish_all(Msg::Ping), 0);
    assert!(db.contains(&ch));
    let mut late = db.subscribe(ch.clone());
    assert_eq!(late.try_recv(), Err(TryRecvError::Empty));
    assert_eq!(db.publish(ch, Msg::Pong), 1);
    assert_eq!(late.try_recv(), Ok(Msg::Pong));
}

#[test]
fn streams_are_created_once_per_channel() {
    let mut db = PubSubDb::new();
    assert_eq!(db.len(), 0);
    let _x = db.subscribe(Channel::new(1, "a"));
    let _y = db.subscribe(Channel::new(1, "b"));
    let _z = db.subscribe(Channel::new(1, "a"));
    let _w = db.subscribe(Channel::new(2, "a"));
    assert_eq!(db.len(), 3);
    assert!(db.contains(&Channel::new(1, "b")));
    assert!(!db.contains(&Channel::new(2, "b")));
}

#[test]
fn publish_all_reaches_every_stream() {
    let mut db = PubSubDb::new();
    assert_eq!(db.publish_all(Msg::Ping), 0);
    let mut a = db.subscribe(Channel::new(1, "a"));
    let mut b = db.subscribe(Channel::new(2, "b"));
    assert_eq!(db.publish_all(Msg::Op("all".to_string())), 2);
    let _second_of_b = db.listen(Channel::new(2, "b"));
    let _silent = db.subscribe(Channel::new(3, "c"));
    drop(_silent);
    assert_eq!(db.publish_all(Msg::Op("all".to_string())), 3);
    assert_eq!(a.try_recv(), Ok(Msg::Op("all".to_string())));
    assert_eq!(a.try_recv(), Ok(Msg::Op("all".to_string())));
    assert_eq!(b.try_recv(), Ok(Msg::Op("all".to_string())));
    assert_eq!(a.try_recv(), Err(TryRecvError::Empty));
}

#[test]
fn listen_starts_at_the_end() {
    let mut db = PubSubDb::new();
    let ch = Channel::new(5, "listen");
    let _keep = db.subscribe(ch.clone());
    db.publish(ch.clone(), Msg::Ping);
    assert!(db.contains(&ch));
    let mut rx = db.listen(ch.clone());
    assert_eq!(rx.try_recv(), Err(TryRecvError::Empty));
    db.publish(ch.clone(), Msg::Pong);
    assert_eq!(rx.try_recv(), Ok(Msg::Pong));
}

#[test]
fn channel_and_msg_accessors() {
    let ch = Channel::new(9, "addr");
    assert_eq!(ch.identity, 9);
    assert_eq!(ch.address, "addr");
    assert!(ch.same(&Channel::new(9, "addr")));
    assert!(!ch.same(&Channel::new(9, "other")));
    assert!(!ch.same(&Channel::new(8, "addr")));
    assert_eq!(Msg::Op(5).op(), Some(&5));
    assert_eq!(Msg::<u8>::Ping.op(), None);
    assert_eq!(Msg::<u8>::Pong.op(), None);
    assert_eq!(copy_msg(&Msg::Op("x".to_string())), Msg::Op("x".to_string()));
    assert_eq!(copy_msg(&Msg::Ping), Msg::Ping);
}

#[test]
fn receiving_through_the_registry() {
    let mut db = PubSubDb::new();
    let ch = Channel::new(6, "through");
    let mut first = db.subscribe(ch.clone());
    let mut second = db.subscribe(ch.clone());
    assert_eq!(db.try_recv(&ch, &mut first), Received::Empty);
    db.publish(ch.clone(), Msg::Op("one".to_string()));
    db.publish(ch.clone(), Msg::Ping);
    for rx in [&mut first, &mut second] {
        assert_eq!(db.try_recv(&ch, rx), Received::Value(Msg::Op("one".to_string())));
        assert_eq!(db.try_recv(&ch, rx), Received::Value(Msg::Ping));
        assert_eq!(db.try_recv(&ch, rx), Received::Empty);
        assert_eq!(db.try_recv(&ch, rx), Received::Empty);
    }
}

#[test]
fn a_receiver_that_fell_behind_is_told_how_far() {
    let mut db = PubSubDb::new();
    let ch = Channel::new(7, "behind");
    let mut rx = db.subscribe(ch.clone());
    for i in 0..MAX_PUB_SUB_CONNECTIONS {
        db.publish(ch.clone(), Msg::Op(i.to_string()));
    }
    let mut untouched = db.listen(ch.clone());
    assert_eq!(db.try_recv(&ch, &mut rx), Received::Value(Msg::Op("0".to_string())));
    for i in 0..10 {
        db.publish(ch.clone(), Msg::Op(format!("late{}", i)));
    }
    assert_eq!(db.try_recv(&ch, &mut rx), Received::Lagged(9));
    assert_eq!(db.try_recv(&ch, &mut rx), Received::Value(Msg::Op("10".to_string())));
    for i in 0..10 {
        assert_eq!(
            db.try_recv(&ch, &mut untouched),
            Received::Value(Msg::Op(format!("late{}", i)))
        );
    }
    assert_eq!(db.try_recv(&ch, &mut untouched), Received::Empty);
}

#[test]
fn a_full_stream_and_one_more() {
    let mut db = PubSubDb::new();
    let ch = Channel::new(8, "full");
    let mut rx = db.subscribe(ch.clone());
    for i in 0..(MAX_PUB_SUB_CONNECTIONS + 1) {
        db.publish(ch.clone(), Msg::Op(i.to_string()));
    }
    assert_eq!(db.try_recv(&ch, &mut rx), Received::Lagged(1));
    for i in 1..(MAX_PUB_SUB_CONNECTIONS + 1) {
        assert_eq!(db.try_recv(&ch, &mut rx), Received::Value(Msg::Op(i.to_string())));
    }
    assert_eq!(db.try_recv(&ch, &mut rx), Received::Empty);
}

#[test]
fn a_full_stream_loses_nothing() {
    let mut db = PubSubDb::new();
    let ch = Channel::new(9, "exactly");
    let mut rx = db.subscribe(ch.clone());
    for i in 0..MAX_PUB_SUB_CONNECTIONS {
        db.publish(ch.clone(), Msg::Op(i.to_string()));
    }
    for i in 0..MAX_PUB_SUB_CONNECTIONS {
        assert_eq!(db.try_recv(&ch, &mut rx), Received::Value(Msg::Op(i.to_string())));
    }
    assert_eq!(db.try_recv(&ch, &mut rx), Received::Empty);
}

#[test]
fn the_kept_receiver_is_no_subscriber() {
    assert_eq!(subscribers_among(1), 0);
    assert_eq!(subscribers_among(3), 2);
}
