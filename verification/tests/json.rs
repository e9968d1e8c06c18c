use spacetime_client_sdk::json::{
    from_value, parse_json, print_json, str_eq, to_value, try_print_json, Json,
};

fn member(key: &str, value: Json) -> (String, Json) {
    (key.to_string(), value)
}

fn sample() -> Json {
    Json::Object(vec![
        member("b", Json::Array(vec![Json::Int(-1), Json::Bool(true), Json::Null])),
        member("a", Json::Str("x\ny".to_string())),
        member("c", Json::Object(vec![])),
        member("big", Json::Int(18446744073709551615)),
        member("small", Json::Int(-9223372036854775808)),
    ])
}

#[test]
fn text_becomes_a_tree() {
    assert_eq!(
        parse_json(" {\"b\": [-1, true, null], \"a\": \"x\\ny\", \"c\": {}, \"big\": 18446744073709551615, \"small\": -9223372036854775808} "),
        Some(sample())
    );
    assert_eq!(parse_json("7"), Some(Json::Int(7)));
    assert_eq!(
        parse_json("[1, 2.5, 1e3, 18446744073709551616]"),
        Some(Json::Array(vec![Json::Int(1), Json::Real, Json::Real, Json::Real]))
    );
    assert_eq!(parse_json(""), None);
    assert_eq!(parse_json("{\"a\":}"), None);
    assert_eq!(parse_json("1 2"), None);
}

#[test]
fn members_keep_the_order_of_the_text() {
    assert_eq!(
        parse_json("{\"z\":1,\"a\":2,\"m\":3}"),
        Some(Json::Object(vec![
            member("z", Json::Int(1)),
            member("a", Json::Int(2)),
            member("m", Json::Int(3)),
        ]))
    );
}

#[test]
fn a_tree_becomes_text() {
    assert_eq!(
        print_json(&sample()),
        "{\"b\":[-1,true,null],\"a\":\"x\\ny\",\"c\":{},\"big\":18446744073709551615,\"small\":-9223372036854775808}"
    );
    assert_eq!(print_json(&Json::Null), "null");
    assert_eq!(print_json(&Json::Str("é\"".to_string())), "\"é\\\"\"");
}

#[test]
fn text_and_tree_round_trip() {
    let text = print_json(&sample());
    assert_eq!(parse_json(&text), Some(sample()));
}

#[test]
fn values_and_trees() {
    let value = to_value(&sample());
    assert_eq!(value["a"], serde_json::Value::String("x\ny".to_string()));
    assert_eq!(value["b"][0], serde_json::Value::from(-1));
    assert_eq!(value["big"].as_u64(), Some(u64::MAX));
    assert_eq!(from_value(&value), sample());
    assert_eq!(from_value(&serde_json::Value::from(1.5)), Json::Real);
}

#[test]
fn strings_compare_by_their_characters() {
    assert!(str_eq("abc", "abc"));
    assert!(!str_eq("abc", "abd"));
    assert!(!str_eq("abc", "ab"));
    assert!(str_eq("", ""));
}

#[test]
fn what_can_be_written() {
    assert!(sample().is_printable());
    assert!(Json::Null.is_printable());
    assert!(Json::Int(-9223372036854775808).is_printable());
    assert!(Json::Int(18446744073709551615).is_printable());
    assert!(!Json::Int(18446744073709551616).is_printable());
    assert!(!Json::Int(-9223372036854775809).is_printable());
    assert!(!Json::Real.is_printable());
    assert!(!Json::Array(vec![Json::Int(1), Json::Real]).is_printable());
    assert!(Json::Object(vec![member("a", Json::Null), member("b", Json::Null)]).is_printable());
    assert!(!Json::Object(vec![
        member("a", Json::Null),
        member("b", Json::Null),
        member("a", Json::Bool(true)),
    ])
    .is_printable());
    assert!(!Json::Object(vec![member("a", Json::Array(vec![Json::Real]))]).is_printable());
    assert!(!Json::Array(vec![Json::Object(vec![
        member("x", Json::Int(1)),
        member("x", Json::Int(1)),
    ])])
    .is_printable());
}

#[test]
fn writing_where_it_can_be_done() {
    assert_eq!(try_print_json(&sample()), Some(print_json(&sample())));
    assert_eq!(try_print_json(&Json::Int(7)), Some("7".to_string()));
    assert_eq!(try_print_json(&Json::Real), None);
    assert_eq!(try_print_json(&Json::Int(1 << 70)), None);
    assert_eq!(
        try_print_json(&Json::Object(vec![
            member("a", Json::Null),
            member("a", Json::Null),
        ])),
        None
    );
}
