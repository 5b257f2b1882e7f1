use engine_web::value::{duplicate, to_host, MAX_SAFE_INTEGER};
use engine_web::{Context, ContextWrapper, HostValue, Neighbor, Payload};

fn neighbor(id: &str) -> Neighbor {
    Neighbor { agent_id: id.to_string() }
}

fn text(s: &str) -> Payload {
    Payload::Text(s.to_string())
}

fn host_str(s: &str) -> HostValue {
    HostValue::Str(s.to_string())
}

fn greeting() -> Payload {
    Payload::Record(vec![
        ("to".to_string(), text("A")),
        ("content".to_string(), text("hi")),
    ])
}

#[test]
fn scenario_one_message_two_neighbors() {
    let context = Context {
        messages: vec![greeting()],
        neighbors: vec![neighbor("A"), neighbor("B")],
    };
    let w = ContextWrapper::new(&context).unwrap();
    assert_eq!(
        w.neighbors().unwrap(),
        HostValue::Array(vec![host_str("A"), host_str("B")])
    );
    assert_eq!(
        w.messages().unwrap(),
        HostValue::Array(vec![HostValue::Object(vec![
            ("to".to_string(), host_str("A")),
            ("content".to_string(), host_str("hi")),
        ])])
    );
}

#[test]
fn neighbors_keep_count_and_order() {
    let ids = ["c", "a", "b", "a", ""];
    let context = Context {
        messages: vec![],
        neighbors: ids.iter().map(|s| neighbor(s)).collect(),
    };
    let w = ContextWrapper::new(&context).unwrap();
    let expected: Vec<HostValue> = ids.iter().map(|s| host_str(s)).collect();
    assert_eq!(w.neighbors().unwrap(), HostValue::Array(expected));
}

#[test]
fn repeated_reads_agree() {
    let context = Context {
        messages: vec![greeting(), Payload::List(vec![Payload::Int(3), Payload::Null])],
        neighbors: vec![neighbor("x"), neighbor("y")],
    };
    let w = ContextWrapper::new(&context).unwrap();
    let m1 = w.messages().unwrap();
    let m2 = w.messages().unwrap();
    let n1 = w.neighbors().unwrap();
    let n2 = w.neighbors().unwrap();
    assert_eq!(m1, m2);
    assert_eq!(n1, n2);
}

#[test]
fn later_changes_to_the_context_are_not_seen() {
    let mut context = Context {
        messages: vec![greeting()],
        neighbors: vec![neighbor("A"), neighbor("B")],
    };
    let w = ContextWrapper::new(&context).unwrap();
    let messages_before = w.messages().unwrap();
    let neighbors_before = w.neighbors().unwrap();
    context.neighbors[0].agent_id.push_str("-changed");
    context.neighbors.push(neighbor("C"));
    context.messages.clear();
    drop(context);
    assert_eq!(w.messages().unwrap(), messages_before);
    assert_eq!(w.neighbors().unwrap(), neighbors_before);
    assert_eq!(
        w.neighbors().unwrap(),
        HostValue::Array(vec![host_str("A"), host_str("B")])
    );
}

#[test]
fn empty_context_gives_empty_arrays() {
    let context = Context { messages: vec![], neighbors: vec![] };
    let w = ContextWrapper::new(&context).unwrap();
    assert_eq!(w.neighbors().unwrap(), HostValue::Array(vec![]));
    assert_eq!(w.messages().unwrap(), HostValue::Array(vec![]));
}

#[test]
fn unrepresentable_integer_fails_construction() {
    let context = Context {
        messages: vec![Payload::Record(vec![(
            "data".to_string(),
            Payload::List(vec![Payload::Int(1), Payload::Int(MAX_SAFE_INTEGER + 1)]),
        )])],
        neighbors: vec![neighbor("A")],
    };
    let err = ContextWrapper::new(&context).unwrap_err();
    assert!(!err.message.is_empty());
    assert_eq!(err.to_string(), err.message);
}

#[test]
fn most_negative_integer_fails_construction() {
    let context = Context { messages: vec![Payload::Int(i64::MIN)], neighbors: vec![] };
    assert!(ContextWrapper::new(&context).is_err());
}

#[test]
fn integers_at_the_exact_range_edges_convert() {
    let p = Payload::List(vec![Payload::Int(MAX_SAFE_INTEGER), Payload::Int(-MAX_SAFE_INTEGER)]);
    assert_eq!(
        to_host(&p).unwrap(),
        HostValue::Array(vec![
            HostValue::Number(9007199254740991),
            HostValue::Number(-9007199254740991),
        ])
    );
    assert!(to_host(&Payload::Int(-MAX_SAFE_INTEGER - 1)).is_err());
    assert!(to_host(&Payload::Int(9007199254740992)).is_err());
}

#[test]
fn scalars_convert_one_for_one() {
    assert_eq!(to_host(&Payload::Null).unwrap(), HostValue::Null);
    assert_eq!(to_host(&Payload::Bool(true)).unwrap(), HostValue::Bool(true));
    assert_eq!(to_host(&Payload::Bool(false)).unwrap(), HostValue::Bool(false));
    assert_eq!(to_host(&Payload::Int(-42)).unwrap(), HostValue::Number(-42));
    assert_eq!(to_host(&text("héllo")).unwrap(), host_str("héllo"));
}

#[test]
fn nested_records_keep_keys_in_order() {
    let p = Payload::Record(vec![
        ("z".to_string(), Payload::Record(vec![("a".to_string(), Payload::Bool(true))])),
        ("a".to_string(), Payload::List(vec![Payload::Null, text("t")])),
    ]);
    assert_eq!(
        to_host(&p).unwrap(),
        HostValue::Object(vec![
            ("z".to_string(), HostValue::Object(vec![("a".to_string(), HostValue::Bool(true))])),
            ("a".to_string(), HostValue::Array(vec![HostValue::Null, host_str("t")])),
        ])
    );
}

#[test]
fn duplicate_copies_deeply() {
    let h = HostValue::Object(vec![
        ("k".to_string(), HostValue::Array(vec![HostValue::Number(1), host_str("v")])),
        ("n".to_string(), HostValue::Null),
    ]);
    assert_eq!(duplicate(&h), h);
}
