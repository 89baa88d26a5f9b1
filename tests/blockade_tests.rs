use blockade::{
    decimal, decode_container_state, decode_list, decode_state, encode_command_args, encode_config,
    Action, BlockadeCommand, BlockadeCommandArgs, BlockadeConfig, BlockadeContainer,
    BlockadeContainerStatus, BlockadeError, BlockadeHandler, BlockadeNetConfig, BlockadeNetStatus,
    Call, Done, Ipv4Address, Json, Method, Outcome, Stringify, Table, CONFLICT_MESSAGE,
    NOT_FOUND_MESSAGE, NO_CONTAINERS_MESSAGE,
};

fn s(v: &str) -> Json {
    Json::Str(v.to_string())
}

fn obj(fields: Vec<(&str, Json)>) -> Json {
    Json::Object(fields.into_iter().map(|(k, v)| (k.to_string(), v)).collect())
}

fn container_doc(name: &str, partition: Json) -> Json {
    obj(vec![
        ("container_id", s(&format!("id-{}", name))),
        ("ip_address", s("10.0.0.2")),
        ("name", s(name)),
        ("network_state", s("NORMAL")),
        ("partition", partition),
        ("status", s("UP")),
    ])
}

fn state_doc(names: &[&str], partition: i128) -> Json {
    obj(vec![(
        "containers",
        Json::Object(
            names
                .iter()
                .map(|n| (n.to_string(), container_doc(n, Json::Int(partition))))
                .collect(),
        ),
    )])
}

fn ok_reply(doc: Option<Json>) -> Outcome {
    Outcome::Replied { status: 200, text: String::new(), doc }
}

fn sent(a: &Action) -> &Call {
    match a {
        Action::Send(c) => c,
        Action::Finish(r) => panic!("expected a call, got {:?}", r),
    }
}

fn members(j: &Json) -> &Vec<(String, Json)> {
    match j {
        Json::Object(f) => f,
        other => panic!("not an object: {:?}", other),
    }
}

fn texts(j: &Json) -> Vec<String> {
    match j {
        Json::Array(v) => v
            .iter()
            .map(|x| match x {
                Json::Str(t) => t.clone(),
                other => panic!("not a string: {:?}", other),
            })
            .collect(),
        other => panic!("not an array: {:?}", other),
    }
}

fn two_container_config() -> BlockadeConfig {
    let mut containers = Table::new();
    containers.insert("a".to_string(), BlockadeContainer::default());
    containers.insert("b".to_string(), BlockadeContainer::default());
    BlockadeConfig { containers, network: BlockadeNetConfig::default() }
}

#[test]
fn enum_tokens_encode_lower_case() {
    assert_eq!(BlockadeCommand::Kill.to_str(), "kill");
    assert_eq!(BlockadeCommand::Restart.to_str(), "restart");
    assert_eq!(BlockadeNetStatus::Duplicate.to_str(), "duplicate");
    assert_eq!(BlockadeNetStatus::Fast.to_str(), "fast");
    assert_eq!(BlockadeContainerStatus::Missing.to_str(), "missing");
}

#[test]
fn enum_tokens_decode_without_case() {
    assert_eq!(BlockadeCommand::from_str("start"), Some(BlockadeCommand::Start));
    assert_eq!(BlockadeCommand::from_str("STOP"), Some(BlockadeCommand::Stop));
    assert_eq!(BlockadeNetStatus::from_str("NORMAL"), Some(BlockadeNetStatus::Fast));
    assert_eq!(BlockadeNetStatus::from_str("FAST"), Some(BlockadeNetStatus::Fast));
    assert_eq!(BlockadeNetStatus::from_str("slow"), Some(BlockadeNetStatus::Slow));
    assert_eq!(BlockadeNetStatus::from_str("FLAKY"), Some(BlockadeNetStatus::Flaky));
    assert_eq!(BlockadeNetStatus::from_str("UNKNOWN"), Some(BlockadeNetStatus::Unknown));
    assert_eq!(BlockadeNetStatus::from_str("DUPLICATE"), Some(BlockadeNetStatus::Duplicate));
    assert_eq!(BlockadeContainerStatus::from_str("UP"), Some(BlockadeContainerStatus::Up));
    assert_eq!(BlockadeContainerStatus::from_str("down"), Some(BlockadeContainerStatus::Down));
}

#[test]
fn enum_tokens_reject_others() {
    assert_eq!(BlockadeCommand::from_str("pause"), None);
    assert_eq!(BlockadeCommand::from_str(""), None);
    assert_eq!(BlockadeNetStatus::from_str("fastest"), None);
    assert_eq!(BlockadeContainerStatus::from_str("running"), None);
}

#[test]
fn enum_round_trip_through_tokens() {
    for c in [BlockadeCommand::Start, BlockadeCommand::Stop, BlockadeCommand::Restart, BlockadeCommand::Kill] {
        assert_eq!(BlockadeCommand::from_str(c.to_str()), Some(c));
    }
    for n in [
        BlockadeNetStatus::Fast,
        BlockadeNetStatus::Slow,
        BlockadeNetStatus::Duplicate,
        BlockadeNetStatus::Flaky,
        BlockadeNetStatus::Unknown,
    ] {
        assert_eq!(BlockadeNetStatus::from_str(n.to_str()), Some(n));
    }
}

#[test]
fn device_absent_null_or_empty_is_empty() {
    let base = |device: Option<Json>| {
        let mut f = vec![
            ("container_id", s("x")),
            ("name", s("a")),
            ("network_state", s("fast")),
            ("status", s("up")),
        ];
        if let Some(d) = device {
            f.push(("device", d));
        }
        obj(f)
    };
    for doc in [base(None), base(Some(Json::Null)), base(Some(s("")))] {
        let c = decode_container_state(&doc).unwrap();
        assert_eq!(c.device, "");
        assert_eq!(c.ip_address, Ipv4Address { a: 0, b: 0, c: 0, d: 0 });
        assert_eq!(c.partition, 0);
    }
    let c = decode_container_state(&base(Some(s("eth0")))).unwrap();
    assert_eq!(c.device, "eth0");
}

#[test]
fn null_address_and_partition_default() {
    let doc = obj(vec![
        ("container_id", s("x")),
        ("ip_address", Json::Null),
        ("name", s("a")),
        ("network_state", s("SLOW")),
        ("partition", Json::Null),
        ("status", s("DOWN")),
    ]);
    let c = decode_container_state(&doc).unwrap();
    assert_eq!(c.ip_address, Ipv4Address { a: 0, b: 0, c: 0, d: 0 });
    assert_eq!(c.partition, 0);
    assert_eq!(c.network_state, BlockadeNetStatus::Slow);
    assert_eq!(c.status, BlockadeContainerStatus::Down);
}

#[test]
fn container_fields_decode() {
    let c = decode_container_state(&container_doc("a", Json::Int(3))).unwrap();
    assert_eq!(c.container_id, "id-a");
    assert_eq!(c.name, "a");
    assert_eq!(c.ip_address, Ipv4Address { a: 10, b: 0, c: 0, d: 2 });
    assert_eq!(c.network_state, BlockadeNetStatus::Fast);
    assert_eq!(c.partition, 3);
    assert_eq!(c.status, BlockadeContainerStatus::Up);
}

#[test]
fn bad_container_documents_fail_to_decode() {
    let bad_status = obj(vec![
        ("container_id", s("x")),
        ("name", s("a")),
        ("network_state", s("fast")),
        ("status", s("sleeping")),
    ]);
    assert!(matches!(decode_container_state(&bad_status), Err(BlockadeError::JsonError(_))));
    let no_name = obj(vec![("container_id", s("x")), ("network_state", s("fast")), ("status", s("up"))]);
    assert!(matches!(decode_container_state(&no_name), Err(BlockadeError::JsonError(_))));
    assert!(matches!(decode_container_state(&container_doc("a", Json::Int(-1))), Err(BlockadeError::JsonError(_))));
    assert!(matches!(decode_container_state(&s("a")), Err(BlockadeError::JsonError(_))));
}

#[test]
fn address_parse_and_text() {
    assert_eq!(Ipv4Address::parse("192.168.1.20"), Some(Ipv4Address { a: 192, b: 168, c: 1, d: 20 }));
    assert_eq!(Ipv4Address::parse("0.0.0.0"), Some(Ipv4Address { a: 0, b: 0, c: 0, d: 0 }));
    assert_eq!(Ipv4Address::parse("255.255.255.255"), Some(Ipv4Address { a: 255, b: 255, c: 255, d: 255 }));
    assert_eq!(Ipv4Address::parse("256.0.0.1"), None);
    assert_eq!(Ipv4Address::parse("01.0.0.1"), None);
    assert_eq!(Ipv4Address::parse("1.2.3"), None);
    assert_eq!(Ipv4Address::parse("1.2.3.4.5"), None);
    assert_eq!(Ipv4Address::parse(""), None);
    assert_eq!(Ipv4Address { a: 10, b: 0, c: 12, d: 255 }.to_text(), "10.0.12.255");
}

#[test]
fn decimal_renders_digits() {
    assert_eq!(decimal(0), "0");
    assert_eq!(decimal(8080), "8080");
    assert_eq!(decimal(u64::MAX), u64::MAX.to_string());
}

#[test]
fn listing_without_key_is_empty() {
    assert_eq!(decode_list(&obj(vec![])).unwrap(), Vec::<String>::new());
    let listed = decode_list(&obj(vec![("blockades", Json::Array(vec![s("b1"), s("b2")]))])).unwrap();
    assert_eq!(listed, vec!["b1".to_string(), "b2".to_string()]);
    assert!(matches!(decode_list(&obj(vec![("blockades", s("b1"))])), Err(BlockadeError::JsonError(_))));
}

#[test]
fn state_document_decodes_each_container() {
    let st = decode_state(&state_doc(&["b", "a"], 0)).unwrap();
    assert_eq!(st.containers.sorted_keys(), vec!["a".to_string(), "b".to_string()]);
    assert_eq!(st.containers.get("a").unwrap().container_id, "id-a");
    assert!(matches!(decode_state(&obj(vec![])), Err(BlockadeError::JsonError(_))));
}

#[test]
fn command_body_shape() {
    let args = BlockadeCommandArgs { command: BlockadeCommand::Kill, container_names: vec!["c1".to_string()] };
    let j = encode_command_args(&args);
    let f = members(&j);
    assert_eq!(f[0].0, "command");
    assert!(matches!(&f[0].1, Json::Str(t) if t == "kill"));
    assert_eq!(f[1].0, "container_names");
    assert_eq!(texts(&f[1].1), vec!["c1".to_string()]);
}

#[test]
fn config_body_shape() {
    let mut c = BlockadeContainer::default();
    c.ports.push((8080, 80));
    c.expose.push(22);
    let mut containers = Table::new();
    containers.insert("web".to_string(), c);
    let cfg = BlockadeConfig { containers, network: BlockadeNetConfig::default() };
    let j = encode_config(&cfg);
    let f = members(&j);
    assert_eq!(f[0].0, "containers");
    let web = &members(&f[0].1)[0];
    assert_eq!(web.0, "web");
    let wf = members(&web.1);
    assert!(matches!(&wf[0].1, Json::Str(t) if t == "rust"));
    assert!(matches!(&wf[1].1, Json::Str(t) if t == "c0"));
    assert!(matches!(&wf[3].1, Json::Array(v) if matches!(v[0], Json::Int(22))));
    let ports = members(&wf[4].1);
    assert_eq!(ports[0].0, "8080");
    assert!(matches!(ports[0].1, Json::Int(80)));
    assert!(matches!(wf[6].1, Json::Null));
    let net = members(&f[1].1);
    assert!(matches!(&net[0].1, Json::Str(t) if t == "10%"));
    assert!(matches!(&net[1].1, Json::Str(t) if t == "75ms 100ms distribution normal"));
    assert!(matches!(&net[2].1, Json::Str(t) if t == "udn"));
}

#[test]
fn start_recreates_on_conflict() {
    let mut h = BlockadeHandler::new("http://svc");
    let a = h.start_blockade("b1", two_container_config(), true);
    let c = sent(&a);
    assert_eq!((c.method, c.url.as_str()), (Method::Post, "http://svc/blockade/b1"));
    let conflict = Outcome::Replied { status: 400, text: CONFLICT_MESSAGE.to_string(), doc: None };
    let a = h.resume(conflict);
    assert_eq!((sent(&a).method, sent(&a).url.as_str()), (Method::Get, "http://svc/blockade/b1"));
    let a = h.resume(ok_reply(Some(state_doc(&["a", "b"], 0))));
    assert_eq!((sent(&a).method, sent(&a).url.as_str()), (Method::Delete, "http://svc/blockade/b1"));
    let a = h.resume(ok_reply(None));
    assert!(!h.state.contains_key("b1"));
    assert_eq!((sent(&a).method, sent(&a).url.as_str()), (Method::Post, "http://svc/blockade/b1"));
    assert!(sent(&a).body.is_some());
    let a = h.resume(ok_reply(None));
    assert_eq!((sent(&a).method, sent(&a).url.as_str()), (Method::Get, "http://svc/blockade/b1"));
    let a = h.resume(ok_reply(Some(state_doc(&["a", "b"], 0))));
    assert!(matches!(a, Action::Finish(Ok(Done::Unit))));
    assert!(h.state.contains_key("b1"));
}

#[test]
fn start_without_restart_propagates_conflict() {
    let mut h = BlockadeHandler::new("http://svc");
    let _ = h.start_blockade("b1", two_container_config(), false);
    let conflict = Outcome::Replied { status: 400, text: CONFLICT_MESSAGE.to_string(), doc: None };
    match h.resume(conflict) {
        Action::Finish(Err(BlockadeError::ServerError(t))) => assert_eq!(t, CONFLICT_MESSAGE),
        other => panic!("unexpected {:?}", other),
    }
    assert!(h.task.is_none());
}

#[test]
fn second_conflict_is_not_retried() {
    let mut h = BlockadeHandler::new("http://svc");
    let _ = h.start_blockade("b1", two_container_config(), true);
    let conflict = || Outcome::Replied { status: 400, text: CONFLICT_MESSAGE.to_string(), doc: None };
    let _ = h.resume(conflict());
    let _ = h.resume(ok_reply(Some(state_doc(&["a"], 0))));
    let _ = h.resume(ok_reply(None));
    match h.resume(conflict()) {
        Action::Finish(Err(BlockadeError::ServerError(_))) => {}
        other => panic!("unexpected {:?}", other),
    }
}

#[test]
fn other_create_errors_propagate_with_restart() {
    let mut h = BlockadeHandler::new("http://svc");
    let _ = h.start_blockade("b1", two_container_config(), true);
    let refused = Outcome::Replied { status: 500, text: "disk full".to_string(), doc: None };
    match h.resume(refused) {
        Action::Finish(Err(BlockadeError::ServerError(t))) => assert_eq!(t, "disk full"),
        other => panic!("unexpected {:?}", other),
    }
}

#[test]
fn unreachable_service_is_http_error() {
    let mut h = BlockadeHandler::new("http://svc");
    let _ = h.heal_partitions("b1");
    match h.resume(Outcome::Unreachable("refused".to_string())) {
        Action::Finish(Err(BlockadeError::HttpError(t))) => assert_eq!(t, "refused"),
        other => panic!("unexpected {:?}", other),
    }
}

#[test]
fn non_json_reply_is_decode_error() {
    let mut h = BlockadeHandler::new("http://svc");
    let _ = h.get_all_containers("b1");
    assert!(matches!(h.resume(ok_reply(None)), Action::Finish(Err(BlockadeError::JsonError(_)))));
}

#[test]
fn choose_fails_before_any_call() {
    let mut h = BlockadeHandler::new("http://svc");
    match h.choose_random_container("missing-blockade") {
        Err(BlockadeError::OtherError(m)) => assert_eq!(m, NOT_FOUND_MESSAGE),
        other => panic!("unexpected {:?}", other),
    }
    let _ = h.get_all_containers("empty-blockade");
    let _ = h.resume(ok_reply(Some(state_doc(&[], 0))));
    match h.choose_random_container("empty-blockade") {
        Err(BlockadeError::OtherError(m)) => assert_eq!(m, NO_CONTAINERS_MESSAGE),
        other => panic!("unexpected {:?}", other),
    }
    assert_ne!(NOT_FOUND_MESSAGE, NO_CONTAINERS_MESSAGE);
    assert!(matches!(h.kill_one("missing-blockade"), Action::Finish(Err(BlockadeError::OtherError(_)))));
}

#[test]
fn choose_by_draw_follows_name_order() {
    let mut h = BlockadeHandler::new("http://svc");
    let _ = h.get_all_containers("b1");
    let _ = h.resume(ok_reply(Some(state_doc(&["c", "a", "b"], 0))));
    assert_eq!(h.choose_container("b1", 0).unwrap(), "a");
    assert_eq!(h.choose_container("b1", 2).unwrap(), "c");
    assert_eq!(h.choose_container("b1", 4).unwrap(), "b");
    let picked = h.choose_random_container("b1").unwrap();
    assert!(["a", "b", "c"].contains(&picked.as_str()));
}

#[test]
fn kill_one_names_the_container() {
    let mut h = BlockadeHandler::new("http://svc");
    let _ = h.get_all_containers("b1");
    let _ = h.resume(ok_reply(Some(state_doc(&["x", "y"], 0))));
    let a = h.restart_one_at("b1", 1);
    let c = sent(&a);
    assert_eq!(c.url, "http://svc/blockade/b1/action");
    let f = members(c.body.as_ref().unwrap());
    assert!(matches!(&f[0].1, Json::Str(t) if t == "restart"));
    assert_eq!(texts(&f[1].1), vec!["y".to_string()]);
    let _ = h.resume(ok_reply(None));
    match h.resume(ok_reply(Some(state_doc(&["x", "y"], 0)))) {
        Action::Finish(Ok(Done::Chosen(n))) => assert_eq!(n, "y"),
        other => panic!("unexpected {:?}", other),
    }
}

#[test]
fn container_names_sorted_whatever_reply_order() {
    let mut h = BlockadeHandler::new("http://svc");
    let _ = h.get_all_containers("b1");
    match h.resume(ok_reply(Some(state_doc(&["zeta", "alpha", "Mid", "beta"], 0)))) {
        Action::Finish(Ok(Done::Names(v))) => {
            assert_eq!(v, vec!["Mid".to_string(), "alpha".to_string(), "beta".to_string(), "zeta".to_string()])
        }
        other => panic!("unexpected {:?}", other),
    }
}

#[test]
fn make_fast_covers_all_containers_in_one_call() {
    let mut h = BlockadeHandler::new("http://svc");
    let a = h.make_net_fast("b1");
    assert_eq!(sent(&a).url, "http://svc/blockade/b1");
    let a = h.resume(ok_reply(Some(state_doc(&["b", "a"], 0))));
    let c = sent(&a);
    assert_eq!((c.method, c.url.as_str()), (Method::Post, "http://svc/blockade/b1/network_state"));
    let f = members(c.body.as_ref().unwrap());
    assert_eq!(f[0].0, "network_state");
    assert!(matches!(&f[0].1, Json::Str(t) if t == "fast"));
    assert_eq!(texts(&f[1].1), vec!["a".to_string(), "b".to_string()]);
    let _ = h.resume(ok_reply(None));
    let a = h.make_net_unreliable("b1");
    let _ = sent(&a);
    let a = h.resume(ok_reply(Some(state_doc(&["b", "a"], 0))));
    let f = members(sent(&a).body.as_ref().unwrap());
    assert!(matches!(&f[0].1, Json::Str(t) if t == "flaky"));
}

#[test]
fn fetch_state_refreshes_each_listed() {
    let mut h = BlockadeHandler::new("http://svc");
    let a = h.fetch_state();
    assert_eq!(sent(&a).url, "http://svc/blockade");
    let listing = obj(vec![("blockades", Json::Array(vec![s("b1"), s("b2")]))]);
    let a = h.resume(ok_reply(Some(listing)));
    assert_eq!(sent(&a).url, "http://svc/blockade/b1");
    let a = h.resume(ok_reply(Some(state_doc(&["a"], 0))));
    assert_eq!(sent(&a).url, "http://svc/blockade/b2");
    let refused = Outcome::Replied { status: 404, text: "gone".to_string(), doc: None };
    assert!(matches!(h.resume(refused), Action::Finish(Err(BlockadeError::ServerError(_)))));
    assert!(h.state.contains_key("b1"));
    assert!(!h.state.contains_key("b2"));
}

#[test]
fn warm_up_passes_over_failures() {
    let mut h = BlockadeHandler::new("http://svc");
    let _ = h.warm_up();
    assert!(matches!(h.resume(Outcome::Unreachable("down".to_string())), Action::Finish(Ok(Done::Unit))));
    let _ = h.warm_up();
    let listing = obj(vec![("blockades", Json::Array(vec![s("b1"), s("b2")]))]);
    let _ = h.resume(ok_reply(Some(listing)));
    let a = h.resume(Outcome::Replied { status: 500, text: "x".to_string(), doc: None });
    assert_eq!(sent(&a).url, "http://svc/blockade/b2");
    assert!(matches!(h.resume(ok_reply(Some(state_doc(&["a"], 0)))), Action::Finish(Ok(Done::Unit))));
    assert_eq!(h.blockades, vec!["b1".to_string(), "b2".to_string()]);
    assert!(h.state.contains_key("b2"));
}

#[test]
fn resume_without_call_in_flight_fails() {
    let mut h = BlockadeHandler::new("http://svc");
    assert!(matches!(h.resume(ok_reply(None)), Action::Finish(Err(BlockadeError::OtherError(_)))));
}

#[test]
fn partition_then_heal_scenario() {
    let mut h = BlockadeHandler::new("http://svc");
    let _ = h.start_blockade("b1", two_container_config(), true);
    let _ = h.resume(ok_reply(None));
    assert!(matches!(h.resume(ok_reply(Some(state_doc(&["a", "b"], 0)))), Action::Finish(Ok(Done::Unit))));

    let a = h.make_partitions("b1", vec![vec!["a".to_string()], vec!["b".to_string()]]);
    let c = sent(&a);
    assert_eq!((c.method, c.url.as_str()), (Method::Post, "http://svc/blockade/b1/partitions"));
    let f = members(c.body.as_ref().unwrap());
    assert_eq!(f[0].0, "partitions");
    match &f[0].1 {
        Json::Array(groups) => {
            assert_eq!(texts(&groups[0]), vec!["a".to_string()]);
            assert_eq!(texts(&groups[1]), vec!["b".to_string()]);
        }
        other => panic!("unexpected {:?}", other),
    }
    let _ = h.resume(ok_reply(None));
    let partitioned = obj(vec![(
        "containers",
        Json::Object(vec![
            ("a".to_string(), container_doc("a", Json::Int(1))),
            ("b".to_string(), container_doc("b", Json::Int(2))),
        ]),
    )]);
    assert!(matches!(h.resume(ok_reply(Some(partitioned))), Action::Finish(Ok(Done::Unit))));
    assert_eq!(h.state.get("b1").unwrap().containers.get("b").unwrap().partition, 2);

    let a = h.heal_partitions("b1");
    let c = sent(&a);
    assert_eq!((c.method, c.url.as_str()), (Method::Delete, "http://svc/blockade/b1/partitions"));
    let _ = h.resume(ok_reply(None));
    let healed = obj(vec![(
        "containers",
        Json::Object(vec![
            ("a".to_string(), container_doc("a", Json::Null)),
            ("b".to_string(), container_doc("b", Json::Null)),
        ]),
    )]);
    let _ = h.resume(ok_reply(Some(healed)));
    let st = h.state.get("b1").unwrap();
    assert_eq!(st.containers.get("a").unwrap().partition, 0);
    assert_eq!(st.containers.get("b").unwrap().partition, 0);

    let _ = h.get_all_containers("b1");
    match h.resume(ok_reply(Some(state_doc(&["b", "a"], 0)))) {
        Action::Finish(Ok(Done::Names(v))) => assert_eq!(v, vec!["a".to_string(), "b".to_string()]),
        other => panic!("unexpected {:?}", other),
    }
}

#[test]
fn destroy_drops_shadow_entry() {
    let mut h = BlockadeHandler::new("http://svc");
    let _ = h.destroy_blockade("b1");
    let a = h.resume(ok_reply(Some(state_doc(&["a"], 0))));
    assert!(h.state.contains_key("b1"));
    assert_eq!(sent(&a).method, Method::Delete);
    assert!(matches!(h.resume(ok_reply(None)), Action::Finish(Ok(Done::Unit))));
    assert!(!h.state.contains_key("b1"));
}

#[test]
fn command_plans_target_one_container() {
    let mut h = BlockadeHandler::new("http://svc");
    for (cmd, token) in [("start", "start"), ("stop", "stop"), ("kill", "kill")] {
        let a = match cmd {
            "start" => h.start_container("b1", "c9"),
            "stop" => h.stop_container("b1", "c9"),
            _ => h.kill_container("b1", "c9"),
        };
        let f = members(sent(&a).body.as_ref().unwrap());
        assert!(matches!(&f[0].1, Json::Str(t) if t == token));
        assert_eq!(texts(&f[1].1), vec!["c9".to_string()]);
        let _ = h.resume(ok_reply(None));
        let _ = h.resume(ok_reply(Some(state_doc(&["c9"], 0))));
    }
    let a = h.restart_container("b1", "c9");
    assert_eq!(sent(&a).url, "http://svc/blockade/b1/action");
}

#[test]
fn table_keeps_keys_once() {
    let mut t: Table<u32> = Table::new();
    t.insert("k".to_string(), 1);
    t.insert("k".to_string(), 2);
    t.insert("j".to_string(), 3);
    assert_eq!(t.len(), 2);
    assert_eq!(t.get("k"), Some(&2));
    t.remove("k");
    assert_eq!(t.get("k"), None);
    assert_eq!(t.sorted_keys(), vec!["j".to_string()]);
}

#[test]
fn random_choice_varies() {
    let mut h = BlockadeHandler::new("http://svc");
    let _ = h.get_all_containers("b1");
    let _ = h.resume(ok_reply(Some(state_doc(&["a", "b", "c"], 0))));
    let mut seen = std::collections::BTreeSet::new();
    for _ in 0..300 {
        seen.insert(h.choose_random_container("b1").unwrap());
    }
    assert!(seen.len() > 1);
    assert!(seen.iter().all(|c| ["a", "b", "c"].contains(&c.as_str())));
}
