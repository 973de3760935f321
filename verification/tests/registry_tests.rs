use cmk_agent_ctl::config::{RegistrationState, ServerSpec};
use cmk_agent_ctl::format::{Defect, Field, ParseError};
use cmk_agent_ctl::json::Json;

fn entry(address: &str, uuid: &str, chain: &str, root: &str) -> ServerSpec {
    ServerSpec {
        marcv_address: address.to_string(),
        uuid: uuid.to_string(),
        client_chain: chain.to_string(),
        root_cert: root.to_string(),
    }
}

fn srv1() -> ServerSpec {
    entry("srv1", "abc", "C1", "R1")
}

fn srv2() -> ServerSpec {
    entry("srv2", "def", "C2", "R2")
}

fn srv3() -> ServerSpec {
    entry("srv3", "ghi", "C3", "R3")
}

fn reload(state: &RegistrationState) -> RegistrationState {
    let text = state.clone().to_file().unwrap();
    RegistrationState::from_file(Some(&text)).unwrap()
}

#[test]
fn empty_state_has_no_entries() {
    assert_eq!(RegistrationState::empty_state().server_specs, vec![]);
}

#[test]
fn missing_registry_file_gives_the_empty_registry() {
    assert_eq!(RegistrationState::from_file(None), Ok(RegistrationState::empty_state()));
}

#[test]
fn registry_without_the_list_is_empty() {
    assert_eq!(RegistrationState::from_file(Some("{}")), Ok(RegistrationState::empty_state()));
    assert_eq!(
        RegistrationState::from_file(Some(r#"{"other": [1, 2]}"#)),
        Ok(RegistrationState::empty_state())
    );
}

#[test]
fn add_server_spec_appends() {
    let mut state = RegistrationState::empty_state();
    state.add_server_spec(srv2());
    state.add_server_spec(srv1());
    assert_eq!(state.server_specs, vec![srv2(), srv1()]);
}

#[test]
fn registry_is_written_as_one_object_with_the_list() {
    let mut state = RegistrationState::empty_state();
    state.add_server_spec(srv1());
    assert_eq!(
        state.to_file().unwrap(),
        r#"{"server_specs":[{"marcv_address":"srv1","uuid":"abc","client_chain":"C1","root_cert":"R1"}]}"#
    );
    assert_eq!(RegistrationState::empty_state().to_file().unwrap(), r#"{"server_specs":[]}"#);
}

#[test]
fn registry_is_read_back_as_it_was_written() {
    let pem = "-----BEGIN CERTIFICATE-----\nMIIC\"x\\y\t/z\u{e9}\u{1F512}\r\n-----END CERTIFICATE-----\n";
    let state = RegistrationState {
        server_specs: vec![
            srv3(),
            entry("", "", "", ""),
            entry("srv:8000/site", "0a1b-2c3d", pem, pem),
            srv1(),
            entry(" srv1 ", "ABC", "\u{0}\u{1f}", "{\"server_specs\":[]}"),
        ],
    };
    assert_eq!(reload(&state), state);
    assert_eq!(reload(&RegistrationState::empty_state()), RegistrationState::empty_state());
}

#[test]
fn registry_document_is_read_back_as_it_was_built() {
    let state = RegistrationState { server_specs: vec![srv2(), srv1(), srv2()] };
    let document = state.to_json();
    assert_eq!(
        document,
        Json::Record(vec![(
            "server_specs".to_string(),
            Json::List(vec![srv2().to_json(), srv1().to_json(), srv2().to_json()])
        )])
    );
    assert_eq!(RegistrationState::from_json(&document), Ok(state));
}

#[test]
fn entry_document_has_the_four_fields_in_order() {
    assert_eq!(
        srv1().to_json(),
        Json::Record(vec![
            ("marcv_address".to_string(), Json::Text("srv1".to_string())),
            ("uuid".to_string(), Json::Text("abc".to_string())),
            ("client_chain".to_string(), Json::Text("C1".to_string())),
            ("root_cert".to_string(), Json::Text("R1".to_string())),
        ])
    );
    assert_eq!(ServerSpec::from_json(&srv1().to_json(), 0), Ok(srv1()));
}

#[test]
fn the_same_entry_added_twice_stays_twice() {
    let mut state = RegistrationState::empty_state();
    state.add_server_spec(srv1());
    state.add_server_spec(srv1());
    assert_eq!(state.server_specs, vec![srv1(), srv1()]);
    let loaded = reload(&state);
    assert_eq!(loaded.server_specs.len(), 2);
    assert_eq!(loaded.server_specs, vec![srv1(), srv1()]);
}

#[test]
fn two_registrations_are_persisted_in_their_order() {
    let mut state = RegistrationState::from_file(None).unwrap();
    state.add_server_spec(srv1());
    state.add_server_spec(srv2());
    let text = state.to_file().unwrap();
    assert_eq!(
        text,
        concat_two(
            r#"{"server_specs":[{"marcv_address":"srv1","uuid":"abc","client_chain":"C1","root_cert":"R1"},"#,
            r#"{"marcv_address":"srv2","uuid":"def","client_chain":"C2","root_cert":"R2"}]}"#
        )
    );
    let loaded = RegistrationState::from_file(Some(&text)).unwrap();
    assert_eq!(loaded.server_specs, vec![srv1(), srv2()]);
}

fn concat_two(a: &str, b: &str) -> String {
    format!("{}{}", a, b)
}

#[test]
fn remove_all_persists_an_empty_list() {
    let mut state = RegistrationState { server_specs: vec![srv1(), srv2(), srv3()] };
    state.remove_all();
    assert_eq!(state.server_specs, vec![]);
    let text = state.to_file().unwrap();
    assert_eq!(text, r#"{"server_specs":[]}"#);
    assert_eq!(RegistrationState::from_file(Some(&text)), Ok(RegistrationState::empty_state()));
}

#[test]
fn remove_takes_out_what_the_selector_picks() {
    let mut state =
        RegistrationState { server_specs: vec![srv1(), srv2(), srv1(), srv3(), srv2()] };
    let removed = state.remove(|entry: &ServerSpec| entry.uuid == "def");
    assert_eq!(removed, 2);
    assert_eq!(state.server_specs, vec![srv1(), srv1(), srv3()]);
    let removed = state.remove(|entry: &ServerSpec| entry.marcv_address == "nowhere");
    assert_eq!(removed, 0);
    assert_eq!(state.server_specs, vec![srv1(), srv1(), srv3()]);
    let removed = state.remove(|_: &ServerSpec| true);
    assert_eq!(removed, 3);
    assert_eq!(state.server_specs, vec![]);
    assert_eq!(state.remove(|_: &ServerSpec| true), 0);
}

#[test]
fn remove_asks_about_each_entry_once_and_in_order() {
    let mut state = RegistrationState { server_specs: vec![srv1(), srv2(), srv3()] };
    let asked = std::cell::RefCell::new(Vec::new());
    let removed = state.remove(|entry: &ServerSpec| {
        asked.borrow_mut().push(entry.uuid.clone());
        asked.borrow().len() % 2 == 1
    });
    assert_eq!(removed, 2);
    assert_eq!(*asked.borrow(), vec!["abc".to_string(), "def".to_string(), "ghi".to_string()]);
    assert_eq!(state.server_specs, vec![srv2()]);
}

#[test]
fn copies_for_concurrent_reading_are_independent() {
    let state = RegistrationState { server_specs: vec![srv1(), srv2()] };
    let (mut for_push, for_pull) = state.duplicate_for_concurrent_read();
    assert_eq!(for_push, state);
    assert_eq!(for_pull, state);
    for_push.add_server_spec(srv3());
    for_push.server_specs[0].uuid.push_str("-changed");
    assert_eq!(for_pull.server_specs, vec![srv1(), srv2()]);
    assert_eq!(state.server_specs, vec![srv1(), srv2()]);
    assert_eq!(state.duplicate(), state);
    assert_eq!(srv1().duplicate(), srv1());
}

#[test]
fn registry_file_passes_over_unknown_fields() {
    let file = r#"{
        "version": 3,
        "server_specs": [
            {"uuid": "abc", "extra": [1, {"a": null}], "root_cert": "R1",
             "client_chain": "C1", "marcv_address": "srv1"}
        ]
    }"#;
    assert_eq!(
        RegistrationState::from_file(Some(file)),
        Ok(RegistrationState { server_specs: vec![srv1()] })
    );
}

#[test]
fn registry_file_that_is_not_json() {
    for file in ["", "{\"server_specs\": [}", "server_specs", "{\"server_specs\": []} x"] {
        match RegistrationState::from_file(Some(file)) {
            Err(ParseError::Syntax { message }) => assert!(!message.is_empty()),
            other => panic!("{:?} gave {:?}", file, other),
        }
    }
}

#[test]
fn registry_file_that_is_not_an_object() {
    for file in ["[]", "null", "3", "\"server_specs\""] {
        assert_eq!(
            RegistrationState::from_file(Some(file)),
            Err(ParseError::Shape(Defect::NotAnObject { entry: None }))
        );
    }
}

#[test]
fn registry_file_whose_list_is_no_list() {
    for file in [
        r#"{"server_specs": null}"#,
        r#"{"server_specs": {}}"#,
        r#"{"server_specs": "srv1"}"#,
        r#"{"server_specs": 0}"#,
    ] {
        assert_eq!(
            RegistrationState::from_file(Some(file)),
            Err(ParseError::Shape(Defect::InvalidField { entry: None, field: Field::ServerSpecs }))
        );
    }
}

#[test]
fn registry_file_with_an_entry_that_is_no_object() {
    let good = r#"{"marcv_address":"srv1","uuid":"abc","client_chain":"C1","root_cert":"R1"}"#;
    let file = format!(r#"{{"server_specs": [{}, {}, ["srv2"], 4]}}"#, good, good);
    assert_eq!(
        RegistrationState::from_file(Some(&file)),
        Err(ParseError::Shape(Defect::NotAnObject { entry: Some(2) }))
    );
}

#[test]
fn registry_file_with_an_entry_that_lacks_a_field() {
    let cases = [
        (r#"{"uuid":"abc","client_chain":"C1","root_cert":"R1"}"#, Field::MarcvAddress),
        (r#"{"marcv_address":"srv1","client_chain":"C1","root_cert":"R1"}"#, Field::Uuid),
        (r#"{"marcv_address":"srv1","uuid":"abc","root_cert":"R1"}"#, Field::ClientChain),
        (r#"{"marcv_address":"srv1","uuid":"abc","client_chain":"C1"}"#, Field::RootCert),
        (r#"{"marcv_address":null,"uuid":"abc","client_chain":"C1","root_cert":"R1"}"#, Field::MarcvAddress),
        (r#"{"marcv_address":"srv1","uuid":12,"client_chain":"C1","root_cert":"R1"}"#, Field::Uuid),
        (r#"{"marcv_address":"srv1","uuid":"abc","client_chain":["C1"],"root_cert":"R1"}"#, Field::ClientChain),
        (r#"{"marcv_address":"srv1","uuid":"abc","client_chain":"C1","root_cert":{}}"#, Field::RootCert),
        (r#"{}"#, Field::MarcvAddress),
        (r#"{"root_cert":1,"client_chain":2,"uuid":3,"marcv_address":"srv1"}"#, Field::Uuid),
    ];
    let good = r#"{"marcv_address":"srv1","uuid":"abc","client_chain":"C1","root_cert":"R1"}"#;
    for (bad, field) in cases {
        let file = format!(r#"{{"server_specs": [{}, {}, {}]}}"#, good, bad, "17");
        assert_eq!(
            RegistrationState::from_file(Some(&file)),
            Err(ParseError::Shape(Defect::InvalidField { entry: Some(1), field })),
            "{}",
            bad
        );
        let document = Json::parse(bad).unwrap();
        assert_eq!(
            ServerSpec::from_json(&document, 5),
            Err(Defect::InvalidField { entry: Some(5), field })
        );
    }
}

#[test]
fn same_as_compares_entries_text_by_text() {
    assert!(srv1().same_as(&srv1()));
    assert!(!srv1().same_as(&srv2()));
    assert!(!srv1().same_as(&ServerSpec { marcv_address: "srv1 ".to_string(), ..srv1() }));
    assert!(!srv1().same_as(&ServerSpec { uuid: "abd".to_string(), ..srv1() }));
    assert!(!srv1().same_as(&ServerSpec { client_chain: String::new(), ..srv1() }));
    assert!(!srv1().same_as(&ServerSpec { root_cert: "r1".to_string(), ..srv1() }));
}

#[test]
fn same_as_compares_registries_entry_by_entry() {
    let state = RegistrationState { server_specs: vec![srv1(), srv2(), srv1()] };
    assert!(state.same_as(&state.duplicate()));
    assert!(RegistrationState::empty_state().same_as(&RegistrationState::empty_state()));
    assert!(!state.same_as(&RegistrationState { server_specs: vec![srv1(), srv1(), srv2()] }));
    assert!(!state.same_as(&RegistrationState { server_specs: vec![srv1(), srv2()] }));
    assert!(!state.same_as(&RegistrationState {
        server_specs: vec![srv1(), srv2(), srv1(), srv1()]
    }));
    assert!(!state.same_as(&RegistrationState::empty_state()));
}

#[test]
fn what_is_saved_loads_as_the_same_registry() {
    let states = [
        RegistrationState::empty_state(),
        RegistrationState { server_specs: vec![srv1()] },
        RegistrationState { server_specs: vec![srv2(), srv2(), entry("\"", "\\", "\n", "\u{7f}")] },
    ];
    for state in states {
        let text = state.clone().to_file().unwrap();
        let loaded = RegistrationState::from_file(Some(&text)).unwrap();
        assert!(loaded.same_as(&state));
        assert_eq!(loaded, state);
        assert_eq!(loaded.to_file().unwrap(), text);
    }
}
