use cmk_agent_ctl::config::{Config, RegistrationArgs, RegistrationState, ServerSpec};
use cmk_agent_ctl::dispatch::{
    marker_cleared, run_requested_mode, Failure, Mode, Operation, PersistFailure, Persisting,
    Running, Step,
};
use cmk_agent_ctl::format::{Defect, Field, ParseError};

type Read = Result<Option<String>, String>;

fn file(text: &str) -> Read {
    Ok(Some(text.to_string()))
}

fn no_file() -> Read {
    Ok(None)
}

fn port() -> String {
    "6556".to_string()
}

fn srv1() -> ServerSpec {
    ServerSpec {
        marcv_address: "srv1".to_string(),
        uuid: "abc".to_string(),
        client_chain: "C1".to_string(),
        root_cert: "R1".to_string(),
    }
}

const ONE_ENTRY: &str =
    r#"{"server_specs":[{"marcv_address":"srv1","uuid":"abc","client_chain":"C1","root_cert":"R1"}]}"#;

fn start(mode: Mode) -> Running {
    run_requested_mode(mode, no_file(), file(ONE_ENTRY), port()).unwrap()
}

#[test]
fn a_run_without_files_starts_empty() {
    let running = run_requested_mode(Mode::Push, no_file(), no_file(), port()).unwrap();
    assert_eq!(running.registry, RegistrationState::empty_state());
    assert_eq!(running.operation, Operation::Push);
}

#[test]
fn a_run_holds_the_registry_that_was_on_disk() {
    let running = start(Mode::Dump);
    assert_eq!(running.registry.server_specs, vec![srv1()]);
    assert_eq!(running.operation, Operation::Dump);
}

#[test]
fn each_mode_selects_its_operation() {
    assert_eq!(start(Mode::Push).operation, Operation::Push);
    assert_eq!(start(Mode::Dump).operation, Operation::Dump);
    assert_eq!(start(Mode::DeleteAll).operation, Operation::DeleteAll);
    assert_eq!(start(Mode::Import).operation, Operation::Import);
    assert_eq!(start(Mode::Status { json: true }).operation, Operation::Status { json: true });
    assert_eq!(start(Mode::Status { json: false }).operation, Operation::Status { json: false });
    assert_eq!(
        start(Mode::Delete { connection: "srv1/site".to_string() }).operation,
        Operation::Delete { connection: "srv1/site".to_string() }
    );
}

#[test]
fn pull_and_daemon_take_the_port_given_or_the_default() {
    assert_eq!(start(Mode::Pull { port: None }).operation, Operation::Pull { port: port() });
    assert_eq!(
        start(Mode::Pull { port: Some("7000".to_string()) }).operation,
        Operation::Pull { port: "7000".to_string() }
    );
    assert_eq!(start(Mode::Daemon { port: None }).operation, Operation::Daemon { port: port() });
    assert_eq!(
        start(Mode::Daemon { port: Some("7001".to_string()) }).operation,
        Operation::Daemon { port: "7001".to_string() }
    );
}

#[test]
fn a_registration_works_with_the_stored_config_overridden() {
    let stored = r#"{"marcv_addresses": ["old"], "uuid": "u", "package_name": "stored"}"#;
    let args = RegistrationArgs { server: Some(vec!["srv9".to_string()]), package_name: None };
    let expected = Config {
        marcv_addresses: Some(vec!["srv9".to_string()]),
        uuid: Some("u".to_string()),
        package_name: Some("stored".to_string()),
        root_certificate: None,
    };
    let running =
        run_requested_mode(Mode::Register(args.clone()), file(stored), no_file(), port()).unwrap();
    assert_eq!(running.operation, Operation::Register { config: expected.clone() });
    let running =
        run_requested_mode(Mode::RegisterSurrogatePull(args), file(stored), no_file(), port())
            .unwrap();
    assert_eq!(running.operation, Operation::RegisterSurrogatePull { config: expected });
}

#[test]
fn a_run_stops_where_a_file_cannot_be_read() {
    let started = run_requested_mode(Mode::Push, Err("denied".to_string()), file("{"), port());
    assert_eq!(started, Err(Failure::ReadConfig("denied".to_string())));
    let started = run_requested_mode(Mode::Push, no_file(), Err("gone".to_string()), port());
    assert_eq!(started, Err(Failure::ReadRegistry("gone".to_string())));
}

#[test]
fn a_run_stops_where_a_file_is_malformed() {
    let started = run_requested_mode(Mode::Push, file(r#"{"uuid": 1}"#), file("nonsense"), port());
    assert_eq!(
        started,
        Err(Failure::ParseConfig(ParseError::Shape(Defect::InvalidField {
            entry: None,
            field: Field::Uuid
        })))
    );
    let started = run_requested_mode(Mode::Push, file("{}"), file(r#"{"server_specs": [1]}"#), port());
    assert_eq!(
        started,
        Err(Failure::ParseRegistry(ParseError::Shape(Defect::NotAnObject { entry: Some(0) })))
    );
    match run_requested_mode(Mode::Push, file("{"), no_file(), port()) {
        Err(Failure::ParseConfig(ParseError::Syntax { .. })) => {}
        other => panic!("{:?}", other),
    }
    match run_requested_mode(Mode::Push, no_file(), file("[1"), port()) {
        Err(Failure::ParseRegistry(ParseError::Syntax { .. })) => {}
        other => panic!("{:?}", other),
    }
}

#[test]
fn an_operation_that_leaves_the_registry_alone_ends_the_run() {
    let modes = [
        Mode::RegisterSurrogatePull(RegistrationArgs { server: None, package_name: None }),
        Mode::Push,
        Mode::Pull { port: None },
        Mode::Daemon { port: None },
        Mode::Dump,
        Mode::Status { json: false },
    ];
    for mode in modes {
        assert!(!start(mode.clone()).operation.changes_registry());
        assert_eq!(start(mode.clone()).operation_done::<String>(Ok(())), Step::Exit(Ok(())));
        assert_eq!(
            start(mode.clone()).operation_done(Err("transport ended".to_string())),
            Step::Exit(Err(Failure::Operation("transport ended".to_string())))
        );
    }
}

#[test]
fn an_operation_that_may_change_the_registry_is_followed_by_a_write() {
    let modes = [
        Mode::Register(RegistrationArgs { server: None, package_name: None }),
        Mode::Delete { connection: "srv1".to_string() },
        Mode::DeleteAll,
        Mode::Import,
    ];
    for mode in modes {
        let running = start(mode.clone());
        assert!(running.operation.changes_registry());
        let registration = running.operation.is_registration();
        assert_eq!(registration, matches!(mode, Mode::Register(_)));
        assert_eq!(
            running.operation_done::<String>(Ok(())),
            Step::WriteRegistry {
                text: ONE_ENTRY.to_string(),
                then: Persisting { registration, operation_error: None }
            }
        );
        assert_eq!(
            start(mode).operation_done(Err("halfway".to_string())),
            Step::WriteRegistry {
                text: ONE_ENTRY.to_string(),
                then: Persisting { registration, operation_error: Some("halfway".to_string()) }
            }
        );
    }
}

#[test]
fn delete_all_on_three_entries_persists_an_empty_list() {
    let three = RegistrationState { server_specs: vec![srv1(), srv1(), srv1()] };
    let on_disk = three.to_file().unwrap();
    let mut running = run_requested_mode(Mode::DeleteAll, no_file(), file(&on_disk), port()).unwrap();
    assert_eq!(running.registry.server_specs.len(), 3);
    running.registry.remove_all();
    let text = match running.operation_done::<String>(Ok(())) {
        Step::WriteRegistry { text, then } => {
            assert_eq!(then.written(Ok(())), Step::Exit(Ok(())));
            text
        }
        other => panic!("{:?}", other),
    };
    assert_eq!(text, r#"{"server_specs":[]}"#);
    let again = run_requested_mode(Mode::Status { json: true }, no_file(), file(&text), port());
    assert_eq!(again.unwrap().registry, RegistrationState::empty_state());
}

#[test]
fn what_a_failed_delete_removed_is_persisted_all_the_same() {
    let two = RegistrationState {
        server_specs: vec![srv1(), ServerSpec { uuid: "def".to_string(), ..srv1() }],
    };
    let on_disk = two.to_file().unwrap();
    let mode = Mode::Delete { connection: "srv1".to_string() };
    let mut running = run_requested_mode(mode, no_file(), file(&on_disk), port()).unwrap();
    assert_eq!(running.registry.remove(|entry: &ServerSpec| entry.uuid == "abc"), 1);
    match running.operation_done(Err("second removal failed".to_string())) {
        Step::WriteRegistry { text, then } => {
            assert_eq!(
                text,
                r#"{"server_specs":[{"marcv_address":"srv1","uuid":"def","client_chain":"C1","root_cert":"R1"}]}"#
            );
            assert_eq!(
                then.written(Ok(())),
                Step::Exit(Err(Failure::Operation("second removal failed".to_string())))
            );
        }
        other => panic!("{:?}", other),
    }
}

#[test]
fn the_result_of_the_write_settles_what_follows() {
    let done = |registration: bool, operation_error: Option<&str>| Persisting {
        registration,
        operation_error: operation_error.map(|e| e.to_string()),
    };
    assert_eq!(done(true, None).written(Ok(())), Step::ClearLegacyPullMarker);
    assert_eq!(done(false, None).written(Ok(())), Step::Exit(Ok(())));
    for registration in [true, false] {
        assert_eq!(
            done(registration, None).written(Err("disk full".to_string())),
            Step::Exit(Err(Failure::Persist(PersistFailure::Write("disk full".to_string()))))
        );
        assert_eq!(
            done(registration, Some("refused")).written(Ok(())),
            Step::Exit(Err(Failure::Operation("refused".to_string())))
        );
        assert_eq!(
            done(registration, Some("refused")).written(Err("disk full".to_string())),
            Step::Exit(Err(Failure::OperationAndPersist {
                operation: "refused".to_string(),
                persist: PersistFailure::Write("disk full".to_string())
            }))
        );
    }
}

#[test]
fn a_registration_whose_marker_stays_is_reported_and_kept() {
    let mode = Mode::Register(RegistrationArgs {
        server: Some(vec!["srv1".to_string()]),
        package_name: None,
    });
    let mut running = run_requested_mode(mode, no_file(), no_file(), port()).unwrap();
    running.registry.add_server_spec(srv1());
    let (text, then) = match running.operation_done::<String>(Ok(())) {
        Step::WriteRegistry { text, then } => (text, then),
        other => panic!("{:?}", other),
    };
    assert_eq!(then.written(Ok(())), Step::ClearLegacyPullMarker);
    let outcome = marker_cleared(Err("permission denied".to_string()));
    assert_eq!(outcome, Err(Failure::ClearLegacyPullMarker("permission denied".to_string())));
    let failure = outcome.unwrap_err();
    let context = failure.context().unwrap();
    assert_eq!(
        context,
        "Registration successful, but could not delete marker for legacy pull mode"
    );
    assert!(context.contains("Registration successful"));
    assert!(context.contains("could not delete marker"));
    assert_eq!(
        RegistrationState::from_file(Some(&text)).unwrap().server_specs,
        vec![srv1()]
    );
}

#[test]
fn a_marker_that_is_cleared_ends_the_run_well() {
    assert_eq!(marker_cleared::<String>(Ok(())), Ok(()));
}

#[test]
fn only_some_failures_are_reported_under_a_heading() {
    let loading = Some("Error while loading registered connections.");
    let e = || "e".to_string();
    assert_eq!(Failure::ReadRegistry(e()).context(), loading);
    assert_eq!(
        Failure::<String>::ParseRegistry(ParseError::Shape(Defect::NotAnObject { entry: None }))
            .context(),
        loading
    );
    assert_eq!(Failure::ReadConfig(e()).context(), None);
    assert_eq!(
        Failure::<String>::ParseConfig(ParseError::Syntax { message: e() }).context(),
        None
    );
    assert_eq!(Failure::Operation(e()).context(), None);
    assert_eq!(Failure::Persist(PersistFailure::Write(e())).context(), None);
    assert_eq!(
        Failure::OperationAndPersist { operation: e(), persist: PersistFailure::Write(e()) }
            .context(),
        None
    );
}
