use cmk_agent_ctl::config::{RegistrationState, ServerSpec};
use cmk_agent_ctl::daemon::{daemon, Daemon, Decision, Event, Transport};

type Outcome = Result<(), String>;

fn failed(why: &str) -> Outcome {
    Err(why.to_string())
}

#[test]
fn a_new_daemon_waits() {
    assert_eq!(Daemon::<Outcome>::new(), Daemon::Waiting);
    assert_eq!(Daemon::<Outcome>::new().decide(), Decision::Wait);
}

#[test]
fn the_daemon_ends_with_the_push_result_when_push_ends_first() {
    let state = Daemon::new()
        .observe(Event::Finished(Transport::Push, failed("push broke")))
        .observe(Event::Finished(Transport::Pull, failed("pull broke")));
    assert_eq!(state, Daemon::Finished(Transport::Push, failed("push broke")));
    assert_eq!(state.decide(), Decision::Exit(failed("push broke")));
}

#[test]
fn the_daemon_ends_with_the_pull_result_when_pull_ends_first() {
    let state = Daemon::new()
        .observe(Event::Finished(Transport::Pull, failed("pull broke")))
        .observe(Event::Finished(Transport::Push, failed("push broke")));
    assert_eq!(state.decide(), Decision::Exit(failed("pull broke")));
}

#[test]
fn a_success_that_comes_first_is_the_outcome_too() {
    for first in [Transport::Push, Transport::Pull] {
        let state: Daemon<Outcome> = Daemon::new()
            .observe(Event::Finished(first, Ok(())))
            .observe(Event::Finished(Transport::Push, failed("late")))
            .observe(Event::Disconnected);
        assert_eq!(state.decide(), Decision::Exit(Ok(())));
    }
}

#[test]
fn the_daemon_gives_up_when_no_transport_can_report() {
    let state: Daemon<Outcome> = Daemon::new().observe(Event::Disconnected);
    assert_eq!(state, Daemon::Failed);
    let state = state.observe(Event::Finished(Transport::Pull, Ok(())));
    assert_eq!(state.decide(), Decision::Abort);
}

#[test]
fn each_transport_gets_a_registry_of_its_own() {
    let entry = ServerSpec {
        marcv_address: "srv1".to_string(),
        uuid: "abc".to_string(),
        client_chain: "C1".to_string(),
        root_cert: "R1".to_string(),
    };
    let registry = RegistrationState { server_specs: vec![entry.clone(), entry.clone()] };
    let mut launch = daemon(registry.clone(), "6556".to_string());
    assert_eq!(launch.registry_for_push, registry);
    assert_eq!(launch.registry_for_pull, registry);
    assert_eq!(launch.port, "6556");
    launch.registry_for_push.remove_all();
    assert_eq!(launch.registry_for_pull, registry);
}
