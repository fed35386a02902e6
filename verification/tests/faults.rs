use linera_net::LineraNet;
use linera_net::LineraNetConfig;
use linera_net::NetState;
use linera_net::Network;
use linera_net::OrchestratorError;
use linera_net::RuntimeError;
use linera_net::ScriptedNetConfig;

fn running_net(validators: usize, shards: usize) -> linera_net::ScriptedNet {
    let cfg = ScriptedNetConfig {
        validators,
        shards,
        protocol: Network::Simple,
        fail_config: Vec::new(),
        fail_start: Vec::new(),
    };
    cfg.instantiate().unwrap().0
}

#[test]
fn readiness_timeout_names_the_unready_component() {
    let mut net = running_net(2, 2);
    net.inject_unready(1, 0);
    let e = net.ensure_is_running().unwrap_err();
    assert!(matches!(
        e,
        OrchestratorError::ReadinessTimeout { validator: 1, shard: 0 }
    ));
    assert_eq!(e.message(), "component did not become ready in time");
    assert_eq!(net.list_resources().len(), 4);
}

#[test]
fn failed_stop_is_not_recorded_as_stopped() {
    let mut net = running_net(2, 1);
    net.inject_stop_failure(1, 0);
    let e = net.terminate_server(1, 0).unwrap_err();
    assert!(matches!(
        e,
        OrchestratorError::BackendCommandFailure { validator: 1, shard: 0 }
    ));
    assert_eq!(e.message(), "backend command failed");
    assert_eq!(net.list_resources(), vec![(0, 0), (1, 0)]);
}

#[test]
fn failed_start_is_not_recorded_as_running() {
    let mut net = running_net(2, 1);
    net.terminate_server(0, 0).unwrap();
    net.inject_start_failure(0, 0);
    let e = net.start_server(0, 0).unwrap_err();
    assert!(matches!(
        e,
        OrchestratorError::BackendCommandFailure { validator: 0, shard: 0 }
    ));
    assert_eq!(net.list_resources(), vec![(1, 0)]);
}

#[test]
fn terminate_reports_unreleased_resources_and_still_terminates() {
    let mut net = running_net(2, 2);
    net.inject_stop_failure(1, 1);
    let e = net.terminate().unwrap_err();
    match &e {
        OrchestratorError::PartialTeardownFailure { failed } => {
            assert_eq!(failed, &vec![(1, 1)]);
        },
        _ => panic!("expected a partial teardown failure"),
    }
    assert_eq!(e.message(), "some resources could not be released");
    assert!(matches!(net.state(), NetState::Terminated));
    assert_eq!(net.list_resources(), vec![(1, 1)]);
}

#[test]
fn failed_removal_keeps_the_validator_tracked() {
    let mut net = running_net(3, 2);
    net.inject_stop_failure(1, 0);
    let e = net.remove_validator(1).unwrap_err();
    match &e {
        OrchestratorError::PartialTeardownFailure { failed } => {
            assert_eq!(failed, &vec![(1, 0)]);
        },
        _ => panic!("expected a partial teardown failure"),
    }
    assert_eq!(net.validator_name(1).unwrap(), "tcp-validator-1");
    assert_eq!(net.list_resources(), vec![(0, 0), (0, 1), (1, 0), (2, 0), (2, 1)]);
}

#[test]
fn regenerating_a_config_artifact_can_fail() {
    let mut net = running_net(2, 1);
    net.terminate_server(0, 0).unwrap();
    net.inject_config_failure(0);
    let e = net.generate_validator_config(0).unwrap_err();
    assert!(matches!(
        e,
        OrchestratorError::ConfigGenerationFailure { validator: 0 }
    ));
    assert_eq!(e.message(), "configuration artifact could not be generated");
}

#[test]
fn regenerating_a_config_artifact_succeeds_for_stopped_validator() {
    let mut net = running_net(2, 1);
    net.terminate_server(0, 0).unwrap();
    net.generate_validator_config(0).unwrap();
    net.start_server(0, 0).unwrap();
    assert!(matches!(net.state(), NetState::Running));
}

#[test]
fn start_validator_attempts_all_shards_and_reports_first_failure() {
    let mut net = running_net(1, 3);
    net.terminate_server(0, 0).unwrap();
    net.terminate_server(0, 1).unwrap();
    net.inject_start_failure(0, 0);
    let e = net.start_validator(0).unwrap_err();
    assert!(matches!(
        e,
        OrchestratorError::BackendCommandFailure { validator: 0, shard: 0 }
    ));
    assert_eq!(net.list_resources(), vec![(0, 1), (0, 2)]);
}

#[test]
fn validator_not_found_message() {
    let mut net = running_net(1, 1);
    let e = net.start_server(5, 0).unwrap_err();
    assert_eq!(e.message(), "validator not found");
}

#[test]
fn runtime_error_messages() {
    assert_eq!(
        RuntimeError::AllocationTooLarge.message(),
        "Requested allocation size is too large"
    );
    assert_eq!(RuntimeError::AllocationFailed.message(), "Memory allocation failed");
    assert_eq!(
        RuntimeError::DeallocateInvalidAddress.message(),
        "Attempt to deallocate an invalid address"
    );
    assert_eq!(
        RuntimeError::FunctionNotFound(String::from("entry")).message(),
        "Function could not be found in the module's exports"
    );
    assert_eq!(
        RuntimeError::NotAFunction(String::from("memory")).message(),
        "Export is not a function"
    );
    assert_eq!(
        RuntimeError::InvalidString.message(),
        "Failed to load string from non-UTF-8 bytes"
    );
    assert_eq!(RuntimeError::InvalidNumber.message(), "Invalid address read");
}
