use linera_net::LineraNet;
use linera_net::LineraNetConfig;
use linera_net::NetState;
use linera_net::Network;
use linera_net::OrchestratorError;
use linera_net::ScriptedNet;
use linera_net::ScriptedNetConfig;

fn plain_config(validators: usize, shards: usize, protocol: Network) -> ScriptedNetConfig {
    ScriptedNetConfig {
        validators,
        shards,
        protocol,
        fail_config: Vec::new(),
        fail_start: Vec::new(),
    }
}

#[test]
fn instantiate_yields_running_network_and_first_client() {
    let cfg = plain_config(3, 2, Network::Grpc);
    assert!(matches!(cfg.get_network(), Network::Grpc));
    let (mut net, client) = cfg.instantiate().unwrap();
    assert_eq!(client.validator, 0);
    assert_eq!(client.address, "grpc-validator-0");
    assert!(net.ensure_is_running().is_ok());
    assert!(matches!(net.state(), NetState::Running));
    assert_eq!(net.list_resources().len(), 6);
}

#[test]
fn four_by_two_simple_tcp_full_lifecycle() {
    let cfg = plain_config(4, 2, Network::Simple);
    let (mut net, client) = cfg.instantiate().unwrap();
    assert_eq!(client.address, "tcp-validator-0");
    assert!(net.ensure_is_running().is_ok());
    assert!(matches!(net.state(), NetState::Running));
    assert_eq!(net.list_resources().len(), 8);

    net.terminate_server(2, 1).unwrap();
    assert!(matches!(net.state(), NetState::Degraded));
    assert_eq!(net.list_resources().len(), 7);

    net.start_server(2, 1).unwrap();
    assert!(matches!(net.state(), NetState::Running));
    assert_eq!(net.list_resources().len(), 8);

    net.terminate().unwrap();
    assert!(matches!(net.state(), NetState::Terminated));
    assert!(net.list_resources().is_empty());
}

#[test]
fn instantiate_rolls_back_when_a_validator_fails_to_start() {
    let cfg = ScriptedNetConfig {
        validators: 5,
        shards: 1,
        protocol: Network::Grpc,
        fail_config: Vec::new(),
        fail_start: vec![(2, 0)],
    };
    let r = cfg.instantiate();
    assert!(matches!(
        r,
        Err(OrchestratorError::BackendCommandFailure { validator: 2, shard: 0 })
    ));
    let cfg2 = ScriptedNetConfig {
        validators: 5,
        shards: 1,
        protocol: Network::Grpc,
        fail_config: Vec::new(),
        fail_start: vec![(2, 0)],
    };
    let mut net = ScriptedNet::new_stopped(cfg2);
    let e = net.boot().unwrap_err();
    assert!(matches!(
        e,
        OrchestratorError::BackendCommandFailure { validator: 2, shard: 0 }
    ));
    assert!(net.list_resources().is_empty());
}

#[test]
fn instantiate_fails_when_a_config_artifact_fails() {
    let cfg = ScriptedNetConfig {
        validators: 3,
        shards: 1,
        protocol: Network::Simple,
        fail_config: vec![1],
        fail_start: Vec::new(),
    };
    let r = cfg.instantiate();
    assert!(matches!(
        r,
        Err(OrchestratorError::ConfigGenerationFailure { validator: 1 })
    ));
}

#[test]
fn terminate_is_idempotent_safe() {
    let cfg = plain_config(2, 2, Network::Simple);
    let (mut net, _client) = cfg.instantiate().unwrap();
    net.terminate().unwrap();
    assert!(matches!(net.state(), NetState::Terminated));
    assert!(net.list_resources().is_empty());
    net.terminate().unwrap();
    assert!(matches!(net.state(), NetState::Terminated));
    assert!(net.list_resources().is_empty());
}

#[test]
fn start_then_stop_restores_bookkeeping() {
    let cfg = plain_config(2, 2, Network::Grpc);
    let (mut net, _client) = cfg.instantiate().unwrap();
    net.terminate_server(1, 0).unwrap();
    let before = net.list_resources();
    let state_before = net.state();

    net.start_server(1, 0).unwrap();
    net.terminate_server(1, 0).unwrap();

    assert_eq!(net.list_resources(), before);
    assert_eq!(net.state(), state_before);
}

#[test]
fn removed_validator_index_is_never_reused() {
    let cfg = plain_config(3, 1, Network::Simple);
    let (mut net, _client) = cfg.instantiate().unwrap();
    net.remove_validator(1).unwrap();

    assert!(net.validator_name(1).is_none());
    assert!(matches!(
        net.start_server(1, 0),
        Err(OrchestratorError::ValidatorNotFound { validator: 1 })
    ));
    assert!(matches!(
        net.terminate_server(1, 0),
        Err(OrchestratorError::ValidatorNotFound { validator: 1 })
    ));
    assert!(matches!(
        net.generate_validator_config(1),
        Err(OrchestratorError::ValidatorNotFound { validator: 1 })
    ));
    assert!(matches!(
        net.start_validator(1),
        Err(OrchestratorError::ValidatorNotFound { validator: 1 })
    ));
    assert!(matches!(
        net.remove_validator(1),
        Err(OrchestratorError::ValidatorNotFound { validator: 1 })
    ));

    assert_eq!(net.validator_name(0).unwrap(), "tcp-validator-0");
    assert_eq!(net.validator_name(2).unwrap(), "tcp-validator-2");
    assert_eq!(net.list_resources(), vec![(0, 0), (2, 0)]);
}

#[test]
fn lookup_of_unknown_index_is_absent() {
    let cfg = plain_config(2, 1, Network::Grpc);
    let (net, _client) = cfg.instantiate().unwrap();
    assert!(net.validator_name(7).is_none());
}

#[test]
fn validator_names_embed_tag_and_decimal_index() {
    let cfg = plain_config(13, 1, Network::Grpc);
    let (net, _client) = cfg.instantiate().unwrap();
    assert_eq!(net.validator_name(0).unwrap(), "grpc-validator-0");
    assert_eq!(net.validator_name(9).unwrap(), "grpc-validator-9");
    assert_eq!(net.validator_name(12).unwrap(), "grpc-validator-12");
}

#[test]
fn make_client_targets_first_fully_running_validator() {
    let cfg = plain_config(3, 1, Network::Simple);
    let (mut net, _client) = cfg.instantiate().unwrap();
    net.terminate_server(0, 0).unwrap();
    let c = net.make_client();
    assert_eq!(c.validator, 1);
    assert_eq!(c.address, "tcp-validator-1");
}

#[test]
fn start_validator_is_idempotent_over_running_shards() {
    let cfg = plain_config(2, 3, Network::Simple);
    let (mut net, _client) = cfg.instantiate().unwrap();
    net.terminate_server(0, 1).unwrap();
    net.terminate_server(0, 2).unwrap();
    assert!(matches!(net.state(), NetState::Degraded));
    net.start_validator(0).unwrap();
    assert!(matches!(net.state(), NetState::Running));
    assert_eq!(net.list_resources().len(), 6);
}
