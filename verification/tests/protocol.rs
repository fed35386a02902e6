use linera_net::Network;

#[test]
fn grpc_wire_config_strings() {
    let n = Network::Grpc;
    assert_eq!(n.internal(), "{ Grpc = \"ClearText\" }");
    assert_eq!(n.external(), "{ Grpc = \"ClearText\" }");
    assert_eq!(n.external_short(), "grpc");
}

#[test]
fn simple_wire_config_strings() {
    let n = Network::Simple;
    assert_eq!(n.internal(), "{ Simple = \"Tcp\" }");
    assert_eq!(n.external(), "{ Simple = \"Tcp\" }");
    assert_eq!(n.external_short(), "tcp");
}

#[test]
fn internal_and_external_coincide() {
    for n in [Network::Grpc, Network::Simple] {
        assert_eq!(n.internal(), n.external());
    }
}

#[test]
fn representations_are_deterministic() {
    for n in [Network::Grpc, Network::Simple] {
        assert_eq!(n.internal(), n.internal());
        assert_eq!(n.external(), n.external());
        assert_eq!(n.external_short(), n.external_short());
    }
}

#[test]
fn short_tags_identify_the_variant() {
    assert_ne!(Network::Grpc.external_short(), Network::Simple.external_short());
}
