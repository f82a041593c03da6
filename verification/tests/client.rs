use openclaw_openai_gateway::transport::{OpenClawWsClient, OpenClawWsTransportMode};

#[test]
fn from_str_defaults_to_mock_and_accepts_real() {
    assert_eq!(OpenClawWsTransportMode::from_str("real"), OpenClawWsTransportMode::Real);
    assert_eq!(OpenClawWsTransportMode::from_str("REAL"), OpenClawWsTransportMode::Real);
    assert_eq!(OpenClawWsTransportMode::from_str(" mock "), OpenClawWsTransportMode::Mock);
    assert_eq!(OpenClawWsTransportMode::from_str("anything-else"), OpenClawWsTransportMode::Mock);
}

#[test]
fn new_keeps_transport_mode() {
    let client = OpenClawWsClient::new("ws://127.0.0.1:1".into(), 25, OpenClawWsTransportMode::Real);
    assert_eq!(client.mode, OpenClawWsTransportMode::Real);
}

#[test]
fn from_str_trims_surrounding_whitespace_around_real() {
    assert_eq!(OpenClawWsTransportMode::from_str("\t Real \n"), OpenClawWsTransportMode::Real);
    assert_eq!(OpenClawWsTransportMode::from_str("re al"), OpenClawWsTransportMode::Mock);
    assert_eq!(OpenClawWsTransportMode::from_str(""), OpenClawWsTransportMode::Mock);
}
