use event_core::endpoint::assemble_endpoint;
use event_core::endpoint::parse_intake;
use event_core::endpoint::EndpointError;

#[test]
fn well_formed_intake_yields_host_and_port() {
    let ep = parse_intake("http://localhost:8126").unwrap();
    assert_eq!(ep.host, "localhost");
    assert_eq!(ep.port, 8126);
    let ep = parse_intake("https://agent.example.com:8443/v0.4/traces").unwrap();
    assert_eq!(ep.host, "agent.example.com");
    assert_eq!(ep.port, 8443);
}

#[test]
fn malformed_intake_is_invalid_url() {
    assert_eq!(parse_intake("not a url").unwrap_err(), EndpointError::InvalidUrl);
    assert_eq!(parse_intake("").unwrap_err(), EndpointError::InvalidUrl);
}

#[test]
fn hostless_url_is_missing_host() {
    assert_eq!(parse_intake("data:text/plain,x").unwrap_err(), EndpointError::MissingHost);
}

#[test]
fn portless_url_is_missing_port() {
    assert_eq!(parse_intake("http://localhost").unwrap_err(), EndpointError::MissingPort);
}

#[test]
fn assembly_reports_the_first_missing_part() {
    assert_eq!(
        assemble_endpoint(None, Some(1)).unwrap_err(),
        EndpointError::MissingHost,
    );
    assert_eq!(
        assemble_endpoint(Some("h".to_string()), None).unwrap_err(),
        EndpointError::MissingPort,
    );
    let ep = assemble_endpoint(Some("h".to_string()), Some(9)).unwrap();
    assert_eq!(ep.host, "h");
    assert_eq!(ep.port, 9);
}
