//! The intake endpoint of the exporter collaborator: where collected
//! telemetry is sent.
//!
//! The exporter itself — transport, batching, retries — is an external
//! collaborator behind a narrow send interface and is out of scope here.
//! What does belong to this library is its configuration rule: an intake
//! endpoint string must be a well-formed URL naming both a host and an
//! explicit port, and a malformed one is rejected immediately, as a
//! construction failure fatal to that operation only.

use vstd::prelude::*;

verus! {

/// Why an intake endpoint string was rejected.
#[derive(PartialEq, Eq, Structural, Debug, Clone, Copy)]
pub enum EndpointError {
    /// The string is not a well-formed URL.
    InvalidUrl,
    /// The URL names no host.
    MissingHost,
    /// The URL names no explicit port.
    MissingPort,
}

/// A validated intake endpoint: the host and port the exporter connects to.
#[derive(Debug)]
pub struct IntakeEndpoint {
    pub host: String,
    pub port: u16,
}

/// Names whether `url::Url::parse` accepts a string: the outcome depends on
/// the characters alone.
pub uninterp spec fn url_accepts(s: Seq<char>) -> bool;

/// Names what `url::Url::host_str` reports of a string the URL library
/// accepts: the host part, a function of the characters alone.
pub uninterp spec fn url_host_of(s: Seq<char>) -> Option<Seq<char>>;

/// Names what `url::Url::port` reports of a string the URL library accepts:
/// the explicit port, a function of the characters alone.
pub uninterp spec fn url_port_of(s: Seq<char>) -> Option<u16>;

/// Relies on url's `Url::parse`, `Url::host_str` and `Url::port`: whether
/// the string is a well-formed URL and, if so, its host part and its
/// explicit port. Each outcome depends on the string alone; `host_str` is a
/// slice of the parsed text and `port` a stored field, so neither panics.
#[verifier::external_body]
fn url_parts(intake: &str) -> (r: Option<(Option<String>, Option<u16>)>)
    ensures
        r is Some <==> url_accepts(intake@),
        r matches Some(parts) ==> match parts.0 {
            Some(h) => url_host_of(intake@) == Some(h@),
            None => url_host_of(intake@) is None,
        },
        r matches Some(parts) ==> parts.1 == url_port_of(intake@),
{
    match url::Url::parse(intake) {
        Ok(u) => Some((u.host_str().map(|h| h.to_string()), u.port())),
        Err(_) => None,
    }
}

/// Decides the endpoint from what the URL library reported of a well-formed
/// URL: the host and port when both are present, the exact missing part
/// otherwise — no host outranks no port.
pub fn assemble_endpoint(host: Option<String>, port: Option<u16>) -> (r: Result<
    IntakeEndpoint,
    EndpointError,
>)
    ensures
        host is None ==> r == Err::<IntakeEndpoint, EndpointError>(EndpointError::MissingHost),
        host is Some && port is None ==> r == Err::<IntakeEndpoint, EndpointError>(
            EndpointError::MissingPort,
        ),
        host is Some && port is Some ==> {
            &&& r is Ok
            &&& r matches Ok(ep) && ep.host == host->0 && ep.port == port->0
        },
{
    match host {
        None => Err(EndpointError::MissingHost),
        Some(h) => match port {
            None => Err(EndpointError::MissingPort),
            Some(p) => Ok(IntakeEndpoint { host: h, port: p }),
        },
    }
}

/// Parses an intake endpoint string.
///
/// A string the URL library rejects fails with `InvalidUrl`, and only such
/// a string does. A well-formed URL without a host fails with
/// `MissingHost`; one with a host but no explicit port with `MissingPort`;
/// and one with both yields exactly that host and port.
pub fn parse_intake(intake: &str) -> (r: Result<IntakeEndpoint, EndpointError>)
    ensures
        (r == Err::<IntakeEndpoint, EndpointError>(EndpointError::InvalidUrl)) <==> !url_accepts(
            intake@,
        ),
        url_accepts(intake@) && url_host_of(intake@) is None ==> r == Err::<
            IntakeEndpoint,
            EndpointError,
        >(EndpointError::MissingHost),
        url_accepts(intake@) && url_host_of(intake@) is Some && url_port_of(intake@) is None
            ==> r == Err::<IntakeEndpoint, EndpointError>(EndpointError::MissingPort),
        url_accepts(intake@) && url_host_of(intake@) is Some && url_port_of(intake@) is Some ==> {
            &&& r is Ok
            &&& r matches Ok(ep) && Some(ep.host@) == url_host_of(intake@) && Some(ep.port)
                == url_port_of(intake@)
        },
{
    match url_parts(intake) {
        None => Err(EndpointError::InvalidUrl),
        Some(parts) => {
            let (host, port) = parts;
            assemble_endpoint(host, port)
        },
    }
}

} // verus!
