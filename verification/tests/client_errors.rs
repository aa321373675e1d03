use downloader::error::{ConfigFault, ClientError, ProtocolFault};

#[test]
fn message_of_missing_credentials() {
    let failure = ClientError::ConfigError(ConfigFault::MissingCredentials);
    assert_eq!(failure.message(), "Username and password is missing.");
}

#[test]
fn message_of_a_malformed_token() {
    let failure = ClientError::ConfigError(ConfigFault::MalformedToken);
    assert_eq!(failure.message(), "Token is not a valid header value.");
}

#[test]
fn message_of_a_transport_failure_is_its_cause() {
    let failure = ClientError::TransportError("connection refused".to_string());
    assert_eq!(failure.message(), "connection refused");
}

#[test]
fn message_of_an_auth_failure_carries_the_status() {
    assert_eq!(
        ClientError::AuthError(401).message(),
        "Failed to retrieve token. Response code: 401"
    );
    assert_eq!(
        ClientError::AuthError(503).message(),
        "Failed to retrieve token. Response code: 503"
    );
}

#[test]
fn message_of_an_api_failure_carries_the_status() {
    assert_eq!(ClientError::ApiError(500).message(), "Failed to retrieve days. Response code: 500");
    assert_eq!(ClientError::ApiError(0).message(), "Failed to retrieve days. Response code: 0");
    assert_eq!(
        ClientError::ApiError(u16::MAX).message(),
        "Failed to retrieve days. Response code: 65535"
    );
}

#[test]
fn messages_of_protocol_failures() {
    assert_eq!(
        ClientError::ProtocolError(ProtocolFault::NotJson).message(),
        "Response body is not valid JSON."
    );
    assert_eq!(
        ClientError::ProtocolError(ProtocolFault::NoAccessToken).message(),
        "Response has no string field access_token."
    );
    assert_eq!(
        ClientError::ProtocolError(ProtocolFault::NoDays).message(),
        "Response has no array field days."
    );
}
