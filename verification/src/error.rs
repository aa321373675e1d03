//! Why a run fails, and what the operator is told about it.

use crate::text::{decimal, push_decimal};
use vstd::prelude::*;
use vstd::string::StringExecFns;

verus! {

/// What was wrong with the input of a run.
#[derive(Debug, Clone, Copy, PartialEq, Eq)]
pub enum ConfigFault {
    /// No token was given, and the user name or the password is empty.
    MissingCredentials,
    /// The token holds a character that no header value may hold.
    MalformedToken,
}

/// What was wrong with the body of a successful response.
#[derive(Debug, Clone, Copy, PartialEq, Eq)]
pub enum ProtocolFault {
    /// The body is not a JSON text.
    NotJson,
    /// The document has no string member `access_token`.
    NoAccessToken,
    /// The document has no array member `days`.
    NoDays,
}

/// Every way in which a run can fail. No failure is retried.
#[derive(Debug, Clone, PartialEq, Eq)]
pub enum ClientError {
    /// The input is missing or malformed; nothing was sent.
    ConfigError(ConfigFault),
    /// No response arrived; the text describes the cause.
    TransportError(String),
    /// The token endpoint answered with this status outside 200..=299.
    AuthError(u16),
    /// The days endpoint answered with this status outside 200..=299.
    ApiError(u16),
    /// A successful response did not have the expected shape.
    ProtocolError(ProtocolFault),
}

/// The mathematical value of a [`ClientError`].
pub enum ClientErrorView {
    ConfigError(ConfigFault),
    TransportError(Seq<char>),
    AuthError(u16),
    ApiError(u16),
    ProtocolError(ProtocolFault),
}

impl View for ClientError {
    type V = ClientErrorView;

    open spec fn view(&self) -> ClientErrorView {
        match self {
            ClientError::ConfigError(fault) => ClientErrorView::ConfigError(*fault),
            ClientError::TransportError(cause) => ClientErrorView::TransportError(cause@),
            ClientError::AuthError(status) => ClientErrorView::AuthError(*status),
            ClientError::ApiError(status) => ClientErrorView::ApiError(*status),
            ClientError::ProtocolError(fault) => ClientErrorView::ProtocolError(*fault),
        }
    }
}

impl ClientErrorView {
    /// The message of the failure. A status is written as its decimal
    /// numeral; a transport failure is described by its cause alone.
    pub open spec fn message(self) -> Seq<char> {
        match self {
            ClientErrorView::ConfigError(ConfigFault::MissingCredentials) =>
                "Username and password is missing."@,
            ClientErrorView::ConfigError(ConfigFault::MalformedToken) =>
                "Token is not a valid header value."@,
            ClientErrorView::TransportError(cause) => cause,
            ClientErrorView::AuthError(status) =>
                "Failed to retrieve token. Response code: "@ + decimal(status as nat),
            ClientErrorView::ApiError(status) =>
                "Failed to retrieve days. Response code: "@ + decimal(status as nat),
            ClientErrorView::ProtocolError(ProtocolFault::NotJson) =>
                "Response body is not valid JSON."@,
            ClientErrorView::ProtocolError(ProtocolFault::NoAccessToken) =>
                "Response has no string field access_token."@,
            ClientErrorView::ProtocolError(ProtocolFault::NoDays) =>
                "Response has no array field days."@,
        }
    }
}

impl ClientError {
    /// The message of the failure, as the operator reads it.
    pub fn message(&self) -> (text: String)
        ensures
            text@ == self@.message(),
    {
        match self {
            ClientError::ConfigError(ConfigFault::MissingCredentials) => String::from_str(
                "Username and password is missing.",
            ),
            ClientError::ConfigError(ConfigFault::MalformedToken) => String::from_str(
                "Token is not a valid header value.",
            ),
            ClientError::TransportError(cause) => cause.clone(),
            ClientError::AuthError(status) => {
                let mut text = String::from_str("Failed to retrieve token. Response code: ");
                push_decimal(&mut text, *status as u64);
                text
            },
            ClientError::ApiError(status) => {
                let mut text = String::from_str("Failed to retrieve days. Response code: ");
                push_decimal(&mut text, *status as u64);
                text
            },
            ClientError::ProtocolError(ProtocolFault::NotJson) => String::from_str(
                "Response body is not valid JSON.",
            ),
            ClientError::ProtocolError(ProtocolFault::NoAccessToken) => String::from_str(
                "Response has no string field access_token.",
            ),
            ClientError::ProtocolError(ProtocolFault::NoDays) => String::from_str(
                "Response has no array field days.",
            ),
        }
    }
}

} // verus!
