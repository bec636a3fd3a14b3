//! The failures that the user sees.
use vstd::prelude::*;

verus! {

/// A failure. Each has one fixed message, which holds nothing of what the service, the browser or
/// the system said.
#[derive(Clone, Copy, Debug, PartialEq, Eq, Structural)]
pub enum AiPassError {
    ClockUnavailable,
    KeychainUnavailable,
    KeychainInvalid,
    KeychainNotPrepared,
    KeychainTooLarge,
    KeychainNotSaved,
    KeychainNotCleared,
    MetadataInvalid,
    MetadataRejected,
    MetadataUnavailable,
    ResponseTooLarge,
    ResponseTimedOut,
    ResponseUnreadable,
    AuthorizationEndpointInvalid,
    CallbackTooLarge,
    CallbackInvalid,
    CallbackPathInvalid,
    CallbackStateMismatch,
    CallbackResponseInvalid,
    CallbackRequestTimedOut,
    CallbackUnreadable,
    ConnectionTimedOut,
    CallbackListenerFailed,
    TokenResponseInvalid,
    AccessTokenInvalid,
    RefreshTokenInvalid,
    RefreshTokenMissing,
    TokenTypeUnsupported,
    TokenLifetimeInvalid,
    ScopeInvalid,
    ScopeMissing,
    ScopeNotGranted,
    ExchangeFailed,
    ExchangeRejected,
    ProfileInvalid,
    ProfileUnavailable,
    ProfileRejected,
    AlreadyConnected,
    NotConfigured,
    CallbackNotStarted,
    CallbackNotInspected,
    AuthorizationPageNotOpened,
    AuthorizationNotApproved,
    NotConnected,
    RefreshFailed,
    ConnectionExpired,
    ModelListInvalid,
    TooManyModels,
    ModelEntryInvalid,
    ModelIdInvalid,
    NoModels,
    ModelsFailed,
    ModelsRejected,
    ChatTooLarge,
    ChatInvalid,
    ChatFailed,
    RequestCancelled,
    ErrorReplyNotPrepared,
    ConsumerClosed,
    StreamFailed,
    StreamTimeLimit,
    RequestIdInvalid,
    RequestIdActive,
    TooManyRequests,
}

impl AiPassError {
    /// The text of the message.
    pub open spec fn text(self) -> Seq<char> {
        match self {
            AiPassError::ClockUnavailable => "system clock is unavailable"@,
            AiPassError::KeychainUnavailable => "AI Pass credentials are unavailable in Keychain"@,
            AiPassError::KeychainInvalid => "AI Pass credentials in Keychain are invalid"@,
            AiPassError::KeychainNotPrepared => "could not prepare AI Pass credentials for Keychain"@,
            AiPassError::KeychainTooLarge => "AI Pass credentials are too large"@,
            AiPassError::KeychainNotSaved => "could not save AI Pass credentials in Keychain"@,
            AiPassError::KeychainNotCleared => "could not clear AI Pass credentials from Keychain"@,
            AiPassError::MetadataInvalid => "AI Pass OAuth metadata is invalid"@,
            AiPassError::MetadataRejected => "AI Pass OAuth metadata did not pass validation"@,
            AiPassError::MetadataUnavailable => "AI Pass OAuth metadata is unavailable"@,
            AiPassError::ResponseTooLarge => "AI Pass response exceeded the size limit"@,
            AiPassError::ResponseTimedOut => "AI Pass response timed out"@,
            AiPassError::ResponseUnreadable => "AI Pass response could not be read"@,
            AiPassError::AuthorizationEndpointInvalid => "AI Pass authorization endpoint is invalid"@,
            AiPassError::CallbackTooLarge => "OAuth callback request is too large"@,
            AiPassError::CallbackInvalid => "OAuth callback request is invalid"@,
            AiPassError::CallbackPathInvalid => "OAuth callback path is invalid"@,
            AiPassError::CallbackStateMismatch => "OAuth callback state did not match"@,
            AiPassError::CallbackResponseInvalid => "OAuth callback response is invalid"@,
            AiPassError::CallbackRequestTimedOut => "OAuth callback request timed out"@,
            AiPassError::CallbackUnreadable => "OAuth callback request could not be read"@,
            AiPassError::ConnectionTimedOut => "AI Pass connection timed out"@,
            AiPassError::CallbackListenerFailed => "AI Pass callback listener failed"@,
            AiPassError::TokenResponseInvalid => "AI Pass token response is invalid"@,
            AiPassError::AccessTokenInvalid => "AI Pass returned an invalid access token"@,
            AiPassError::RefreshTokenInvalid => "AI Pass returned an invalid refresh token"@,
            AiPassError::RefreshTokenMissing => "AI Pass did not return a refresh token"@,
            AiPassError::TokenTypeUnsupported => "AI Pass returned an unsupported token type"@,
            AiPassError::TokenLifetimeInvalid => "AI Pass returned an invalid token lifetime"@,
            AiPassError::ScopeInvalid => "AI Pass token scope is invalid"@,
            AiPassError::ScopeMissing => "AI Pass token scope is missing"@,
            AiPassError::ScopeNotGranted => "AI Pass did not grant the required scopes"@,
            AiPassError::ExchangeFailed => "AI Pass token exchange failed"@,
            AiPassError::ExchangeRejected => "AI Pass token exchange was rejected"@,
            AiPassError::ProfileInvalid => "AI Pass user profile is invalid"@,
            AiPassError::ProfileUnavailable => "AI Pass user profile is unavailable"@,
            AiPassError::ProfileRejected => "AI Pass user profile request was rejected"@,
            AiPassError::AlreadyConnected => "AI Pass is already connected; disconnect it first"@,
            AiPassError::NotConfigured => "AI Pass is not configured in this build"@,
            AiPassError::CallbackNotStarted => "could not start the local OAuth callback"@,
            AiPassError::CallbackNotInspected => "could not inspect the local OAuth callback"@,
            AiPassError::AuthorizationPageNotOpened => "could not open the AI Pass authorization page"@,
            AiPassError::AuthorizationNotApproved => "AI Pass authorization was not approved"@,
            AiPassError::NotConnected => "Connect AI Pass in Settings first"@,
            AiPassError::RefreshFailed => "AI Pass session refresh failed"@,
            AiPassError::ConnectionExpired => "AI Pass connection expired; connect it again in Settings"@,
            AiPassError::ModelListInvalid => "AI Pass model list is invalid"@,
            AiPassError::TooManyModels => "AI Pass returned too many models"@,
            AiPassError::ModelEntryInvalid => "AI Pass model entry is invalid"@,
            AiPassError::ModelIdInvalid => "AI Pass model id is invalid"@,
            AiPassError::NoModels => "AI Pass returned no models"@,
            AiPassError::ModelsFailed => "AI Pass model discovery failed"@,
            AiPassError::ModelsRejected => "AI Pass model discovery was rejected"@,
            AiPassError::ChatTooLarge => "AI Pass chat request exceeded the size limit"@,
            AiPassError::ChatInvalid => "AI Pass chat request is invalid"@,
            AiPassError::ChatFailed => "AI Pass chat request failed"@,
            AiPassError::RequestCancelled => "AI Pass request cancelled"@,
            AiPassError::ErrorReplyNotPrepared => "could not prepare the AI Pass error response"@,
            AiPassError::ConsumerClosed => "AI Pass response consumer closed"@,
            AiPassError::StreamFailed => "AI Pass response stream failed"@,
            AiPassError::StreamTimeLimit => "AI Pass response exceeded the time limit"@,
            AiPassError::RequestIdInvalid => "AI Pass request id is invalid"@,
            AiPassError::RequestIdActive => "AI Pass request id is already active"@,
            AiPassError::TooManyRequests => "Too many AI Pass requests are active"@,
        }
    }

    /// The message for the user.
    pub fn message(self) -> (r: &'static str)
        ensures
            r@ == self.text(),
    {
        match self {
            AiPassError::ClockUnavailable => "system clock is unavailable",
            AiPassError::KeychainUnavailable => "AI Pass credentials are unavailable in Keychain",
            AiPassError::KeychainInvalid => "AI Pass credentials in Keychain are invalid",
            AiPassError::KeychainNotPrepared => "could not prepare AI Pass credentials for Keychain",
            AiPassError::KeychainTooLarge => "AI Pass credentials are too large",
            AiPassError::KeychainNotSaved => "could not save AI Pass credentials in Keychain",
            AiPassError::KeychainNotCleared => "could not clear AI Pass credentials from Keychain",
            AiPassError::MetadataInvalid => "AI Pass OAuth metadata is invalid",
            AiPassError::MetadataRejected => "AI Pass OAuth metadata did not pass validation",
            AiPassError::MetadataUnavailable => "AI Pass OAuth metadata is unavailable",
            AiPassError::ResponseTooLarge => "AI Pass response exceeded the size limit",
            AiPassError::ResponseTimedOut => "AI Pass response timed out",
            AiPassError::ResponseUnreadable => "AI Pass response could not be read",
            AiPassError::AuthorizationEndpointInvalid => "AI Pass authorization endpoint is invalid",
            AiPassError::CallbackTooLarge => "OAuth callback request is too large",
            AiPassError::CallbackInvalid => "OAuth callback request is invalid",
            AiPassError::CallbackPathInvalid => "OAuth callback path is invalid",
            AiPassError::CallbackStateMismatch => "OAuth callback state did not match",
            AiPassError::CallbackResponseInvalid => "OAuth callback response is invalid",
            AiPassError::CallbackRequestTimedOut => "OAuth callback request timed out",
            AiPassError::CallbackUnreadable => "OAuth callback request could not be read",
            AiPassError::ConnectionTimedOut => "AI Pass connection timed out",
            AiPassError::CallbackListenerFailed => "AI Pass callback listener failed",
            AiPassError::TokenResponseInvalid => "AI Pass token response is invalid",
            AiPassError::AccessTokenInvalid => "AI Pass returned an invalid access token",
            AiPassError::RefreshTokenInvalid => "AI Pass returned an invalid refresh token",
            AiPassError::RefreshTokenMissing => "AI Pass did not return a refresh token",
            AiPassError::TokenTypeUnsupported => "AI Pass returned an unsupported token type",
            AiPassError::TokenLifetimeInvalid => "AI Pass returned an invalid token lifetime",
            AiPassError::ScopeInvalid => "AI Pass token scope is invalid",
            AiPassError::ScopeMissing => "AI Pass token scope is missing",
            AiPassError::ScopeNotGranted => "AI Pass did not grant the required scopes",
            AiPassError::ExchangeFailed => "AI Pass token exchange failed",
            AiPassError::ExchangeRejected => "AI Pass token exchange was rejected",
            AiPassError::ProfileInvalid => "AI Pass user profile is invalid",
            AiPassError::ProfileUnavailable => "AI Pass user profile is unavailable",
            AiPassError::ProfileRejected => "AI Pass user profile request was rejected",
            AiPassError::AlreadyConnected => "AI Pass is already connected; disconnect it first",
            AiPassError::NotConfigured => "AI Pass is not configured in this build",
            AiPassError::CallbackNotStarted => "could not start the local OAuth callback",
            AiPassError::CallbackNotInspected => "could not inspect the local OAuth callback",
            AiPassError::AuthorizationPageNotOpened => "could not open the AI Pass authorization page",
            AiPassError::AuthorizationNotApproved => "AI Pass authorization was not approved",
            AiPassError::NotConnected => "Connect AI Pass in Settings first",
            AiPassError::RefreshFailed => "AI Pass session refresh failed",
            AiPassError::ConnectionExpired => "AI Pass connection expired; connect it again in Settings",
            AiPassError::ModelListInvalid => "AI Pass model list is invalid",
            AiPassError::TooManyModels => "AI Pass returned too many models",
            AiPassError::ModelEntryInvalid => "AI Pass model entry is invalid",
            AiPassError::ModelIdInvalid => "AI Pass model id is invalid",
            AiPassError::NoModels => "AI Pass returned no models",
            AiPassError::ModelsFailed => "AI Pass model discovery failed",
            AiPassError::ModelsRejected => "AI Pass model discovery was rejected",
            AiPassError::ChatTooLarge => "AI Pass chat request exceeded the size limit",
            AiPassError::ChatInvalid => "AI Pass chat request is invalid",
            AiPassError::ChatFailed => "AI Pass chat request failed",
            AiPassError::RequestCancelled => "AI Pass request cancelled",
            AiPassError::ErrorReplyNotPrepared => "could not prepare the AI Pass error response",
            AiPassError::ConsumerClosed => "AI Pass response consumer closed",
            AiPassError::StreamFailed => "AI Pass response stream failed",
            AiPassError::StreamTimeLimit => "AI Pass response exceeded the time limit",
            AiPassError::RequestIdInvalid => "AI Pass request id is invalid",
            AiPassError::RequestIdActive => "AI Pass request id is already active",
            AiPassError::TooManyRequests => "Too many AI Pass requests are active",
        }
    }
}

/// A result with its value taken by its view.
pub open spec fn viewed<T: View>(r: Result<T, AiPassError>) -> Result<T::V, AiPassError> {
    match r {
        Ok(value) => Ok(value@),
        Err(error) => Err(error),
    }
}

/// The view of a result keeps success and failure apart, and each as it is.
pub proof fn view_of_result_keeps_it<T: View>(value: T, error: AiPassError)
    ensures
        viewed(Ok::<T, AiPassError>(value)) == Ok::<T::V, AiPassError>(value@),
        viewed(Err::<T, AiPassError>(error)) == Err::<T::V, AiPassError>(error),
{
}

} // verus!
