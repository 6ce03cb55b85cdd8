use vstd::prelude::*;
use vstd::string::StringExecFns;

verus! {

/// Every way a webhook request can be refused, with its HTTP status.
#[derive(Debug, Clone, PartialEq, Eq)]
pub enum WebhookError {
    /// The signature header is absent.
    MissingSignature,
    /// The signature header is not visible ASCII text.
    UndecodableSignature,
    /// The shared secret could not be loaded or used.
    SecretUnavailable,
    /// The received signature differs from the computed one.
    SignatureMismatch,
    /// The body is not JSON.
    MalformedJson,
    /// The body carries no string `action`.
    MissingAction,
    /// The body carries no `pull_request` member.
    MissingPullRequest,
    /// The body carries no string `repository.full_name`.
    MissingRepository,
    /// The named repository has no deployment target.
    UnconfiguredRepository(String),
}

/// HTTP status of an authentication failure.
pub const STATUS_FORBIDDEN: u16 = 403;
/// HTTP status of a malformed or unusable payload.
pub const STATUS_BAD_REQUEST: u16 = 400;
/// HTTP status of a configuration failure.
pub const STATUS_SERVER_ERROR: u16 = 500;
/// HTTP status of an accepted request.
pub const STATUS_OK: u16 = 200;

impl WebhookError {
    pub open spec fn is_auth_error(&self) -> bool {
        self is MissingSignature || self is UndecodableSignature || self is SignatureMismatch
    }

    pub open spec fn is_validation_error(&self) -> bool {
        self is MalformedJson || self is MissingAction || self is MissingPullRequest
            || self is MissingRepository || self is UnconfiguredRepository
    }

    pub open spec fn status_spec(&self) -> u16 {
        if self.is_auth_error() {
            STATUS_FORBIDDEN
        } else if self.is_validation_error() {
            STATUS_BAD_REQUEST
        } else {
            STATUS_SERVER_ERROR
        }
    }

    pub open spec fn message_spec(&self) -> Seq<char> {
        match self {
            WebhookError::MissingSignature => "Required header not provided."@,
            WebhookError::UndecodableSignature => "Unable to decode signature header."@,
            WebhookError::SecretUnavailable => "Unable to verify token."@,
            WebhookError::SignatureMismatch => "Invalid token."@,
            WebhookError::MalformedJson => "Unable to get body of request as json."@,
            WebhookError::MissingAction => "Unable to get 'action' field from webhook body."@,
            WebhookError::MissingPullRequest => "Unable to get 'pull_request' field from webhook body."@,
            WebhookError::MissingRepository => "Unable to get repository field from webhook."@,
            WebhookError::UnconfiguredRepository(name) => name@
                + " is not configured for automated deployment."@,
        }
    }

    /// The HTTP status this error is answered with.
    pub fn status_code(&self) -> (r: u16)
        ensures
            r == self.status_spec(),
    {
        match self {
            WebhookError::MissingSignature
            | WebhookError::UndecodableSignature
            | WebhookError::SignatureMismatch => STATUS_FORBIDDEN,
            WebhookError::SecretUnavailable => STATUS_SERVER_ERROR,
            _ => STATUS_BAD_REQUEST,
        }
    }

    /// The message sent back to the caller.
    pub fn message(&self) -> (r: String)
        ensures
            r@ == self.message_spec(),
    {
        match self {
            WebhookError::MissingSignature => String::from_str("Required header not provided."),
            WebhookError::UndecodableSignature => String::from_str(
                "Unable to decode signature header.",
            ),
            WebhookError::SecretUnavailable => String::from_str("Unable to verify token."),
            WebhookError::SignatureMismatch => String::from_str("Invalid token."),
            WebhookError::MalformedJson => String::from_str(
                "Unable to get body of request as json.",
            ),
            WebhookError::MissingAction => String::from_str(
                "Unable to get 'action' field from webhook body.",
            ),
            WebhookError::MissingPullRequest => String::from_str(
                "Unable to get 'pull_request' field from webhook body.",
            ),
            WebhookError::MissingRepository => String::from_str(
                "Unable to get repository field from webhook.",
            ),
            WebhookError::UnconfiguredRepository(name) => {
                let mut m = name.clone();
                m.append(" is not configured for automated deployment.");
                m
            },
        }
    }
}

} // verus!
