use crate::error::WebhookError;
use crate::json::{
    bool_value, json_bool, json_member, json_node_of, json_string, member, parse_node, string_value,
};
use vstd::prelude::*;
use vstd::string::StringExecFns;

verus! {

/// The fields of a pull-request webhook that decide what happens.
#[derive(Debug, Clone, PartialEq, Eq)]
pub struct PullRequestEvent {
    /// The event's `action`, such as `opened` or `closed`.
    pub action: String,
    /// The repository's `full_name`.
    pub repository: String,
    /// `pull_request.merged`, where it is a boolean.
    pub merged: Option<bool>,
}

pub struct EventView {
    pub action: Seq<char>,
    pub repository: Seq<char>,
    pub merged: Option<bool>,
}

impl View for PullRequestEvent {
    type V = EventView;

    open spec fn view(&self) -> EventView {
        EventView { action: self.action@, repository: self.repository@, merged: self.merged }
    }
}

/// The action that closes a pull request.
pub open spec fn closed_action() -> Seq<char> {
    "closed"@
}

impl EventView {
    pub open spec fn is_closed(&self) -> bool {
        self.action == closed_action()
    }

    /// An absent or non-boolean `merged` counts as not merged.
    pub open spec fn is_merged(&self) -> bool {
        self.merged == Some(true)
    }
}

/// The string member `key` of the object that `text` holds.
pub open spec fn string_member(text: Seq<u8>, key: Seq<char>) -> Option<Seq<char>> {
    match json_member(text, key) {
        Some(m) => json_string(m),
        None => None,
    }
}

/// `merged` of a `pull_request` object, where it is a boolean.
pub open spec fn merged_flag(pull_request: Seq<u8>) -> Option<bool> {
    match json_member(pull_request, "merged"@) {
        Some(m) => json_bool(m),
        None => None,
    }
}

/// The event a webhook body describes, or why it describes none. The fields
/// are read in the order `action`, `pull_request`, `repository.full_name`.
pub open spec fn event_of(body: Seq<u8>) -> Result<EventView, WebhookError> {
    if json_node_of(body) is None {
        Err(WebhookError::MalformedJson)
    } else {
        match string_member(body, "action"@) {
            None => Err(WebhookError::MissingAction),
            Some(action) => match json_member(body, "pull_request"@) {
                None => Err(WebhookError::MissingPullRequest),
                Some(pr) => match json_member(body, "repository"@) {
                    None => Err(WebhookError::MissingRepository),
                    Some(repo) => match string_member(repo, "full_name"@) {
                        None => Err(WebhookError::MissingRepository),
                        Some(name) => Ok(
                            EventView { action, repository: name, merged: merged_flag(pr) },
                        ),
                    },
                },
            },
        }
    }
}

pub open spec fn event_result_view(r: Result<PullRequestEvent, WebhookError>) -> Result<
    EventView,
    WebhookError,
> {
    match r {
        Ok(e) => Ok(e@),
        Err(x) => Err(x),
    }
}

impl PullRequestEvent {
    /// Whether the pull request was closed.
    pub fn is_closed(&self) -> (r: bool)
        ensures
            r == self@.is_closed(),
    {
        let closed = String::from_str("closed");
        self.action.eq(&closed)
    }

    /// Whether the pull request was merged.
    pub fn is_merged(&self) -> (r: bool)
        ensures
            r == self@.is_merged(),
    {
        match self.merged {
            Some(b) => b,
            None => false,
        }
    }
}

/// The string member `key` of the object that `text` holds.
fn string_field(text: &[u8], key: &str) -> (r: Option<String>)
    ensures
        match r {
            Some(s) => string_member(text@, key@) == Some(s@),
            None => string_member(text@, key@) is None,
        },
{
    let node = parse_node(text);
    match member(&node, key) {
        None => None,
        Some(m) => string_value(m.as_slice()),
    }
}

/// Reads the deciding fields of a webhook body.
pub fn parse_event(body: &[u8]) -> (r: Result<PullRequestEvent, WebhookError>)
    ensures
        event_result_view(r) == event_of(body@),
{
    let node = parse_node(body);
    if node.is_none() {
        return Err(WebhookError::MalformedJson);
    }
    let action = match string_field(body, "action") {
        None => {
            return Err(WebhookError::MissingAction);
        },
        Some(a) => a,
    };
    let pr = match member(&node, "pull_request") {
        None => {
            return Err(WebhookError::MissingPullRequest);
        },
        Some(p) => p,
    };
    let repo = match member(&node, "repository") {
        None => {
            return Err(WebhookError::MissingRepository);
        },
        Some(p) => p,
    };
    let repository = match string_field(repo.as_slice(), "full_name") {
        None => {
            return Err(WebhookError::MissingRepository);
        },
        Some(n) => n,
    };
    let pr_node = parse_node(pr.as_slice());
    let merged = match member(&pr_node, "merged") {
        None => None,
        Some(m) => bool_value(m.as_slice()),
    };
    Ok(PullRequestEvent { action, repository, merged })
}

} // verus!
