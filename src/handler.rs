use crate::deploy::DeploymentOutcome;
use crate::error::{WebhookError, STATUS_BAD_REQUEST, STATUS_FORBIDDEN, STATUS_OK};
use crate::event::{event_of, parse_event, EventView};
use crate::notify::{
    deployment_body, deployment_notification, notification_subject, recipient_list, recipient_separator, skip_body, skip_notification,
    split_on, NotificationMessage, NotificationView,
};
use crate::signature::{signature_verdict, verify_signature, view_bytes_opt};
use crate::targets::TargetMapping;
use vstd::prelude::*;
use vstd::string::StringExecFns;

verus! {

/// What the dispatcher is configured with at start.
pub struct DispatcherConfig {
    /// The shared webhook secret, where it could be loaded.
    pub secret: Option<Vec<u8>>,
    /// Which repository redeploys which target.
    pub targets: TargetMapping,
    /// The comma-separated notification recipients.
    pub recipients: String,
}

/// The parts of an inbound webhook delivery the dispatcher reads.
pub struct WebhookRequest {
    /// The raw value of the `X-Hub-Signature-256` header, where present.
    pub signature: Option<Vec<u8>>,
    /// The raw request body.
    pub body: Vec<u8>,
}

/// What to do about one webhook delivery.
#[derive(Debug, Clone, PartialEq, Eq)]
pub enum WebhookDecision {
    /// Answer with the error; nothing else happens.
    Rejected(WebhookError),
    /// The pull request was not closed: answer, and nothing else happens.
    NothingToDo,
    /// The pull request closed without merging: send this notification once
    /// and answer.
    NotMerged(NotificationMessage),
    /// Answer at once, then redeploy `target` in the background and report
    /// the outcome by notification.
    Deploy { repository: String, target: String },
}

pub enum DecisionView {
    Rejected(WebhookError),
    Unconfigured(Seq<char>),
    NothingToDo,
    NotMerged(NotificationView),
    Deploy { repository: Seq<char>, target: Seq<char> },
}

impl View for WebhookDecision {
    type V = DecisionView;

    open spec fn view(&self) -> DecisionView {
        match self {
            WebhookDecision::Rejected(WebhookError::UnconfiguredRepository(name)) => DecisionView::Unconfigured(name@),
            WebhookDecision::Rejected(e) => DecisionView::Rejected(*e),
            WebhookDecision::NothingToDo => DecisionView::NothingToDo,
            WebhookDecision::NotMerged(m) => DecisionView::NotMerged(m@),
            WebhookDecision::Deploy { repository, target } => DecisionView::Deploy {
                repository: repository@,
                target: target@,
            },
        }
    }
}

/// The decision for an authenticated event.
pub open spec fn event_decision(
    targets: Map<Seq<char>, Seq<char>>,
    recipients: Seq<char>,
    ev: EventView,
) -> DecisionView {
    if !ev.is_closed() {
        DecisionView::NothingToDo
    } else if !ev.is_merged() {
        DecisionView::NotMerged(
            NotificationView {
                recipients: split_on(recipients, recipient_separator()),
                subject: notification_subject(),
                body: skip_body(ev.repository),
            },
        )
    } else if targets.contains_key(ev.repository) {
        DecisionView::Deploy { repository: ev.repository, target: targets[ev.repository] }
    } else {
        DecisionView::Unconfigured(ev.repository)
    }
}

/// The decision for a delivery: authentication first, then the payload.
pub open spec fn webhook_decision(
    secret: Option<Seq<u8>>,
    targets: Map<Seq<char>, Seq<char>>,
    recipients: Seq<char>,
    header: Option<Seq<u8>>,
    body: Seq<u8>,
) -> DecisionView {
    match signature_verdict(secret, body, header) {
        Err(e) => DecisionView::Rejected(e),
        Ok(_) => match event_of(body) {
            Err(e) => DecisionView::Rejected(e),
            Ok(ev) => event_decision(targets, recipients, ev),
        },
    }
}

/// The HTTP status a decision is answered with.
pub open spec fn decision_status(d: DecisionView) -> u16 {
    match d {
        DecisionView::Rejected(e) => e.status_spec(),
        DecisionView::Unconfigured(_) => STATUS_BAD_REQUEST,
        _ => STATUS_OK,
    }
}

/// The response text of a decision.
pub open spec fn decision_text(d: DecisionView, recipients: Seq<char>) -> Seq<char> {
    match d {
        DecisionView::Rejected(e) => e.message_spec(),
        DecisionView::Unconfigured(name) => name + " is not configured for automated deployment."@,
        DecisionView::NothingToDo => "Nothing to do."@,
        DecisionView::NotMerged(_) => "Not merged, no deployment attempted."@,
        DecisionView::Deploy { .. } => "Redeployment will be attempted - results will be emailed to "@
            + recipients + "."@,
    }
}

impl DispatcherConfig {
    pub open spec fn wf(&self) -> bool {
        self.targets.wf()
    }
}

/// Decides what to do about one webhook delivery.
pub fn handle_webhook(config: &DispatcherConfig, request: &WebhookRequest) -> (r: WebhookDecision)
    requires
        config.wf(),
    ensures
        r@ == webhook_decision(
            view_bytes_opt(config.secret),
            config.targets@,
            config.recipients@,
            view_bytes_opt(request.signature),
            request.body@,
        ),
{
    match verify_signature(&config.secret, request.body.as_slice(), &request.signature) {
        Err(e) => {
            return WebhookDecision::Rejected(e);
        },
        Ok(()) => {},
    }
    let ev = match parse_event(request.body.as_slice()) {
        Err(e) => {
            return WebhookDecision::Rejected(e);
        },
        Ok(ev) => ev,
    };
    if !ev.is_closed() {
        return WebhookDecision::NothingToDo;
    }
    if !ev.is_merged() {
        let recipients = recipient_list(config.recipients.as_str());
        return WebhookDecision::NotMerged(skip_notification(recipients, &ev.repository));
    }
    match config.targets.resolve(&ev.repository) {
        Ok(target) => WebhookDecision::Deploy { repository: ev.repository, target },
        Err(e) => WebhookDecision::Rejected(e),
    }
}

/// The notification that reports a background redeployment of `repository`
/// to the configured recipients.
pub fn deployment_report(
    config: &DispatcherConfig,
    repository: &String,
    outcome: &DeploymentOutcome,
) -> (r: NotificationMessage)
    ensures
        r@ == (NotificationView {
            recipients: split_on(config.recipients@, recipient_separator()),
            subject: notification_subject(),
            body: deployment_body(repository@, *outcome),
        }),
{
    let recipients = recipient_list(config.recipients.as_str());
    deployment_notification(recipients, repository, outcome)
}

impl WebhookDecision {
    /// The HTTP status this decision is answered with.
    pub fn status_code(&self) -> (r: u16)
        ensures
            r == decision_status(self@),
    {
        match self {
            WebhookDecision::Rejected(e) => e.status_code(),
            _ => STATUS_OK,
        }
    }

    /// The response text; `recipients` is the configured recipient list.
    pub fn response_text(&self, recipients: &String) -> (r: String)
        ensures
            r@ == decision_text(self@, recipients@),
    {
        match self {
            WebhookDecision::Rejected(e) => e.message(),
            WebhookDecision::NothingToDo => String::from_str("Nothing to do."),
            WebhookDecision::NotMerged(_) => String::from_str("Not merged, no deployment attempted."),
            WebhookDecision::Deploy { .. } => {
                let mut t = String::from_str(
                    "Redeployment will be attempted - results will be emailed to ",
                );
                t.append(recipients.as_str());
                t.append(".");
                t
            },
        }
    }
}

/// A delivery that fails authentication is answered with 403 whatever its
/// body holds, well-formed or not: the body is read only after the signature
/// has been checked.
pub proof fn lemma_authentication_precedes_parsing(
    secret: Option<Seq<u8>>,
    targets: Map<Seq<char>, Seq<char>>,
    recipients: Seq<char>,
    header: Option<Seq<u8>>,
    body: Seq<u8>,
)
    requires
        signature_verdict(secret, body, header) matches Err(e) && e.is_auth_error(),
    ensures
        webhook_decision(secret, targets, recipients, header, body) == DecisionView::Rejected(
            signature_verdict(secret, body, header)->Err_0,
        ),
        decision_status(webhook_decision(secret, targets, recipients, header, body))
            == STATUS_FORBIDDEN,
{
}

/// A delivery whose action is not `closed` neither starts a redeployment nor
/// sends a notification.
pub proof fn lemma_unclosed_event_is_inert(
    secret: Option<Seq<u8>>,
    targets: Map<Seq<char>, Seq<char>>,
    recipients: Seq<char>,
    header: Option<Seq<u8>>,
    body: Seq<u8>,
)
    requires
        event_of(body) matches Ok(ev) && !ev.is_closed(),
    ensures
        !(webhook_decision(secret, targets, recipients, header, body) is Deploy),
        !(webhook_decision(secret, targets, recipients, header, body) is NotMerged),
{
}

/// An authenticated delivery of a pull request closed without merging starts
/// no redeployment and sends exactly one notification, which says that no
/// deployment was attempted.
pub proof fn lemma_unmerged_event_notifies_once(
    secret: Option<Seq<u8>>,
    targets: Map<Seq<char>, Seq<char>>,
    recipients: Seq<char>,
    header: Option<Seq<u8>>,
    body: Seq<u8>,
)
    requires
        signature_verdict(secret, body, header) is Ok,
        event_of(body) matches Ok(ev) && ev.is_closed() && !ev.is_merged(),
    ensures
        webhook_decision(secret, targets, recipients, header, body) == DecisionView::NotMerged(
            NotificationView {
                recipients: split_on(recipients, recipient_separator()),
                subject: notification_subject(),
                body: skip_body(event_of(body)->Ok_0.repository),
            },
        ),
        decision_status(webhook_decision(secret, targets, recipients, header, body)) == STATUS_OK,
{
}

/// An authenticated, merged pull request of a repository with no target is
/// answered with 400 naming the repository, and starts nothing.
pub proof fn lemma_unconfigured_repository_refused(
    secret: Option<Seq<u8>>,
    targets: Map<Seq<char>, Seq<char>>,
    recipients: Seq<char>,
    header: Option<Seq<u8>>,
    body: Seq<u8>,
)
    requires
        signature_verdict(secret, body, header) is Ok,
        event_of(body) matches Ok(ev) && ev.is_closed() && ev.is_merged()
            && !targets.contains_key(ev.repository),
    ensures
        webhook_decision(secret, targets, recipients, header, body) == DecisionView::Unconfigured(
            event_of(body)->Ok_0.repository,
        ),
        decision_status(webhook_decision(secret, targets, recipients, header, body))
            == STATUS_BAD_REQUEST,
        decision_text(webhook_decision(secret, targets, recipients, header, body), recipients).take(
            event_of(body)->Ok_0.repository.len() as int,
        ) == event_of(body)->Ok_0.repository,
{
    let name = event_of(body)->Ok_0.repository;
    assert((name + " is not configured for automated deployment."@).take(name.len() as int)
        =~= name);
}

/// An authenticated, merged pull request of a configured repository is
/// answered with 200 at once and redeploys exactly that repository's target.
pub proof fn lemma_configured_repository_deploys(
    secret: Option<Seq<u8>>,
    targets: Map<Seq<char>, Seq<char>>,
    recipients: Seq<char>,
    header: Option<Seq<u8>>,
    body: Seq<u8>,
)
    requires
        signature_verdict(secret, body, header) is Ok,
        event_of(body) matches Ok(ev) && ev.is_closed() && ev.is_merged()
            && targets.contains_key(ev.repository),
    ensures
        webhook_decision(secret, targets, recipients, header, body) == (DecisionView::Deploy {
            repository: event_of(body)->Ok_0.repository,
            target: targets[event_of(body)->Ok_0.repository],
        }),
        decision_status(webhook_decision(secret, targets, recipients, header, body)) == STATUS_OK,
{
}

} // verus!
