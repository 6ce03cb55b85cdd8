use crate::deploy::{status_text, text_or_empty, strings_view, DeploymentOutcome};
use vstd::prelude::*;
use vstd::string::{StrSliceExecFns, StringExecFns};

verus! {

/// The pieces of `s` between occurrences of `sep`, in order; an empty `s`
/// gives one empty piece.
pub open spec fn split_on(s: Seq<char>, sep: char) -> Seq<Seq<char>>
    decreases s.len(),
{
    if s.len() == 0 {
        seq![Seq::empty()]
    } else {
        let p = split_on(s.drop_last(), sep);
        if s.last() == sep {
            p.push(Seq::empty())
        } else {
            p.update(p.len() - 1, p.last().push(s.last()))
        }
    }
}

/// The separator of a recipient list.
pub open spec fn recipient_separator() -> char {
    ','
}

/// The subject of every notification.
pub open spec fn notification_subject() -> Seq<char> {
    "Result from automated deployment API"@
}

/// The body that reports a pull request closed without merging.
pub open spec fn skip_body(repository: Seq<char>) -> Seq<char> {
    "Pull request on "@ + repository + " was not merged, no deployment attempted."@
}

/// The body that reports a redeployment attempt.
pub open spec fn deployment_body(repository: Seq<char>, outcome: DeploymentOutcome) -> Seq<char> {
    "Attempt to redeploy "@ + repository + ": "@ + status_text(outcome.status) + text_or_empty(
        outcome.standard_output,
    ) + text_or_empty(outcome.standard_error)
}

/// One e-mail to a list of recipients.
#[derive(Debug, Clone, PartialEq, Eq)]
pub struct NotificationMessage {
    pub recipients: Vec<String>,
    pub subject: String,
    pub body: String,
}

pub struct NotificationView {
    pub recipients: Seq<Seq<char>>,
    pub subject: Seq<char>,
    pub body: Seq<char>,
}

impl View for NotificationMessage {
    type V = NotificationView;

    open spec fn view(&self) -> NotificationView {
        NotificationView {
            recipients: strings_view(self.recipients@),
            subject: self.subject@,
            body: self.body@,
        }
    }
}

/// The pieces of `s` between occurrences of `sep`.
pub fn split_list(s: &str, sep: char) -> (r: Vec<String>)
    ensures
        strings_view(r@) == split_on(s@, sep),
{
    let n: usize = s.unicode_len();
    let mut parts: Vec<String> = Vec::new();
    let mut start: usize = 0;
    let mut i: usize = 0;
    assert(s@.take(0) =~= Seq::<char>::empty());
    assert(strings_view(parts@).push(s@.subrange(0, 0)) =~= seq![Seq::<char>::empty()]);
    while i < n
        invariant
            n == s@.len(),
            start <= i <= n,
            split_on(s@.take(i as int), sep) == strings_view(parts@).push(
                s@.subrange(start as int, i as int),
            ),
        decreases n - i,
    {
        let c = s.get_char(i);
        let ghost t = s@.take(i + 1);
        assert(t.drop_last() =~= s@.take(i as int));
        assert(t.last() == c);
        if c == sep {
            let piece = String::from_str(s.substring_char(start, i));
            let ghost before = strings_view(parts@);
            parts.push(piece);
            assert(strings_view(parts@) =~= before.push(piece@));
            start = i + 1;
            assert(s@.subrange(start as int, i + 1) =~= Seq::<char>::empty());
        } else {
            let ghost p = strings_view(parts@).push(s@.subrange(start as int, i as int));
            assert(s@.subrange(start as int, i as int).push(c) =~= s@.subrange(start as int, i + 1));
            assert(p.update(p.len() - 1, p.last().push(c)) =~= strings_view(parts@).push(
                s@.subrange(start as int, i + 1),
            ));
        }
        i = i + 1;
    }
    let last = String::from_str(s.substring_char(start, n));
    let ghost before = strings_view(parts@);
    parts.push(last);
    assert(strings_view(parts@) =~= before.push(last@));
    assert(s@.take(n as int) =~= s@);
    parts
}

/// The recipients named by a comma-separated list.
pub fn recipient_list(config: &str) -> (r: Vec<String>)
    ensures
        strings_view(r@) == split_on(config@, recipient_separator()),
{
    split_list(config, ',')
}

/// The notification that a pull request on `repository` closed without
/// merging, so no deployment was attempted.
pub fn skip_notification(recipients: Vec<String>, repository: &String) -> (r: NotificationMessage)
    ensures
        r.recipients == recipients,
        r.subject@ == notification_subject(),
        r.body@ == skip_body(repository@),
{
    let mut body = String::from_str("Pull request on ");
    body.append(repository.as_str());
    body.append(" was not merged, no deployment attempted.");
    NotificationMessage {
        recipients,
        subject: String::from_str("Result from automated deployment API"),
        body,
    }
}

/// The notification that reports a redeployment attempt of `repository`.
pub fn deployment_notification(
    recipients: Vec<String>,
    repository: &String,
    outcome: &DeploymentOutcome,
) -> (r: NotificationMessage)
    ensures
        r.recipients == recipients,
        r.subject@ == notification_subject(),
        r.body@ == deployment_body(repository@, *outcome),
{
    let mut body = String::from_str("Attempt to redeploy ");
    body.append(repository.as_str());
    body.append(": ");
    let status = outcome.status_text();
    body.append(status.as_str());
    match &outcome.standard_output {
        Some(out) => body.append(out.as_str()),
        None => {},
    }
    match &outcome.standard_error {
        Some(err) => body.append(err.as_str()),
        None => {},
    }
    proof {
        assert(body@ =~= deployment_body(repository@, *outcome));
    }
    NotificationMessage {
        recipients,
        subject: String::from_str("Result from automated deployment API"),
        body,
    }
}

/// The report of a redeployment attempt states the attempt's status right
/// after the repository's name.
pub proof fn lemma_report_states_status(repository: Seq<char>, outcome: DeploymentOutcome)
    ensures
        deployment_body(repository, outcome).subrange(
            repository.len() + 22 as int,
            repository.len() + 22 + status_text(outcome.status).len() as int,
        ) == status_text(outcome.status),
{
    let head = "Attempt to redeploy "@ + repository + ": "@;
    assert(head.len() == repository.len() + 22) by {
        reveal_strlit("Attempt to redeploy ");
        reveal_strlit(": ");
    }
    assert(deployment_body(repository, outcome).subrange(
        repository.len() + 22 as int,
        repository.len() + 22 + status_text(outcome.status).len() as int,
    ) =~= status_text(outcome.status));
}

} // verus!
