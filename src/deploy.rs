use vstd::prelude::*;
use vstd::string::StringExecFns;

verus! {

/// How a run of the automation tool ended.
#[derive(Debug, Clone, PartialEq, Eq)]
pub enum DeploymentStatus {
    /// The tool exited with status zero.
    Success,
    /// The tool exited with a non-zero status.
    Failure,
    /// The tool could not be started; the text says why.
    ExecutionError(String),
}

/// The outcome of one redeployment attempt.
#[derive(Debug, Clone, PartialEq, Eq)]
pub struct DeploymentOutcome {
    pub target: String,
    pub status: DeploymentStatus,
    /// What the tool wrote on standard output, where it ran.
    pub standard_output: Option<String>,
    /// What the tool wrote on standard error, where it ran.
    pub standard_error: Option<String>,
}

/// The word or text that reports a status.
pub open spec fn status_text(status: DeploymentStatus) -> Seq<char> {
    match status {
        DeploymentStatus::Success => "success"@,
        DeploymentStatus::Failure => "failure"@,
        DeploymentStatus::ExecutionError(detail) => detail@,
    }
}

pub open spec fn text_or_empty(o: Option<String>) -> Seq<char> {
    match o {
        Some(s) => s@,
        None => Seq::empty(),
    }
}

/// The program that performs a redeployment.
pub open spec fn automation_program_spec() -> Seq<char> {
    "ansible-playbook"@
}

/// The arguments that run the playbook for `target` alone.
pub open spec fn automation_arguments_spec(target: Seq<char>) -> Seq<Seq<char>> {
    seq![
        "playbook.yml"@,
        "-i"@,
        "inventories/from_controller.yaml"@,
        "-u"@,
        "controller"@,
        "--tags"@,
        target,
    ]
}

pub open spec fn strings_view(v: Seq<String>) -> Seq<Seq<char>> {
    v.map_values(|s: String| s@)
}

impl DeploymentOutcome {
    /// The outcome of a tool run that exited; `succeeded` is whether its
    /// exit status was zero.
    pub fn from_exit(target: String, succeeded: bool, standard_output: String, standard_error: String) -> (r: DeploymentOutcome)
        ensures
            r.target == target,
            r.status == (if succeeded { DeploymentStatus::Success } else { DeploymentStatus::Failure }),
            r.standard_output == Some(standard_output),
            r.standard_error == Some(standard_error),
    {
        let status = if succeeded {
            DeploymentStatus::Success
        } else {
            DeploymentStatus::Failure
        };
        DeploymentOutcome {
            target,
            status,
            standard_output: Some(standard_output),
            standard_error: Some(standard_error),
        }
    }

    /// The outcome of a tool run that could not be started.
    pub fn from_spawn_error(target: String, detail: String) -> (r: DeploymentOutcome)
        ensures
            r.target == target,
            r.status == DeploymentStatus::ExecutionError(detail),
            r.standard_output is None,
            r.standard_error is None,
    {
        DeploymentOutcome {
            target,
            status: DeploymentStatus::ExecutionError(detail),
            standard_output: None,
            standard_error: None,
        }
    }

    /// The word or text that reports this outcome's status.
    pub fn status_text(&self) -> (r: String)
        ensures
            r@ == status_text(self.status),
    {
        match &self.status {
            DeploymentStatus::Success => String::from_str("success"),
            DeploymentStatus::Failure => String::from_str("failure"),
            DeploymentStatus::ExecutionError(detail) => detail.clone(),
        }
    }
}

/// The program that performs a redeployment.
pub fn automation_program() -> (r: String)
    ensures
        r@ == automation_program_spec(),
{
    String::from_str("ansible-playbook")
}

/// The arguments that run the playbook for `target` alone.
pub fn automation_arguments(target: &String) -> (r: Vec<String>)
    ensures
        strings_view(r@) == automation_arguments_spec(target@),
{
    let mut r: Vec<String> = Vec::new();
    r.push(String::from_str("playbook.yml"));
    r.push(String::from_str("-i"));
    r.push(String::from_str("inventories/from_controller.yaml"));
    r.push(String::from_str("-u"));
    r.push(String::from_str("controller"));
    r.push(String::from_str("--tags"));
    r.push(target.clone());
    assert(strings_view(r@) =~= automation_arguments_spec(target@));
    r
}

} // verus!
