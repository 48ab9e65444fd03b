use vstd::prelude::*;
use vstd::string::StringExecFns;

verus! {

/// A progress observer with two capabilities: noting a step and noting the
/// item's terminal completion. Rendering is the implementor's concern; the
/// engine's contract is only the step payloads and their order.
pub trait StatefulUI<T> {
    fn update(&mut self, new_state: T);

    fn done_with_msg(&mut self, msg: &'static str);
}

/// A transient progress event: running a named pre- or post-hook, or having
/// created a named link. Consumed by an observer and never retained.
#[derive(Debug, Clone)]
pub enum InstallStep {
    PreInstallHook(String),
    PostInstallHook(String),
    Link(String, String),
}

impl InstallStep {
    /// Human-readable rendering of this step.
    pub open spec fn spec_message(self) -> Seq<char> {
        match self {
            InstallStep::PreInstallHook(cmd) => "Running Pre-Install hook: "@ + cmd@,
            InstallStep::PostInstallHook(cmd) => "Running Post-Install hook: "@ + cmd@,
            InstallStep::Link(origin, link) => "linking: "@ + origin@ + " -> "@ + link@,
        }
    }

    pub fn message(&self) -> (m: String)
        ensures
            m@ == self.spec_message(),
    {
        match self {
            InstallStep::PreInstallHook(cmd) => {
                let mut m = String::from_str("Running Pre-Install hook: ");
                m.append(cmd.as_str());
                m
            },
            InstallStep::PostInstallHook(cmd) => {
                let mut m = String::from_str("Running Post-Install hook: ");
                m.append(cmd.as_str());
                m
            },
            InstallStep::Link(origin, link) => {
                let mut m = String::from_str("linking: ");
                m.append(origin.as_str());
                m.append(" -> ");
                m.append(link.as_str());
                m
            },
        }
    }
}

/// The last step an observer saw, if any.
#[derive(Debug)]
pub struct InstallUIState(pub Option<InstallStep>);

impl From<InstallStep> for InstallUIState {
    fn from(step: InstallStep) -> (s: Self)
        ensures
            s == InstallUIState(Some(step)),
    {
        InstallUIState(Some(step))
    }
}

impl vstd::std_specs::convert::FromSpecImpl<InstallStep> for InstallUIState {
    open spec fn obeys_from_spec() -> bool {
        true
    }

    open spec fn from_spec(step: InstallStep) -> Self {
        InstallUIState(Some(step))
    }
}

} // verus!
