use vstd::prelude::*;

verus! {

/// Lifecycle state of one deployment.
#[derive(Debug, Clone, Copy, PartialEq, Eq, Structural)]
pub enum DeploymentStatus {
    Deploying,
    Running,
    Scaling,
    Stopped,
    Failed,
}

/// The transitions of the lifecycle state machine.
pub open spec fn transition_allowed(from: DeploymentStatus, to: DeploymentStatus) -> bool {
    match (from, to) {
        (DeploymentStatus::Deploying, DeploymentStatus::Running) => true,
        (DeploymentStatus::Deploying, DeploymentStatus::Failed) => true,
        (DeploymentStatus::Running, DeploymentStatus::Scaling) => true,
        (DeploymentStatus::Running, DeploymentStatus::Stopped) => true,
        (DeploymentStatus::Running, DeploymentStatus::Failed) => true,
        (DeploymentStatus::Scaling, DeploymentStatus::Running) => true,
        (DeploymentStatus::Scaling, DeploymentStatus::Failed) => true,
        _ => false,
    }
}

impl DeploymentStatus {
    /// `Stopped` and `Failed` end the lifecycle.
    pub open spec fn spec_is_terminal(self) -> bool {
        self is Stopped || self is Failed
    }

    /// `Running` and `Scaling` serve traffic.
    pub open spec fn spec_is_serving(self) -> bool {
        self is Running || self is Scaling
    }

    pub fn is_terminal(&self) -> (r: bool)
        ensures
            r == self.spec_is_terminal(),
    {
        match self {
            DeploymentStatus::Stopped | DeploymentStatus::Failed => true,
            _ => false,
        }
    }

    pub fn is_serving(&self) -> (r: bool)
        ensures
            r == self.spec_is_serving(),
    {
        match self {
            DeploymentStatus::Running | DeploymentStatus::Scaling => true,
            _ => false,
        }
    }

    /// Whether the state machine lets a deployment move from `self` to `to`.
    pub fn can_transition_to(&self, to: DeploymentStatus) -> (r: bool)
        ensures
            r == transition_allowed(*self, to),
    {
        match (*self, to) {
            (DeploymentStatus::Deploying, DeploymentStatus::Running) => true,
            (DeploymentStatus::Deploying, DeploymentStatus::Failed) => true,
            (DeploymentStatus::Running, DeploymentStatus::Scaling) => true,
            (DeploymentStatus::Running, DeploymentStatus::Stopped) => true,
            (DeploymentStatus::Running, DeploymentStatus::Failed) => true,
            (DeploymentStatus::Scaling, DeploymentStatus::Running) => true,
            (DeploymentStatus::Scaling, DeploymentStatus::Failed) => true,
            _ => false,
        }
    }
}

} // verus!
