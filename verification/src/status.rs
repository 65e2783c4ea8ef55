use vstd::prelude::*;

verus! {

/// Lifecycle stage of a controller.
///
/// The legal order is `Inactive` → `Ready` → `Running` → (`Stopping` →)
/// `Terminating`; `Inactive` is the only construction-time value and
/// `Terminating` is absorbing.
#[derive(Clone, Copy, Debug, PartialEq, Eq, PartialOrd, Ord, Structural)]
pub enum Status {
    Inactive,
    Ready,
    Running,
    Stopping,
    Terminating,
}

impl Status {
    /// Position of a stage along the lifecycle order.
    pub open spec fn rank(self) -> nat {
        match self {
            Status::Inactive => 0,
            Status::Ready => 1,
            Status::Running => 2,
            Status::Stopping => 3,
            Status::Terminating => 4,
        }
    }

    /// One legal lifecycle move: never backwards, and nothing leaves
    /// `Terminating`.
    pub open spec fn can_reach(self, next: Status) -> bool {
        self.rank() <= next.rank() && (self is Terminating ==> next is Terminating)
    }
}

/// Law: lifecycle moves compose, so any chain of legal moves is itself
/// monotone, and a chain that starts at `Terminating` stays there.
pub proof fn lemma_lifecycle_monotonic(a: Status, b: Status, c: Status)
    requires
        a.can_reach(b),
        b.can_reach(c),
    ensures
        a.can_reach(c),
{
}

} // verus!
