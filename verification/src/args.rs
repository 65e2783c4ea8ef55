use vstd::prelude::*;

verus! {

/// The run configuration chosen at startup: an output magnitude, an optional
/// output file path, and the metric view to display.
///
/// Command-line parsing itself happens outside the library; this is the
/// plain value it produces.
pub struct ViewArgs {
    /// How many magnitude steps to apply to displayed sizes (kb, mb, gb).
    pub magnitude: u8,
    /// Path of an optional output file.
    pub output: Option<String>,
    /// The metric view this controller will render.
    pub command: Objective,
}

/// The closed set of selectable metric views. Immutable for the lifetime of
/// one controller; `Process` carries the bound on how many rows the provider
/// reports.
#[derive(Clone, Copy, Debug, PartialEq, Eq, Structural)]
pub enum Objective {
    Component {},
    Process { interval: u64, limit: u8 },
    Disk {},
    Network {},
    Ram {},
    System {},
}

impl Objective {
    /// Whether this view shows data that changes quickly enough to deserve
    /// periodic re-rendering.
    pub fn require_dynamic_update(&self) -> (r: bool)
        ensures
            r == (*self is Process || *self is Network || *self is Ram),
    {
        match self {
            Objective::Process { .. } => true,
            Objective::Network {} => true,
            Objective::Ram {} => true,
            _other => false,
        }
    }

    /// The heading shown for this view.
    pub open spec fn title_spec(self) -> Seq<char> {
        match self {
            Objective::Component {} => "Components"@,
            Objective::Process { .. } => "Processes"@,
            Objective::Disk {} => "Disks"@,
            Objective::Network {} => "Network"@,
            Objective::Ram {} => "Ram"@,
            Objective::System {} => "System"@,
        }
    }

    /// The heading shown for this view.
    pub fn title(&self) -> (r: &'static str)
        ensures
            r@ == self.title_spec(),
    {
        match self {
            Objective::Component {} => "Components",
            Objective::Process { .. } => "Processes",
            Objective::Disk {} => "Disks",
            Objective::Network {} => "Network",
            Objective::Ram {} => "Ram",
            Objective::System {} => "System",
        }
    }
}

} // verus!
