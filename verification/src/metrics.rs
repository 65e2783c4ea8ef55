use vstd::prelude::*;

use crate::args::Objective;
use crate::sys_print::{
    disk_rows_spec, joined_lines, net_rows_spec, new_system, print_components, print_disks,
    print_networks, print_processes, print_ram, print_system, proc_rows_spec, ram_rows_spec,
    refresh_system, system_rows_spec, table_text, DiskFacts, MemFacts, NetFacts, ProcFacts,
    SysIdFacts,
};

verus! {

/// Source of metric snapshots, one formatted text per category.
///
/// `provides` names which snapshot texts the source can hand out for a
/// category; a live source constrains nothing, a canned source pins the
/// text down exactly.
pub trait MetricsSource: Sized {
    spec fn provides(&self, cat: Objective, text: Seq<char>) -> bool;

    /// How many full refreshes this source has performed; the model that
    /// lets callers state that a refresh really happened.
    spec fn generation(&self) -> nat;

    /// Re-read everything the source covers, so the next snapshot reflects
    /// live data rather than stale defaults.
    fn refresh(&mut self)
        ensures
            final(self).generation() == old(self).generation() + 1,
    ;

    /// A point-in-time textual snapshot of the chosen view. A snapshot
    /// never fails: on a transient read failure it degrades to a partial
    /// or empty text. Reading is not a full refresh: the generation
    /// stands.
    fn snapshot(&mut self, cat: &Objective) -> (r: String)
        ensures
            old(self).provides(*cat, r@),
            final(self).generation() == old(self).generation(),
    ;
}

/// A provider that hands out one fixed text for every category and counts
/// how often it was refreshed: enough to drive a controller without live
/// system data.
pub struct StaticMetrics {
    text: String,
    refreshes: u64,
    gen: Ghost<nat>,
}

impl StaticMetrics {
    pub fn new(text: String) -> (r: StaticMetrics)
        ensures
            r.spec_text() == text@,
            r.spec_refreshes() == 0,
            r.generation() == 0,
    {
        StaticMetrics { text, refreshes: 0, gen: Ghost(0) }
    }

    pub closed spec fn spec_text(self) -> Seq<char> {
        self.text@
    }

    pub closed spec fn spec_refreshes(self) -> u64 {
        self.refreshes
    }

    /// How many times `refresh` has been called.
    pub fn refresh_count(&self) -> (r: u64)
        ensures
            r == self.spec_refreshes(),
    {
        self.refreshes
    }
}

impl MetricsSource for StaticMetrics {
    open spec fn provides(&self, cat: Objective, text: Seq<char>) -> bool {
        text == self.spec_text()
    }

    closed spec fn generation(&self) -> nat {
        self.gen@
    }

    fn refresh(&mut self)
        ensures
            final(self).spec_text() == old(self).spec_text(),
            final(self).spec_refreshes() == if old(self).spec_refreshes() < u64::MAX {
                old(self).spec_refreshes() + 1
            } else {
                old(self).spec_refreshes() as int
            },
    {
        if self.refreshes < u64::MAX {
            self.refreshes = self.refreshes + 1;
        }
        self.gen = Ghost(self.gen@ + 1);
    }

    fn snapshot(&mut self, cat: &Objective) -> (r: String)
        ensures
            *final(self) == *old(self),
            r@ == old(self).spec_text(),
    {
        self.text.clone()
    }
}

/// The live provider: a `sysinfo` handle behind the trusted collectors,
/// rendering one snapshot per category. It promises nothing about the
/// text, which depends on the host at the moment of the call.
pub struct SystemMetrics {
    sys: sysinfo::System,
    gen: Ghost<nat>,
}

impl SystemMetrics {
    pub fn new() -> (r: SystemMetrics)
        ensures
            r.generation() == 0,
    {
        SystemMetrics { sys: new_system(), gen: Ghost(0) }
    }
}

impl MetricsSource for SystemMetrics {
    open spec fn provides(&self, cat: Objective, text: Seq<char>) -> bool {
        true
    }

    closed spec fn generation(&self) -> nat {
        self.gen@
    }

    fn refresh(&mut self) {
        refresh_system(&mut self.sys);
        self.gen = Ghost(self.gen@ + 1);
    }

    fn snapshot(&mut self, cat: &Objective) -> (r: String)
        ensures
            *cat is System ==> exists|id: SysIdFacts| r@ == table_text(
                #[trigger] system_rows_spec(id),
            ),
            *cat is Disk ==> exists|d: Seq<DiskFacts>| r@ == table_text(
                #[trigger] disk_rows_spec(d),
            ),
            *cat is Component ==> exists|lines: Seq<String>| r@ == #[trigger] joined_lines(lines),
            *cat matches Objective::Process { limit, .. } ==> exists|p: Seq<ProcFacts>|
                r@ == table_text(#[trigger] proc_rows_spec(p, limit as nat)),
            *cat is Network ==> exists|n: Seq<NetFacts>| r@ == table_text(
                #[trigger] net_rows_spec(n),
            ),
            *cat is Ram ==> exists|m: MemFacts| r@ == table_text(#[trigger] ram_rows_spec(m)),
    {
        match cat {
            Objective::System {} => print_system(&mut self.sys),
            Objective::Disk {} => print_disks(&mut self.sys),
            Objective::Component {} => print_components(&mut self.sys),
            Objective::Process { limit, interval: _ } => print_processes(&mut self.sys, *limit),
            Objective::Network {} => print_networks(&mut self.sys),
            Objective::Ram {} => print_ram(&mut self.sys),
        }
    }
}

} // verus!
