use vstd::prelude::*;
use vstd::string::StringExecFns;

use sysinfo::{DiskExt, NetworkExt, ProcessExt, SystemExt};

verus! {

/// `sysinfo`'s handle on the host; opaque here, read through the trusted
/// collectors below.
#[verifier::external_type_specification]
#[verifier::external_body]
pub struct ExSystem(sysinfo::System);

/// What one disk reports, as plain values.
pub struct DiskFacts {
    pub name: String,
    pub file_system: String,
    pub kind: String,
    pub removable: bool,
    pub mount_point: String,
    pub available: u64,
    pub total: u64,
}

/// What one network interface reports, as plain values.
pub struct NetFacts {
    pub name: String,
    pub received: u64,
    pub transmitted: u64,
}

/// What one process reports, as plain values.
pub struct ProcFacts {
    pub pid: String,
    pub name: String,
    pub written: u64,
    pub read: u64,
}

/// The memory counters, as plain values.
pub struct MemFacts {
    pub total_memory: u64,
    pub used_memory: u64,
    pub total_swap: u64,
    pub used_swap: u64,
}

/// The host's identity, as plain values.
pub struct SysIdFacts {
    pub name: String,
    pub kernel_version: String,
    pub os_version: String,
    pub host_name: String,
}

/// The decimal digit for one value below ten.
pub open spec fn dec_digit(d: nat) -> char {
    if d == 0 {
        '0'
    } else if d == 1 {
        '1'
    } else if d == 2 {
        '2'
    } else if d == 3 {
        '3'
    } else if d == 4 {
        '4'
    } else if d == 5 {
        '5'
    } else if d == 6 {
        '6'
    } else if d == 7 {
        '7'
    } else if d == 8 {
        '8'
    } else {
        '9'
    }
}

/// The decimal digits of `n`, most significant first.
pub open spec fn dec_str(n: nat) -> Seq<char>
    decreases n,
{
    if n < 10 {
        seq![dec_digit(n)]
    } else {
        dec_str(n / 10).push(dec_digit(n % 10))
    }
}

pub open spec fn bool_text_spec(b: bool) -> Seq<char> {
    if b {
        "true"@
    } else {
        "false"@
    }
}

pub fn bool_text(b: bool) -> (r: &'static str)
    ensures
        r@ == bool_text_spec(b),
{
    if b {
        "true"
    } else {
        "false"
    }
}

/// The cells of one table row, as character sequences.
pub open spec fn row_view(row: Vec<String>) -> Seq<Seq<char>> {
    Seq::new(row@.len(), |j: int| row@[j]@)
}

/// The cells of a whole table, as character sequences.
pub open spec fn rows_view(rows: Seq<Vec<String>>) -> Seq<Seq<Seq<char>>> {
    Seq::new(rows.len(), |i: int| row_view(rows[i]))
}

/// The text prettytable renders for the given cells.
pub uninterp spec fn table_text(rows: Seq<Seq<Seq<char>>>) -> Seq<char>;

/// Relies on prettytable's `Table`: builds one row of cells per entry of
/// `rows` and renders them as an aligned text table. The output depends
/// on the cell texts alone, so it is named `table_text`.
#[verifier::external_body]
pub(crate) fn render_table(rows: &Vec<Vec<String>>) -> (r: String)
    ensures
        r@ == table_text(rows_view(rows@)),
{
    let mut table = prettytable::Table::new();
    for row in rows.iter() {
        table.add_row(prettytable::Row::new(row.iter().map(|c| prettytable::Cell::new(c)).collect()));
    }
    table.to_string()
}

fn digit_text(d: u64) -> (r: &'static str)
    requires
        d < 10,
    ensures
        r@ == seq![dec_digit(d as nat)],
{
    let r: &'static str = if d == 0 {
        "0"
    } else if d == 1 {
        "1"
    } else if d == 2 {
        "2"
    } else if d == 3 {
        "3"
    } else if d == 4 {
        "4"
    } else if d == 5 {
        "5"
    } else if d == 6 {
        "6"
    } else if d == 7 {
        "7"
    } else if d == 8 {
        "8"
    } else {
        "9"
    };
    proof {
        reveal_strlit("0");
        reveal_strlit("1");
        reveal_strlit("2");
        reveal_strlit("3");
        reveal_strlit("4");
        reveal_strlit("5");
        reveal_strlit("6");
        reveal_strlit("7");
        reveal_strlit("8");
        reveal_strlit("9");
        assert(r@ =~= seq![dec_digit(d as nat)]);
    }
    r
}

/// The decimal digits of `n`, most significant first, with no sign and
/// no separators.
pub(crate) fn fmt_u64(n: u64) -> (r: String)
    ensures
        r@ == dec_str(n as nat),
    decreases n,
{
    if n < 10 {
        digit_text(n).to_owned()
    } else {
        let mut s = fmt_u64(n / 10);
        s.append(digit_text(n % 10));
        proof {
            assert(dec_str((n / 10) as nat) + seq![dec_digit((n % 10) as nat)] =~= dec_str(
                (n / 10) as nat,
            ).push(dec_digit((n % 10) as nat)));
        }
        s
    }
}

/// Relies on `sysinfo::System::new_all`: a handle with every subsystem
/// loaded once.
#[verifier::external_body]
pub(crate) fn new_system() -> sysinfo::System {
    sysinfo::System::new_all()
}

/// Relies on `sysinfo::System::refresh_all`: re-reads every subsystem.
#[verifier::external_body]
pub(crate) fn refresh_system(sys: &mut sysinfo::System) {
    sys.refresh_all();
}

/// Relies on sysinfo's `refresh_disks` and the `DiskExt` accessors
/// (`name`, `file_system`, `kind`, `is_removable`, `mount_point`,
/// `available_space`, `total_space`): one plain record per disk.
#[verifier::external_body]
pub(crate) fn collect_disks(sys: &mut sysinfo::System) -> Vec<DiskFacts> {
    sys.refresh_disks();
    sys.disks().iter().map(|d| DiskFacts {
        name: d.name().to_string_lossy().into_owned(),
        file_system: String::from_utf8_lossy(d.file_system()).into_owned(),
        kind: format!("{:?}", d.kind()),
        removable: d.is_removable(),
        mount_point: format!("{:?}", d.mount_point()),
        available: d.available_space(),
        total: d.total_space(),
    }).collect()
}

/// Relies on sysinfo's `refresh_components` and the `Debug` form of
/// `Component`: one line of text per thermal component.
#[verifier::external_body]
pub(crate) fn collect_components(sys: &mut sysinfo::System) -> Vec<String> {
    sys.refresh_components();
    sys.components().iter().map(|c| format!("{:?}", c)).collect()
}

/// Relies on sysinfo's `refresh_memory` and the four memory counters.
#[verifier::external_body]
pub(crate) fn collect_memory(sys: &mut sysinfo::System) -> MemFacts {
    sys.refresh_memory();
    MemFacts {
        total_memory: sys.total_memory(),
        used_memory: sys.used_memory(),
        total_swap: sys.total_swap(),
        used_swap: sys.used_swap(),
    }
}

/// Relies on sysinfo's `refresh_networks` and the `NetworkExt` counters
/// (`received`, `transmitted`): one plain record per interface.
#[verifier::external_body]
pub(crate) fn collect_networks(sys: &mut sysinfo::System) -> Vec<NetFacts> {
    sys.refresh_networks();
    sys.networks().into_iter().map(|(name, data)| NetFacts {
        name: name.clone(),
        received: data.received(),
        transmitted: data.transmitted(),
    }).collect()
}

/// Relies on sysinfo's `refresh_system` and the identity accessors
/// (`name`, `kernel_version`, `os_version`, `host_name`), each empty when
/// unknown.
#[verifier::external_body]
pub(crate) fn collect_system_id(sys: &mut sysinfo::System) -> SysIdFacts {
    sys.refresh_system();
    SysIdFacts {
        name: sys.name().unwrap_or_default(),
        kernel_version: sys.kernel_version().unwrap_or_default(),
        os_version: sys.os_version().unwrap_or_default(),
        host_name: sys.host_name().unwrap_or_default(),
    }
}

/// Relies on sysinfo's `refresh_processes`, the `ProcessExt` accessors
/// (`name`, `disk_usage`) and the `Display` form of `Pid`: one plain
/// record per process, in the map's iteration order.
#[verifier::external_body]
pub(crate) fn collect_processes(sys: &mut sysinfo::System) -> Vec<ProcFacts> {
    sys.refresh_processes();
    sys.processes().iter().map(|(pid, process)| ProcFacts {
        pid: pid.to_string(),
        name: process.name().to_owned(),
        written: process.disk_usage().written_bytes,
        read: process.disk_usage().read_bytes,
    }).collect()
}

/// Relies on sysinfo's `refresh_cpu` and `cpus`: how many logical CPUs
/// the host reports.
#[verifier::external_body]
pub(crate) fn cpu_count(sys: &mut sysinfo::System) -> usize {
    sys.refresh_cpu();
    sys.cpus().len()
}

/// One header row built from literal cell texts.
fn literal_row(cells: &Vec<&'static str>) -> (r: Vec<String>)
    ensures
        r@.len() == cells@.len(),
        forall|j: int| 0 <= j < r@.len() ==> r@[j]@ == cells@[j]@,
{
    let mut row: Vec<String> = Vec::new();
    let mut j: usize = 0;
    while j < cells.len()
        invariant
            j <= cells@.len(),
            row@.len() == j,
            forall|k: int| 0 <= k < j ==> row@[k]@ == cells@[k]@,
        decreases cells@.len() - j,
    {
        row.push(cells[j].to_owned());
        j = j + 1;
    }
    row
}

pub open spec fn disk_header() -> Seq<Seq<char>> {
    seq!["Name"@, "System"@, "Type"@, "removable"@, "mounted on"@, "Unuse"@, "Total"@]
}

pub open spec fn disk_row_spec(d: DiskFacts) -> Seq<Seq<char>> {
    seq![
        d.name@,
        d.file_system@,
        d.kind@,
        bool_text_spec(d.removable),
        d.mount_point@,
        dec_str(d.available as nat),
        dec_str(d.total as nat),
    ]
}

/// The cells of the disk table: a header row, then one row per disk.
pub open spec fn disk_rows_spec(disks: Seq<DiskFacts>) -> Seq<Seq<Seq<char>>> {
    Seq::new(
        disks.len() + 1,
        |i: int|
            if i == 0 {
                disk_header()
            } else {
                disk_row_spec(disks[i - 1])
            },
    )
}

/// Render the disk list as its table: exactly the header and one row per
/// disk, each cell pinned down.
pub fn disk_table(disks: &Vec<DiskFacts>) -> (r: String)
    ensures
        r@ == table_text(disk_rows_spec(disks@)),
{
    let mut rows: Vec<Vec<String>> = Vec::new();
    let header = literal_row(&vec!["Name", "System", "Type", "removable", "mounted on", "Unuse", "Total"]);
    proof {
        assert(row_view(header) =~= disk_header());
    }
    rows.push(header);
    let mut i: usize = 0;
    while i < disks.len()
        invariant
            i <= disks@.len(),
            rows@.len() == i + 1,
            row_view(rows@[0]) == disk_header(),
            forall|j: int| 1 <= j <= i ==> row_view(#[trigger] rows@[j]) == disk_row_spec(
                disks@[j - 1],
            ),
        decreases disks@.len() - i,
    {
        let d = &disks[i];
        let mut row: Vec<String> = Vec::new();
        row.push(d.name.clone());
        row.push(d.file_system.clone());
        row.push(d.kind.clone());
        row.push(bool_text(d.removable).to_owned());
        row.push(d.mount_point.clone());
        row.push(fmt_u64(d.available));
        row.push(fmt_u64(d.total));
        proof {
            assert(row_view(row) =~= disk_row_spec(disks@[i as int]));
        }
        rows.push(row);
        i = i + 1;
    }
    proof {
        assert(rows_view(rows@) =~= disk_rows_spec(disks@)) by {
            assert forall|k: int| 0 <= k < rows@.len() implies rows_view(rows@)[k]
                == disk_rows_spec(disks@)[k] by {
                if k > 0 {
                    assert(row_view(rows@[k]) == disk_row_spec(disks@[k - 1]));
                }
            }
        }
    }
    render_table(&rows)
}

/// One line of text per entry, each followed by a newline.
pub open spec fn joined_lines(lines: Seq<String>) -> Seq<char>
    decreases lines.len(),
{
    if lines.len() == 0 {
        Seq::empty()
    } else {
        joined_lines(lines.drop_last()) + lines.last()@ + "
"@
    }
}

pub fn join_lines(lines: &Vec<String>) -> (r: String)
    ensures
        r@ == joined_lines(lines@),
{
    let mut r: String = String::new();
    proof {
        assert(lines@.take(0) =~= Seq::<String>::empty());
    }
    let mut i: usize = 0;
    while i < lines.len()
        invariant
            i <= lines@.len(),
            r@ == joined_lines(lines@.take(i as int)),
        decreases lines@.len() - i,
    {
        r.append(lines[i].as_str());
        r.append("
");
        proof {
            assert(lines@.take(i as int + 1).drop_last() =~= lines@.take(i as int));
            assert(lines@.take(i as int + 1).last() == lines@[i as int]);
        }
        i = i + 1;
    }
    proof {
        assert(lines@.take(lines@.len() as int) =~= lines@);
    }
    r
}

/// The cells of the memory table, fully determined by the four counters.
pub open spec fn ram_rows_spec(m: MemFacts) -> Seq<Seq<Seq<char>>> {
    seq![
        seq!["Attributes"@, "Values"@],
        seq!["Total memory"@, dec_str(m.total_memory as nat)],
        seq!["Used memory"@, dec_str(m.used_memory as nat)],
        seq!["Total swap"@, dec_str(m.total_swap as nat)],
        seq!["Used swap"@, dec_str(m.used_swap as nat)],
    ]
}

/// Render the memory counters as their table.
pub fn ram_table(m: &MemFacts) -> (r: String)
    ensures
        r@ == table_text(ram_rows_spec(*m)),
{
    let mut rows: Vec<Vec<String>> = Vec::new();
    rows.push(literal_row(&vec!["Attributes", "Values"]));
    let mut row: Vec<String> = Vec::new();
    row.push("Total memory".to_owned());
    row.push(fmt_u64(m.total_memory));
    rows.push(row);
    let mut row: Vec<String> = Vec::new();
    row.push("Used memory".to_owned());
    row.push(fmt_u64(m.used_memory));
    rows.push(row);
    let mut row: Vec<String> = Vec::new();
    row.push("Total swap".to_owned());
    row.push(fmt_u64(m.total_swap));
    rows.push(row);
    let mut row: Vec<String> = Vec::new();
    row.push("Used swap".to_owned());
    row.push(fmt_u64(m.used_swap));
    rows.push(row);
    proof {
        assert(rows_view(rows@) =~= ram_rows_spec(*m)) by {
            assert forall|i: int| 0 <= i < 5 implies rows_view(rows@)[i] =~= ram_rows_spec(*m)[i]
                by {
                assert(row_view(rows@[i]) =~= ram_rows_spec(*m)[i]);
            }
        }
    }
    render_table(&rows)
}

pub open spec fn net_row_spec(n: NetFacts) -> Seq<Seq<char>> {
    seq![n.name@, dec_str(n.received as nat), dec_str(n.transmitted as nat)]
}

/// The cells of the network table: a header row, then one row per
/// interface.
pub open spec fn net_rows_spec(nets: Seq<NetFacts>) -> Seq<Seq<Seq<char>>> {
    Seq::new(
        nets.len() + 1,
        |i: int|
            if i == 0 {
                seq!["Name"@, "received"@, "transmitted"@]
            } else {
                net_row_spec(nets[i - 1])
            },
    )
}

/// Render the interface list as its table.
pub fn network_table(nets: &Vec<NetFacts>) -> (r: String)
    ensures
        r@ == table_text(net_rows_spec(nets@)),
{
    let mut rows: Vec<Vec<String>> = Vec::new();
    let header = literal_row(&vec!["Name", "received", "transmitted"]);
    proof {
        assert(row_view(header) =~= net_rows_spec(nets@)[0]);
    }
    rows.push(header);
    let mut i: usize = 0;
    while i < nets.len()
        invariant
            i <= nets@.len(),
            rows@.len() == i + 1,
            row_view(rows@[0]) == net_rows_spec(nets@)[0],
            forall|j: int| 1 <= j <= i ==> row_view(#[trigger] rows@[j]) == net_row_spec(
                nets@[j - 1],
            ),
        decreases nets@.len() - i,
    {
        let n = &nets[i];
        let mut row: Vec<String> = Vec::new();
        row.push(n.name.clone());
        row.push(fmt_u64(n.received));
        row.push(fmt_u64(n.transmitted));
        proof {
            assert(row_view(row) =~= net_row_spec(nets@[i as int]));
        }
        rows.push(row);
        i = i + 1;
    }
    proof {
        assert(rows_view(rows@) =~= net_rows_spec(nets@)) by {
            assert forall|k: int| 0 <= k < rows@.len() implies rows_view(rows@)[k]
                == net_rows_spec(nets@)[k] by {
                if k > 0 {
                    assert(row_view(rows@[k]) == net_row_spec(nets@[k - 1]));
                }
            }
        }
    }
    render_table(&rows)
}

/// The cells of the identity table, fully determined by the identity.
pub open spec fn system_rows_spec(id: SysIdFacts) -> Seq<Seq<Seq<char>>> {
    seq![
        seq!["Attributes"@, "Values"@],
        seq!["System name"@, id.name@],
        seq!["System kernel version"@, id.kernel_version@],
        seq!["System OS version"@, id.os_version@],
        seq!["System Host name"@, id.host_name@],
    ]
}

/// Render the host identity as its table.
pub fn system_table(id: &SysIdFacts) -> (r: String)
    ensures
        r@ == table_text(system_rows_spec(*id)),
{
    let mut rows: Vec<Vec<String>> = Vec::new();
    rows.push(literal_row(&vec!["Attributes", "Values"]));
    let mut row: Vec<String> = Vec::new();
    row.push("System name".to_owned());
    row.push(id.name.clone());
    rows.push(row);
    let mut row: Vec<String> = Vec::new();
    row.push("System kernel version".to_owned());
    row.push(id.kernel_version.clone());
    rows.push(row);
    let mut row: Vec<String> = Vec::new();
    row.push("System OS version".to_owned());
    row.push(id.os_version.clone());
    rows.push(row);
    let mut row: Vec<String> = Vec::new();
    row.push("System Host name".to_owned());
    row.push(id.host_name.clone());
    rows.push(row);
    proof {
        assert(rows_view(rows@) =~= system_rows_spec(*id)) by {
            assert forall|i: int| 0 <= i < 5 implies rows_view(rows@)[i] =~= system_rows_spec(
                *id,
            )[i] by {
                assert(row_view(rows@[i]) =~= system_rows_spec(*id)[i]);
            }
        }
    }
    render_table(&rows)
}

pub open spec fn proc_row_spec(p: ProcFacts) -> Seq<Seq<char>> {
    seq![p.pid@, p.name@, dec_str(p.written as nat), dec_str(p.read as nat)]
}

/// The cells of the process table: a header row, then one row for each of
/// the first `limit` processes.
pub open spec fn proc_rows_spec(procs: Seq<ProcFacts>, limit: nat) -> Seq<Seq<Seq<char>>> {
    let shown = if limit < procs.len() {
        limit as int
    } else {
        procs.len() as int
    };
    Seq::new(
        (shown + 1) as nat,
        |i: int|
            if i == 0 {
                seq!["pid"@, "Name"@, "written"@, "read"@]
            } else {
                proc_row_spec(procs[i - 1])
            },
    )
}

/// Render at most `limit` processes as their table: the result-count
/// bound of the `Process` view.
pub fn process_table(procs: &Vec<ProcFacts>, limit: u8) -> (r: String)
    ensures
        r@ == table_text(proc_rows_spec(procs@, limit as nat)),
{
    let mut rows: Vec<Vec<String>> = Vec::new();
    let header = literal_row(&vec!["pid", "Name", "written", "read"]);
    proof {
        assert(row_view(header) =~= proc_rows_spec(procs@, limit as nat)[0]);
    }
    rows.push(header);
    let shown: usize = if (limit as usize) < procs.len() {
        limit as usize
    } else {
        procs.len()
    };
    let mut i: usize = 0;
    while i < shown
        invariant
            i <= shown,
            shown == if (limit as nat) < procs@.len() {
                limit as nat
            } else {
                procs@.len()
            },
            rows@.len() == i + 1,
            row_view(rows@[0]) == proc_rows_spec(procs@, limit as nat)[0],
            forall|j: int| 1 <= j <= i ==> row_view(#[trigger] rows@[j]) == proc_row_spec(
                procs@[j - 1],
            ),
        decreases shown - i,
    {
        let p = &procs[i];
        let mut row: Vec<String> = Vec::new();
        row.push(p.pid.clone());
        row.push(p.name.clone());
        row.push(fmt_u64(p.written));
        row.push(fmt_u64(p.read));
        proof {
            assert(row_view(row) =~= proc_row_spec(procs@[i as int]));
        }
        rows.push(row);
        i = i + 1;
    }
    proof {
        assert(rows_view(rows@) =~= proc_rows_spec(procs@, limit as nat)) by {
            assert forall|k: int| 0 <= k < rows@.len() implies rows_view(rows@)[k]
                == proc_rows_spec(procs@, limit as nat)[k] by {
                if k > 0 {
                    assert(row_view(rows@[k]) == proc_row_spec(procs@[k - 1]));
                }
            }
        }
    }
    render_table(&rows)
}

/// The one-line CPU summary.
pub fn cpu_line(count: usize) -> (r: String)
    ensures
        r@ == "NB CPUs: "@ + dec_str(count as nat) + "
"@,
{
    let mut s: String = "NB CPUs: ".to_owned();
    s.append(fmt_u64(count as u64).as_str());
    s.append("
");
    s
}

/// Snapshot of the disk list: collect live data, then render its table.
pub fn print_disks(sys: &mut sysinfo::System) -> (r: String)
    ensures
        exists|d: Seq<DiskFacts>| r@ == table_text(#[trigger] disk_rows_spec(d)),
{
    let facts = collect_disks(sys);
    let r = disk_table(&facts);
    proof {
        assert(r@ == table_text(disk_rows_spec(facts@)));
    }
    r
}

/// Snapshot of the thermal components: one debug line per component.
pub fn print_components(sys: &mut sysinfo::System) -> (r: String)
    ensures
        exists|lines: Seq<String>| r@ == #[trigger] joined_lines(lines),
{
    let lines = collect_components(sys);
    let r = join_lines(&lines);
    proof {
        assert(r@ == joined_lines(lines@));
    }
    r
}

/// Snapshot of the memory counters as their table.
pub fn print_ram(sys: &mut sysinfo::System) -> (r: String)
    ensures
        exists|m: MemFacts| r@ == table_text(#[trigger] ram_rows_spec(m)),
{
    let m = collect_memory(sys);
    let r = ram_table(&m);
    proof {
        assert(r@ == table_text(ram_rows_spec(m)));
    }
    r
}

/// Snapshot of the network interfaces as their table.
pub fn print_networks(sys: &mut sysinfo::System) -> (r: String)
    ensures
        exists|n: Seq<NetFacts>| r@ == table_text(#[trigger] net_rows_spec(n)),
{
    let facts = collect_networks(sys);
    let r = network_table(&facts);
    proof {
        assert(r@ == table_text(net_rows_spec(facts@)));
    }
    r
}

/// Snapshot of the host identity as its table.
pub fn print_system(sys: &mut sysinfo::System) -> (r: String)
    ensures
        exists|id: SysIdFacts| r@ == table_text(#[trigger] system_rows_spec(id)),
{
    let id = collect_system_id(sys);
    let r = system_table(&id);
    proof {
        assert(r@ == table_text(system_rows_spec(id)));
    }
    r
}

/// Snapshot of the CPU count as its one-line summary.
pub fn print_cpu(sys: &mut sysinfo::System) -> (r: String)
    ensures
        exists|n: nat| r@ == "NB CPUs: "@ + #[trigger] dec_str(n) + "
"@,
{
    let n = cpu_count(sys);
    let r = cpu_line(n);
    proof {
        assert(r@ == "NB CPUs: "@ + dec_str(n as nat) + "
"@);
    }
    r
}

/// Snapshot of at most `limit` processes as their table.
pub fn print_processes(sys: &mut sysinfo::System, limit: u8) -> (r: String)
    ensures
        exists|p: Seq<ProcFacts>| r@ == table_text(#[trigger] proc_rows_spec(p, limit as nat)),
{
    let facts = collect_processes(sys);
    let r = process_table(&facts, limit);
    proof {
        assert(r@ == table_text(proc_rows_spec(facts@, limit as nat)));
    }
    r
}

} // verus!
