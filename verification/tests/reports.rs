use sysdash::args::Objective;
use sysdash::render::compose_frame;
use sysdash::sys_print::{
    bool_text, cpu_line, disk_table, join_lines, network_table, process_table, ram_table,
    system_table, DiskFacts, MemFacts, NetFacts, ProcFacts, SysIdFacts,
};

#[test]
fn compose_frame_is_header_then_body() {
    let framed = compose_frame("System", "snapshot-A");
    assert_eq!(framed, "=> System:\nsnapshot-A");
    assert_eq!(compose_frame("Disks", ""), "=> Disks:\n");
}

#[test]
fn objective_titles_match_their_views() {
    assert_eq!(Objective::Component {}.title(), "Components");
    assert_eq!(Objective::Process { interval: 3, limit: 10 }.title(), "Processes");
    assert_eq!(Objective::Disk {}.title(), "Disks");
    assert_eq!(Objective::Network {}.title(), "Network");
    assert_eq!(Objective::Ram {}.title(), "Ram");
    assert_eq!(Objective::System {}.title(), "System");
}

#[test]
fn dynamic_update_marks_fast_changing_views() {
    assert!(Objective::Process { interval: 3, limit: 10 }.require_dynamic_update());
    assert!(Objective::Network {}.require_dynamic_update());
    assert!(Objective::Ram {}.require_dynamic_update());
    assert!(!Objective::Component {}.require_dynamic_update());
    assert!(!Objective::Disk {}.require_dynamic_update());
    assert!(!Objective::System {}.require_dynamic_update());
}

#[test]
fn numbers_render_as_plain_decimal_digits() {
    assert_eq!(cpu_line(0), "NB CPUs: 0\n");
    assert_eq!(cpu_line(7), "NB CPUs: 7\n");
    assert_eq!(cpu_line(12345), "NB CPUs: 12345\n");
    let text = ram_table(&MemFacts {
        total_memory: u64::MAX,
        used_memory: 0,
        total_swap: 0,
        used_swap: 0,
    });
    assert!(text.contains("18446744073709551615"));
}

#[test]
fn bool_text_spells_the_two_values() {
    assert_eq!(bool_text(true), "true");
    assert_eq!(bool_text(false), "false");
}

#[test]
fn cpu_line_is_one_exact_line() {
    assert_eq!(cpu_line(4), "NB CPUs: 4\n");
    assert_eq!(cpu_line(0), "NB CPUs: 0\n");
}

#[test]
fn join_lines_appends_one_newline_per_line() {
    assert_eq!(join_lines(&vec![]), "");
    assert_eq!(join_lines(&vec!["a".to_string(), "bc".to_string()]), "a\nbc\n");
}

#[test]
fn rendered_table_has_borders_and_does_not_echo_input() {
    let text = ram_table(&MemFacts {
        total_memory: 1,
        used_memory: 2,
        total_swap: 3,
        used_swap: 4,
    });
    // a rendered table has borders and alignment, not the bare cells
    assert_ne!(text, "AttributesValuesTotal memory1Used memory2Total swap3Used swap4");
    assert!(text.contains('|') || text.contains('+'));
    assert!(text.len() > "AttributesValuesTotal memory1Used memory2Total swap3Used swap4".len());
}

#[test]
fn disk_table_has_header_and_one_row_per_disk() {
    let disks = vec![DiskFacts {
        name: "root".to_string(),
        file_system: "ext4".to_string(),
        kind: "SSD".to_string(),
        removable: false,
        mount_point: "\"/\"".to_string(),
        available: 1024,
        total: 4096,
    }];
    let text = disk_table(&disks);
    for cell in ["Name", "System", "Type", "removable", "mounted on", "Unuse", "Total"] {
        assert!(text.contains(cell), "missing header cell {cell}");
    }
    assert!(text.contains("root"));
    assert!(text.contains("ext4"));
    assert!(text.contains("false"));
    assert!(text.contains("1024"));
    assert!(text.contains("4096"));
}

#[test]
fn ram_table_shows_the_four_counters() {
    let text = ram_table(&MemFacts {
        total_memory: 111,
        used_memory: 22,
        total_swap: 3333,
        used_swap: 4,
    });
    for cell in ["Attributes", "Values", "Total memory", "Used memory", "Total swap", "Used swap"] {
        assert!(text.contains(cell), "missing cell {cell}");
    }
    assert!(text.contains("111"));
    assert!(text.contains("22"));
    assert!(text.contains("3333"));
}

#[test]
fn network_table_lists_interfaces() {
    let text = network_table(&vec![
        NetFacts { name: "eth0".to_string(), received: 10, transmitted: 20 },
        NetFacts { name: "lo".to_string(), received: 1, transmitted: 2 },
    ]);
    assert!(text.contains("eth0"));
    assert!(text.contains("lo"));
    assert!(text.contains("10"));
    assert!(text.contains("20"));
}

#[test]
fn system_table_shows_the_identity() {
    let text = system_table(&SysIdFacts {
        name: "linux-box".to_string(),
        kernel_version: "6.1".to_string(),
        os_version: "12".to_string(),
        host_name: "host-a".to_string(),
    });
    assert!(text.contains("System name"));
    assert!(text.contains("linux-box"));
    assert!(text.contains("System kernel version"));
    assert!(text.contains("6.1"));
    assert!(text.contains("host-a"));
}

fn proc_facts(n: usize) -> Vec<ProcFacts> {
    (0..n)
        .map(|i| ProcFacts {
            pid: format!("{i}"),
            name: format!("proc-{i}"),
            written: 100 + i as u64,
            read: 200 + i as u64,
        })
        .collect()
}

#[test]
fn process_table_truncates_at_the_limit() {
    let text = process_table(&proc_facts(5), 3);
    assert!(text.contains("proc-0"));
    assert!(text.contains("proc-1"));
    assert!(text.contains("proc-2"));
    assert!(!text.contains("proc-3"));
    assert!(!text.contains("proc-4"));
}

#[test]
fn process_table_shows_all_when_below_the_limit() {
    let text = process_table(&proc_facts(2), 10);
    assert!(text.contains("proc-0"));
    assert!(text.contains("proc-1"));
    assert!(text.contains("101"));
    assert!(text.contains("201"));
}
