use sysdash::args::{Objective, ViewArgs};
use sysdash::console::ConsoleTerminal;
use sysdash::controller::{Begin, Controller};
use sysdash::keys::{KeyCode, KeyQueue};
use sysdash::metrics::{MetricsSource, SystemMetrics};
use sysdash::sys_print::{print_cpu, print_ram, print_system};
use sysinfo::SystemExt;

#[test]
fn live_system_identity_renders_as_a_table() {
    let mut sys = sysinfo::System::new_all();
    let text = print_system(&mut sys);
    assert!(text.contains("Attributes"));
    assert!(text.contains("System name"));
    assert!(text.contains("System Host name"));
}

#[test]
fn live_memory_counters_render_as_a_table() {
    let mut sys = sysinfo::System::new_all();
    let text = print_ram(&mut sys);
    assert!(text.contains("Total memory"));
    assert!(text.contains("Used swap"));
}

#[test]
fn live_cpu_count_renders_as_one_line() {
    let mut sys = sysinfo::System::new_all();
    let text = print_cpu(&mut sys);
    assert!(text.starts_with("NB CPUs: "));
    assert!(text.ends_with('\n'));
}

#[test]
fn live_provider_frames_every_category() {
    let mut metrics = SystemMetrics::new();
    let ram = metrics.snapshot(&Objective::Ram {});
    assert!(ram.contains("Total memory"));
    let procs = metrics.snapshot(&Objective::Process { interval: 3, limit: 2 });
    assert!(procs.contains("pid"));
}

#[test]
fn console_session_returns_and_restores() {
    // Without a real tty the session may be refused; either way the call
    // must return with the release attempts made.
    let args = ViewArgs { magnitude: 0, output: None, command: Objective::Ram {} };
    let mut c = Controller::new(ConsoleTerminal::new(), SystemMetrics::new(), args);
    let mut queue = KeyQueue::new(vec![KeyCode::Esc]);
    let _ = c.run(&mut queue);
}
