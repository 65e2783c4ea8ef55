use sysdash::args::{Objective, ViewArgs};
use sysdash::instruction::command_base_set;
use sysdash::controller::{Begin, Controller};
use sysdash::keys::{KeyCode, KeyQueue};
use sysdash::metrics::StaticMetrics;
use sysdash::status::Status;
use sysdash::term::{SimTerminal, TermEvent};

fn system_args() -> ViewArgs {
    ViewArgs { magnitude: 0, output: None, command: Objective::System {} }
}

fn sim_controller(text: &str) -> Controller<SimTerminal, StaticMetrics> {
    Controller::new(SimTerminal::new(), StaticMetrics::new(text.to_string()), system_args())
}

fn writes(ops: &[TermEvent]) -> Vec<String> {
    let mut out = Vec::new();
    for op in ops {
        if let TermEvent::Write(text) = op {
            out.push(text.clone());
        }
    }
    out
}

fn count_enters(ops: &[TermEvent]) -> usize {
    ops.iter().filter(|op| matches!(op, TermEvent::EnterAlt)).count()
}

fn count_leaves(ops: &[TermEvent]) -> usize {
    ops.iter().filter(|op| matches!(op, TermEvent::LeaveAlt)).count()
}

fn count_raw_on(ops: &[TermEvent]) -> usize {
    ops.iter().filter(|op| matches!(op, TermEvent::RawOn)).count()
}

fn count_raw_off(ops: &[TermEvent]) -> usize {
    ops.iter().filter(|op| matches!(op, TermEvent::RawOff)).count()
}

fn count_flushes(ops: &[TermEvent]) -> usize {
    ops.iter().filter(|op| matches!(op, TermEvent::Flush)).count()
}

#[test]
fn unbound_key_is_a_silent_no_op() {
    let mut c = sim_controller("snapshot-A");
    c.prepare();
    let before_ops = c.term().ops().len();
    let r = c.dispatch(KeyCode::Char('z'));
    assert!(r.is_ok());
    assert_eq!(*c.status(), Status::Ready);
    assert_eq!(c.term().ops().len(), before_ops);
}

#[test]
fn lifecycle_moves_forward_only() {
    let mut c = sim_controller("snapshot-A");
    assert_eq!(*c.status(), Status::Inactive);
    c.prepare();
    assert_eq!(*c.status(), Status::Ready);
    c.open_session().expect("sim terminal cannot fail");
    assert_eq!(*c.status(), Status::Running);
    c.terminate().expect("terminate never fails");
    assert_eq!(*c.status(), Status::Terminating);
    // nothing leaves Terminating
    c.prepare();
    assert_eq!(*c.status(), Status::Terminating);
    let mut queue = KeyQueue::new(vec![KeyCode::Enter]);
    let r = c.run(&mut queue);
    assert!(r.is_ok());
    assert_eq!(*c.status(), Status::Terminating);
}

#[test]
fn prepare_twice_is_idempotent() {
    let mut c = sim_controller("snapshot-A");
    c.prepare();
    c.prepare();
    assert_eq!(*c.status(), Status::Ready);
    // the metrics were refreshed once, not twice, and nothing was drawn
    assert_eq!(c.metrics().refresh_count(), 1);
    assert_eq!(c.term().ops().len(), 0);
}

#[test]
fn scripted_refresh_refresh_quit_terminates_after_two_refreshes() {
    let mut c = sim_controller("snapshot-A");
    c.prepare();
    c.open_session().expect("sim terminal cannot fail");
    assert_eq!(*c.status(), Status::Running);
    c.dispatch(KeyCode::Enter).expect("refresh must succeed");
    c.dispatch(KeyCode::Enter).expect("refresh must succeed");
    c.dispatch(KeyCode::Esc).expect("quit must succeed");
    assert_eq!(*c.status(), Status::Terminating);
    let ops = c.term().ops().clone();
    assert_eq!(writes(&ops).len(), 2);
}

#[test]
fn refresh_screen_writes_header_and_body_and_flushes_once() {
    let mut c = sim_controller("snapshot-A");
    c.prepare();
    c.refresh_screen().expect("sim terminal cannot fail");
    let ops = c.term().ops().clone();
    assert_eq!(ops.len(), 4);
    assert!(matches!(ops[0], TermEvent::Clear));
    assert!(matches!(ops[1], TermEvent::MoveOrigin));
    match &ops[2] {
        TermEvent::Write(text) => {
            assert!(text.contains("=> System:"));
            assert!(text.contains("snapshot-A"));
            assert_eq!(text.as_str(), "=> System:\nsnapshot-A");
        },
        other => panic!("expected a write, saw {:?}", other),
    }
    assert!(matches!(ops[3], TermEvent::Flush));
    assert_eq!(count_flushes(&ops), 1);
}

#[test]
fn successful_run_balances_terminal_acquisition() {
    let mut c = sim_controller("snapshot-A");
    let mut queue = KeyQueue::new(vec![KeyCode::Enter, KeyCode::Esc]);
    let r = c.run(&mut queue);
    assert!(r.is_ok());
    assert_eq!(*c.status(), Status::Terminating);
    let ops = c.term().ops().clone();
    assert_eq!(count_enters(&ops), 1);
    assert_eq!(count_leaves(&ops), 1);
    assert_eq!(count_raw_on(&ops), 1);
    assert_eq!(count_raw_off(&ops), 1);
    // initial paint plus the one manual refresh
    assert_eq!(writes(&ops).len(), 2);
}

#[test]
fn run_on_exhausted_input_ends_the_session() {
    let mut c = sim_controller("snapshot-A");
    let mut queue = KeyQueue::new(Vec::new());
    let r = c.run(&mut queue);
    assert!(r.is_ok());
    assert_eq!(*c.status(), Status::Terminating);
    let ops = c.term().ops().clone();
    assert_eq!(writes(&ops).len(), 1);
}

#[test]
fn run_failing_at_screen_entry_stays_balanced() {
    let term = SimTerminal::failing_at(0);
    let mut c = Controller::new(term, StaticMetrics::new("x".to_string()), system_args());
    let mut queue = KeyQueue::new(vec![KeyCode::Esc]);
    let r = c.run(&mut queue);
    assert!(r.is_err());
    let ops = c.term().ops().clone();
    assert_eq!(count_enters(&ops), 0);
    assert_eq!(count_leaves(&ops), 0);
    assert_eq!(count_raw_on(&ops), 0);
    assert_eq!(count_raw_off(&ops), 0);
}

#[test]
fn run_failing_at_raw_mode_rolls_back_the_screen() {
    let term = SimTerminal::failing_at(1);
    let mut c = Controller::new(term, StaticMetrics::new("x".to_string()), system_args());
    let mut queue = KeyQueue::new(vec![KeyCode::Esc]);
    let r = c.run(&mut queue);
    assert!(r.is_err());
    let ops = c.term().ops().clone();
    assert_eq!(count_enters(&ops), 1);
    assert_eq!(count_leaves(&ops), 1);
    assert_eq!(count_raw_on(&ops), 0);
    assert_eq!(count_raw_off(&ops), 0);
}

#[test]
fn run_failing_mid_paint_still_releases_the_terminal() {
    // operation number four is the first screen write
    let term = SimTerminal::failing_at(4);
    let mut c = Controller::new(term, StaticMetrics::new("x".to_string()), system_args());
    let mut queue = KeyQueue::new(vec![KeyCode::Esc]);
    let r = c.run(&mut queue);
    assert!(r.is_err());
    let ops = c.term().ops().clone();
    assert_eq!(count_enters(&ops), 1);
    assert_eq!(count_leaves(&ops), 1);
    assert_eq!(count_raw_on(&ops), 1);
    assert_eq!(count_raw_off(&ops), 1);
}

#[test]
fn key_queue_hands_codes_out_in_arrival_order() {
    let mut q = KeyQueue::new(vec![KeyCode::Char('a'), KeyCode::Char('b'), KeyCode::Esc]);
    assert!(!q.is_empty());
    assert!(matches!(q.pop(), Some(KeyCode::Char('a'))));
    assert!(matches!(q.pop(), Some(KeyCode::Char('b'))));
    assert!(matches!(q.pop(), Some(KeyCode::Esc)));
    assert!(q.is_empty());
    assert!(q.pop().is_none());
}

#[test]
fn burst_after_quit_still_dispatches_but_stays_terminated() {
    let mut c = sim_controller("snapshot-A");
    let mut queue = KeyQueue::new(vec![KeyCode::Esc, KeyCode::Enter]);
    let r = c.run(&mut queue);
    assert!(r.is_ok());
    assert_eq!(*c.status(), Status::Terminating);
    let ops = c.term().ops().clone();
    // initial paint, then the refresh queued behind the quit key
    assert_eq!(writes(&ops).len(), 2);
}

#[test]
fn table_execute_dispatches_against_a_controller() {
    let mut c = sim_controller("snapshot-A");
    c.prepare();
    let table = command_base_set();
    table.execute(KeyCode::Char('x'), &mut c).expect("unbound is a no-op");
    assert_eq!(*c.status(), Status::Ready);
    table.execute(KeyCode::Esc, &mut c).expect("quit never fails");
    assert_eq!(*c.status(), Status::Terminating);
}

#[test]
fn instruction_execute_invokes_its_action() {
    let mut c = sim_controller("snapshot-A");
    c.prepare();
    let table = command_base_set();
    let refresh = table.get(KeyCode::Enter).expect("refresh is bound");
    refresh.execute(&mut c).expect("sim terminal cannot fail");
    assert_eq!(writes(c.term().ops()).len(), 1);
    assert_eq!(*c.status(), Status::Ready);
}

#[test]
fn drain_dispatches_the_whole_queue_in_order() {
    let mut c = sim_controller("snapshot-A");
    c.prepare();
    let mut queue = KeyQueue::new(vec![KeyCode::Enter, KeyCode::Char('z'), KeyCode::Esc]);
    let r = c.drain(&mut queue);
    assert!(r.is_ok());
    assert!(queue.is_empty());
    assert_eq!(*c.status(), Status::Terminating);
    // one refresh from the bound key, nothing from the unbound one
    assert_eq!(writes(c.term().ops()).len(), 1);
}

#[test]
fn open_and_close_pair_their_terminal_calls() {
    let mut c = sim_controller("snapshot-A");
    c.prepare();
    c.open_session().expect("sim terminal cannot fail");
    c.close_session().expect("sim terminal cannot fail");
    assert_eq!(*c.status(), Status::Terminating);
    let ops = c.term().ops().clone();
    assert_eq!(ops.len(), 4);
    assert!(matches!(ops[0], TermEvent::EnterAlt));
    assert!(matches!(ops[1], TermEvent::RawOn));
    assert!(matches!(ops[2], TermEvent::RawOff));
    assert!(matches!(ops[3], TermEvent::LeaveAlt));
}
