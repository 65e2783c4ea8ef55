use sysdash::instruction::{command_base_set, Action, Instruction, InstructionSet};
use sysdash::keys::KeyCode;

#[test]
fn base_set_binds_quit_key() {
    let set = command_base_set();
    let quit = set.get(KeyCode::Esc).expect("quit key must be bound");
    assert_eq!(quit.name(), "Esc");
    assert_eq!(quit.description(), "Quit");
    assert!(matches!(quit.action(), Action::Terminate));
}

#[test]
fn base_set_binds_refresh_key() {
    let set = command_base_set();
    let update = set.get(KeyCode::Enter).expect("refresh key must be bound");
    assert_eq!(update.name(), "Enter");
    assert_eq!(update.description(), "Update");
    assert!(matches!(update.action(), Action::Refresh));
}

#[test]
fn base_set_leaves_other_keys_unbound() {
    let set = command_base_set();
    assert!(set.get(KeyCode::Char('z')).is_none());
    assert!(set.get(KeyCode::Backspace).is_none());
    assert!(set.get(KeyCode::Other).is_none());
}

#[test]
fn insert_replaces_same_trigger_last_write_wins() {
    let mut set = command_base_set();
    let other = Instruction::new(
        KeyCode::Esc,
        "Esc".to_string(),
        "Leave".to_string(),
        Action::Refresh,
    );
    set.insert(other);
    let bound = set.get(KeyCode::Esc).expect("key must stay bound");
    assert_eq!(bound.description(), "Leave");
    assert!(matches!(bound.action(), Action::Refresh));
    // replacement, not duplication: the help listing still has two rows
    assert_eq!(set.hint().len(), 2);
}

#[test]
fn insert_appends_new_trigger() {
    let mut set = command_base_set();
    set.add(KeyCode::Char('h'), "h", "Help", Action::Refresh);
    let bound = set.get(KeyCode::Char('h')).expect("new key must be bound");
    assert_eq!(bound.name(), "h");
    assert_eq!(set.hint().len(), 3);
}

#[test]
fn hint_lists_names_and_descriptions_in_insertion_order() {
    let mut set = InstructionSet::empty();
    set.add(KeyCode::Char('a'), "a", "First", Action::Refresh);
    set.add(KeyCode::Char('b'), "b", "Second", Action::Terminate);
    let rows = set.hint();
    assert_eq!(rows.len(), 2);
    assert_eq!(rows[0], vec!["a".to_string(), "First".to_string()]);
    assert_eq!(rows[1], vec!["b".to_string(), "Second".to_string()]);
}

#[test]
fn instruction_reports_its_parts() {
    let ins = Instruction::new(
        KeyCode::Char('q'),
        "q".to_string(),
        "Quit fast".to_string(),
        Action::Terminate,
    );
    assert!(matches!(ins.trigger(), KeyCode::Char('q')));
    assert_eq!(ins.name(), "q");
    assert_eq!(ins.description(), "Quit fast");
}
