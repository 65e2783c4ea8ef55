use vstd::prelude::*;

use std::io::Write;

use crossterm::ExecutableCommand;

use crate::term::{TermError, TermEvent, Terminal};

verus! {

/// The real terminal on standard output, driven through crossterm. It
/// keeps its operation log as ghost state, so a controller over it gets
/// the same session guarantees as over any other port.
pub struct ConsoleTerminal {
    history: Ghost<Seq<TermEvent>>,
}

impl ConsoleTerminal {
    pub fn new() -> (r: ConsoleTerminal)
        ensures
            r.log() == Seq::<TermEvent>::empty(),
    {
        ConsoleTerminal { history: Ghost(Seq::empty()) }
    }
}

/// Relies on crossterm's `EnterAlternateScreen` command, executed on
/// standard output.
#[verifier::external_body]
fn ct_enter_alt() -> (r: Result<(), TermError>) {
    match std::io::stdout().execute(crossterm::terminal::EnterAlternateScreen) {
        Ok(_) => Ok(()),
        Err(_) => Err(TermError {}),
    }
}

/// Relies on crossterm's `LeaveAlternateScreen` command, executed on
/// standard output.
#[verifier::external_body]
fn ct_leave_alt() -> (r: Result<(), TermError>) {
    match std::io::stdout().execute(crossterm::terminal::LeaveAlternateScreen) {
        Ok(_) => Ok(()),
        Err(_) => Err(TermError {}),
    }
}

/// Relies on crossterm's `enable_raw_mode`.
#[verifier::external_body]
fn ct_raw_on() -> (r: Result<(), TermError>) {
    match crossterm::terminal::enable_raw_mode() {
        Ok(()) => Ok(()),
        Err(_) => Err(TermError {}),
    }
}

/// Relies on crossterm's `disable_raw_mode`.
#[verifier::external_body]
fn ct_raw_off() -> (r: Result<(), TermError>) {
    match crossterm::terminal::disable_raw_mode() {
        Ok(()) => Ok(()),
        Err(_) => Err(TermError {}),
    }
}

/// Relies on crossterm's `Clear` command with `ClearType::All`, executed
/// on standard output.
#[verifier::external_body]
fn ct_clear() -> (r: Result<(), TermError>) {
    match std::io::stdout().execute(crossterm::terminal::Clear(crossterm::terminal::ClearType::All))
    {
        Ok(_) => Ok(()),
        Err(_) => Err(TermError {}),
    }
}

/// Relies on crossterm's `MoveTo` command, executed on standard output.
#[verifier::external_body]
fn ct_move_origin() -> (r: Result<(), TermError>) {
    match std::io::stdout().execute(crossterm::cursor::MoveTo(1, 1)) {
        Ok(_) => Ok(()),
        Err(_) => Err(TermError {}),
    }
}

/// Relies on `std::io::Write::write_all` on standard output.
#[verifier::external_body]
fn ct_write(text: &str) -> (r: Result<(), TermError>) {
    match std::io::stdout().write_all(text.as_bytes()) {
        Ok(()) => Ok(()),
        Err(_) => Err(TermError {}),
    }
}

/// Relies on `std::io::Write::flush` on standard output.
#[verifier::external_body]
fn ct_flush() -> (r: Result<(), TermError>) {
    match std::io::stdout().flush() {
        Ok(()) => Ok(()),
        Err(_) => Err(TermError {}),
    }
}

impl Terminal for ConsoleTerminal {
    closed spec fn log(&self) -> Seq<TermEvent> {
        self.history@
    }

    /// A real terminal can always fail, so it never promises success.
    closed spec fn infallible(&self) -> bool {
        false
    }

    fn enter_alt(&mut self) -> (r: Result<(), TermError>) {
        let r = ct_enter_alt();
        if r.is_ok() {
            self.history = Ghost(self.history@.push(TermEvent::EnterAlt));
        }
        r
    }

    fn leave_alt(&mut self) -> (r: Result<(), TermError>) {
        let r = ct_leave_alt();
        self.history = Ghost(self.history@.push(TermEvent::LeaveAlt));
        r
    }

    fn raw_on(&mut self) -> (r: Result<(), TermError>) {
        let r = ct_raw_on();
        if r.is_ok() {
            self.history = Ghost(self.history@.push(TermEvent::RawOn));
        }
        r
    }

    fn raw_off(&mut self) -> (r: Result<(), TermError>) {
        let r = ct_raw_off();
        self.history = Ghost(self.history@.push(TermEvent::RawOff));
        r
    }

    fn clear(&mut self) -> (r: Result<(), TermError>) {
        let r = ct_clear();
        if r.is_ok() {
            self.history = Ghost(self.history@.push(TermEvent::Clear));
        }
        r
    }

    fn move_origin(&mut self) -> (r: Result<(), TermError>) {
        let r = ct_move_origin();
        if r.is_ok() {
            self.history = Ghost(self.history@.push(TermEvent::MoveOrigin));
        }
        r
    }

    fn write_text(&mut self, text: &str) -> (r: Result<(), TermError>) {
        let r = ct_write(text);
        if r.is_ok() {
            let owned = text.to_owned();
            self.history = Ghost(self.history@.push(TermEvent::Write(owned)));
            proof {
                assert(self.log().drop_last() =~= old(self).log());
            }
        }
        r
    }

    fn flush(&mut self) -> (r: Result<(), TermError>) {
        let r = ct_flush();
        if r.is_ok() {
            self.history = Ghost(self.history@.push(TermEvent::Flush));
        }
        r
    }
}

} // verus!
