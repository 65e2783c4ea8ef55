use vstd::prelude::*;

verus! {

/// A decoded key press, the lookup key of the command table.
///
/// Decoding raw terminal events happens outside the library; the loop only
/// ever sees values of this type. Keys the dashboard has no use for arrive
/// as `Other`.
#[derive(Clone, Copy, Debug, PartialEq, Eq, Hash, Structural)]
pub enum KeyCode {
    Esc,
    Enter,
    Backspace,
    Char(char),
    Other,
}

/// FIFO queue of pending key codes, the consumer end of the channel the
/// input listener fills. Codes come out in exactly the order they went in.
pub struct KeyQueue {
    codes: Vec<KeyCode>,
    cursor: usize,
}

impl View for KeyQueue {
    type V = Seq<KeyCode>;

    /// The codes still pending, oldest first.
    closed spec fn view(&self) -> Seq<KeyCode> {
        if self.cursor <= self.codes@.len() {
            self.codes@.skip(self.cursor as int)
        } else {
            Seq::empty()
        }
    }
}

impl KeyQueue {
    /// Wrap a burst of decoded codes, to be handed out front to back.
    pub fn new(codes: Vec<KeyCode>) -> (q: KeyQueue)
        ensures
            q@ == codes@,
    {
        KeyQueue { codes, cursor: 0 }
    }

    pub fn is_empty(&self) -> (r: bool)
        ensures
            r == (self@.len() == 0),
    {
        self.cursor >= self.codes.len()
    }

    /// Take the oldest pending code; `None` once the queue has run dry.
    pub fn pop(&mut self) -> (r: Option<KeyCode>)
        ensures
            match r {
                Some(code) => old(self)@.len() > 0 && code == old(self)@[0] && final(self)@
                    == old(self)@.drop_first(),
                None => old(self)@.len() == 0 && final(self)@ == old(self)@,
            },
    {
        if self.cursor < self.codes.len() {
            let code = self.codes[self.cursor];
            self.cursor = self.cursor + 1;
            Some(code)
        } else {
            None
        }
    }
}

} // verus!
