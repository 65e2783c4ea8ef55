use vstd::prelude::*;

verus! {

/// Failure of a terminal-control primitive.
#[derive(Clone, Copy, Debug, PartialEq, Eq, Structural)]
pub struct TermError {}

/// One operation on the terminal, as recorded in a port's log.
///
/// Acquisition events (`EnterAlt`, `RawOn`) are recorded only when the
/// operation took effect; release events (`LeaveAlt`, `RawOff`) record the
/// call itself, successful or not, since a release is attempted exactly
/// once per acquisition. Screen events (`Clear`, `MoveOrigin`, `Write`,
/// `Flush`) are recorded when they took effect.
#[derive(Clone, Debug)]
pub enum TermEvent {
    EnterAlt,
    LeaveAlt,
    RawOn,
    RawOff,
    Clear,
    MoveOrigin,
    Write(String),
    Flush,
}

/// The kind of a terminal operation, with any payload stripped.
pub enum TermKind {
    EnterAlt,
    LeaveAlt,
    RawOn,
    RawOff,
    Clear,
    MoveOrigin,
    Write,
    Flush,
}

pub open spec fn kind_of(e: TermEvent) -> TermKind {
    match e {
        TermEvent::EnterAlt => TermKind::EnterAlt,
        TermEvent::LeaveAlt => TermKind::LeaveAlt,
        TermEvent::RawOn => TermKind::RawOn,
        TermEvent::RawOff => TermKind::RawOff,
        TermEvent::Clear => TermKind::Clear,
        TermEvent::MoveOrigin => TermKind::MoveOrigin,
        TermEvent::Write(_) => TermKind::Write,
        TermEvent::Flush => TermKind::Flush,
    }
}

/// How many events of `s` have kind `k`.
pub open spec fn count_kind(s: Seq<TermEvent>, k: TermKind) -> nat
    decreases s.len(),
{
    if s.len() == 0 {
        0
    } else {
        count_kind(s.drop_last(), k) + if kind_of(s.last()) == k {
            1nat
        } else {
            0nat
        }
    }
}

pub proof fn lemma_count_kind_push(s: Seq<TermEvent>, e: TermEvent, k: TermKind)
    ensures
        count_kind(s.push(e), k) == count_kind(s, k) + if kind_of(e) == k {
            1nat
        } else {
            0nat
        },
{
    assert(s.push(e).drop_last() =~= s);
    assert(s.push(e).last() == e);
}

pub proof fn lemma_count_kind_concat(s1: Seq<TermEvent>, s2: Seq<TermEvent>, k: TermKind)
    ensures
        count_kind(s1 + s2, k) == count_kind(s1, k) + count_kind(s2, k),
    decreases s2.len(),
{
    if s2.len() == 0 {
        assert(s1 + s2 =~= s1);
    } else {
        lemma_count_kind_concat(s1, s2.drop_last(), k);
        assert((s1 + s2).drop_last() =~= s1 + s2.drop_last());
        assert((s1 + s2).last() == s2.last());
    }
}

pub proof fn lemma_count_kind_zero(s: Seq<TermEvent>, k: TermKind)
    requires
        forall|i: int| 0 <= i < s.len() ==> kind_of(#[trigger] s[i]) != k,
    ensures
        count_kind(s, k) == 0,
    decreases s.len(),
{
    if s.len() > 0 {
        lemma_count_kind_zero(s.drop_last(), k);
        assert(s.last() == s[s.len() - 1]);
    }
}

pub proof fn lemma_count_kind_pair(e1: TermEvent, e2: TermEvent, k: TermKind)
    ensures
        count_kind(seq![e1, e2], k) == (if kind_of(e1) == k {
            1nat
        } else {
            0nat
        }) + (if kind_of(e2) == k {
            1nat
        } else {
            0nat
        }),
{
    assert(seq![e1, e2] =~= Seq::<TermEvent>::empty().push(e1).push(e2));
    lemma_count_kind_push(Seq::<TermEvent>::empty().push(e1), e2, k);
    lemma_count_kind_push(Seq::<TermEvent>::empty(), e1, k);
}

/// Counting distributes over a chained extension of the log.
pub proof fn lemma_count_kind_split(
    a: Seq<TermEvent>,
    b: Seq<TermEvent>,
    c: Seq<TermEvent>,
    k: TermKind,
)
    requires
        log_extends(a, b),
        log_extends(b, c),
    ensures
        log_extends(a, c),
        count_kind(log_added(a, c), k) == count_kind(log_added(a, b), k) + count_kind(
            log_added(b, c),
            k,
        ),
{
    assert forall|i: int| 0 <= i < b.len() implies c[i] == b[i] by {
        assert(c.take(b.len() as int)[i] == c[i]);
    }
    assert(c.take(a.len() as int) =~= b.take(a.len() as int));
    assert(log_added(a, c) =~= log_added(a, b) + log_added(b, c));
    lemma_count_kind_concat(log_added(a, b), log_added(b, c), k);
}

/// `post` extends `pre` by `more`.
pub open spec fn log_extends(pre: Seq<TermEvent>, post: Seq<TermEvent>) -> bool {
    post.len() >= pre.len() && post.take(pre.len() as int) == pre
}

/// The part of `post` that came after `pre`.
pub open spec fn log_added(pre: Seq<TermEvent>, post: Seq<TermEvent>) -> Seq<TermEvent> {
    post.skip(pre.len() as int)
}

pub open spec fn is_session_event(e: TermEvent) -> bool {
    e is EnterAlt || e is LeaveAlt || e is RawOn || e is RawOff
}

/// `post` extends `pre` with screen work only: nothing that acquires or
/// releases the terminal.
pub open spec fn session_neutral(pre: Seq<TermEvent>, post: Seq<TermEvent>) -> bool {
    log_extends(pre, post) && forall|i: int|
        pre.len() <= i < post.len() ==> !is_session_event(#[trigger] post[i])
}

/// Acquisitions and release calls in what came after `pre` pair up: as
/// many alternate-screen entries as leave calls, and as many raw-mode
/// switches on as off.
pub open spec fn session_balanced(pre: Seq<TermEvent>, post: Seq<TermEvent>) -> bool {
    &&& log_extends(pre, post)
    &&& count_kind(log_added(pre, post), TermKind::EnterAlt) == count_kind(
        log_added(pre, post),
        TermKind::LeaveAlt,
    )
    &&& count_kind(log_added(pre, post), TermKind::RawOn) == count_kind(
        log_added(pre, post),
        TermKind::RawOff,
    )
}

/// `post` is `pre` plus one whole screen refresh: clear, home the cursor,
/// write `text`, flush — and nothing else.
pub open spec fn screen_refresh(pre: Seq<TermEvent>, post: Seq<TermEvent>, text: Seq<char>) -> bool {
    &&& post.len() == pre.len() + 4
    &&& post.take(pre.len() as int) == pre
    &&& post[pre.len() as int] is Clear
    &&& post[pre.len() as int + 1] is MoveOrigin
    &&& post[pre.len() as int + 2] matches TermEvent::Write(w) && w@ == text
    &&& post[pre.len() as int + 3] is Flush
}

/// Law: one screen refresh writes the screen exactly once and flushes
/// exactly once — no more, whatever the text.
pub proof fn lemma_refresh_flushes_once(pre: Seq<TermEvent>, post: Seq<TermEvent>, text: Seq<char>)
    requires
        screen_refresh(pre, post, text),
    ensures
        count_kind(log_added(pre, post), TermKind::Write) == 1,
        count_kind(log_added(pre, post), TermKind::Flush) == 1,
{
    let added = log_added(pre, post);
    assert(added[0] == post[pre.len() as int]);
    assert(added[1] == post[pre.len() as int + 1]);
    assert(added[2] == post[pre.len() as int + 2]);
    assert(added[3] == post[pre.len() as int + 3]);
    assert(added =~= Seq::<TermEvent>::empty().push(added[0]).push(added[1]).push(added[2]).push(
        added[3],
    ));
    lemma_count_kind_push(
        Seq::<TermEvent>::empty().push(added[0]).push(added[1]).push(added[2]),
        added[3],
        TermKind::Write,
    );
    lemma_count_kind_push(
        Seq::<TermEvent>::empty().push(added[0]).push(added[1]),
        added[2],
        TermKind::Write,
    );
    lemma_count_kind_push(Seq::<TermEvent>::empty().push(added[0]), added[1], TermKind::Write);
    lemma_count_kind_push(Seq::<TermEvent>::empty(), added[0], TermKind::Write);
    lemma_count_kind_push(
        Seq::<TermEvent>::empty().push(added[0]).push(added[1]).push(added[2]),
        added[3],
        TermKind::Flush,
    );
    lemma_count_kind_push(
        Seq::<TermEvent>::empty().push(added[0]).push(added[1]),
        added[2],
        TermKind::Flush,
    );
    lemma_count_kind_push(Seq::<TermEvent>::empty().push(added[0]), added[1], TermKind::Flush);
    lemma_count_kind_push(Seq::<TermEvent>::empty(), added[0], TermKind::Flush);
}

/// `post` is `pre` plus a proper prefix of one refresh group: the screen
/// work stopped at the first failing operation, and in particular nothing
/// was written after a failure.
pub open spec fn screen_refresh_attempt(
    pre: Seq<TermEvent>,
    post: Seq<TermEvent>,
    text: Seq<char>,
) -> bool {
    &&& pre.len() <= post.len() < pre.len() + 4
    &&& post.take(pre.len() as int) == pre
    &&& (post.len() > pre.len() ==> post[pre.len() as int] is Clear)
    &&& (post.len() > pre.len() + 1 ==> post[pre.len() as int + 1] is MoveOrigin)
    &&& (post.len() > pre.len() + 2 ==> (post[pre.len() as int + 2] matches TermEvent::Write(w)
        && w@ == text))
}

/// The terminal control surface the controller needs: alternate screen,
/// raw mode, clearing, homing the cursor, writing and flushing. Every
/// implementation keeps a log of the operations it performed, so callers
/// can state how a call used the terminal.
pub trait Terminal: Sized {
    /// All operations performed so far, oldest first.
    spec fn log(&self) -> Seq<TermEvent>;

    /// Whether this port can never report failure. Where it holds, every
    /// operation is owed success; a real terminal does not offer it.
    spec fn infallible(&self) -> bool;

    /// Enter the alternate screen buffer.
    fn enter_alt(&mut self) -> (r: Result<(), TermError>)
        ensures
            r is Ok ==> final(self).log() == old(self).log().push(TermEvent::EnterAlt),
            r is Err ==> final(self).log() == old(self).log(),
            final(self).infallible() == old(self).infallible(),
            old(self).infallible() ==> r is Ok,
    ;

    /// Leave the alternate screen buffer. The attempt is always recorded.
    fn leave_alt(&mut self) -> (r: Result<(), TermError>)
        ensures
            final(self).log() == old(self).log().push(TermEvent::LeaveAlt),
            final(self).infallible() == old(self).infallible(),
            old(self).infallible() ==> r is Ok,
    ;

    /// Switch the terminal to raw (unbuffered, no-echo) input.
    fn raw_on(&mut self) -> (r: Result<(), TermError>)
        ensures
            r is Ok ==> final(self).log() == old(self).log().push(TermEvent::RawOn),
            r is Err ==> final(self).log() == old(self).log(),
            final(self).infallible() == old(self).infallible(),
            old(self).infallible() ==> r is Ok,
    ;

    /// Switch raw input back off. The attempt is always recorded.
    fn raw_off(&mut self) -> (r: Result<(), TermError>)
        ensures
            final(self).log() == old(self).log().push(TermEvent::RawOff),
            final(self).infallible() == old(self).infallible(),
            old(self).infallible() ==> r is Ok,
    ;

    /// Clear the whole screen.
    fn clear(&mut self) -> (r: Result<(), TermError>)
        ensures
            r is Ok ==> final(self).log() == old(self).log().push(TermEvent::Clear),
            r is Err ==> final(self).log() == old(self).log(),
            final(self).infallible() == old(self).infallible(),
            old(self).infallible() ==> r is Ok,
    ;

    /// Move the cursor to the origin.
    fn move_origin(&mut self) -> (r: Result<(), TermError>)
        ensures
            r is Ok ==> final(self).log() == old(self).log().push(TermEvent::MoveOrigin),
            r is Err ==> final(self).log() == old(self).log(),
            final(self).infallible() == old(self).infallible(),
            old(self).infallible() ==> r is Ok,
    ;

    /// Write `text` at the cursor.
    fn write_text(&mut self, text: &str) -> (r: Result<(), TermError>)
        ensures
            r is Ok ==> final(self).log().len() == old(self).log().len() + 1
                && final(self).log().drop_last() == old(self).log()
                && (final(self).log().last() matches TermEvent::Write(w) && w@ == text@),
            r is Err ==> final(self).log() == old(self).log(),
            final(self).infallible() == old(self).infallible(),
            old(self).infallible() ==> r is Ok,
    ;

    /// Flush buffered output to the device.
    fn flush(&mut self) -> (r: Result<(), TermError>)
        ensures
            r is Ok ==> final(self).log() == old(self).log().push(TermEvent::Flush),
            r is Err ==> final(self).log() == old(self).log(),
            final(self).infallible() == old(self).infallible(),
            old(self).infallible() ==> r is Ok,
    ;
}

/// An in-memory terminal: it performs no device work, records every
/// operation, and can be told to fail at a chosen operation index, so a
/// controller can be exercised without a real terminal.
pub struct SimTerminal {
    ops: Vec<TermEvent>,
    fail_at: Option<usize>,
}

impl SimTerminal {
    /// A sim terminal on which every operation succeeds.
    pub fn new() -> (r: SimTerminal)
        ensures
            r.log() == Seq::<TermEvent>::empty(),
            r.spec_fail_at() is None,
    {
        SimTerminal { ops: Vec::new(), fail_at: None }
    }

    /// A sim terminal whose operation number `index` (counting from zero)
    /// reports failure.
    pub fn failing_at(index: usize) -> (r: SimTerminal)
        ensures
            r.log() == Seq::<TermEvent>::empty(),
            r.spec_fail_at() == Some(index),
    {
        SimTerminal { ops: Vec::new(), fail_at: Some(index) }
    }

    pub closed spec fn spec_fail_at(self) -> Option<usize> {
        self.fail_at
    }

    /// Whether the operation about to run is the one scheduled to fail.
    pub open spec fn next_fails(self) -> bool {
        self.spec_fail_at() matches Some(i) && i == self.log().len()
    }

    fn hits_failure(&self) -> (r: bool)
        ensures
            r == self.next_fails(),
    {
        match self.fail_at {
            Some(i) => i == self.ops.len(),
            None => false,
        }
    }

    /// The recorded operations, for inspection after a run.
    pub fn ops(&self) -> (r: &Vec<TermEvent>)
        ensures
            r@ == self.log(),
    {
        &self.ops
    }

    fn record(&mut self, e: TermEvent) -> (r: Result<(), TermError>)
        ensures
            r is Ok ==> !old(self).next_fails(),
            r is Err ==> old(self).next_fails(),
            final(self).log() == old(self).log().push(e),
            final(self).spec_fail_at() == old(self).spec_fail_at(),
    {
        let failed = self.hits_failure();
        self.ops.push(e);
        if failed {
            Err(TermError {})
        } else {
            Ok(())
        }
    }

    fn attempt(&mut self, e: TermEvent) -> (r: Result<(), TermError>)
        ensures
            r is Ok ==> final(self).log() == old(self).log().push(e) && !old(self).next_fails(),
            r is Err ==> final(self).log() == old(self).log() && old(self).next_fails(),
            final(self).spec_fail_at() == old(self).spec_fail_at(),
    {
        if self.hits_failure() {
            Err(TermError {})
        } else {
            self.ops.push(e);
            Ok(())
        }
    }
}

impl Terminal for SimTerminal {
    closed spec fn log(&self) -> Seq<TermEvent> {
        self.ops@
    }

    /// A sim terminal with no scheduled failure never fails.
    open spec fn infallible(&self) -> bool {
        self.spec_fail_at() is None
    }

    fn enter_alt(&mut self) -> (r: Result<(), TermError>)
        ensures
            final(self).spec_fail_at() == old(self).spec_fail_at(),
            r is Err <==> old(self).next_fails(),
    {
        self.attempt(TermEvent::EnterAlt)
    }

    fn leave_alt(&mut self) -> (r: Result<(), TermError>)
        ensures
            final(self).spec_fail_at() == old(self).spec_fail_at(),
            r is Err <==> old(self).next_fails(),
    {
        self.record(TermEvent::LeaveAlt)
    }

    fn raw_on(&mut self) -> (r: Result<(), TermError>)
        ensures
            final(self).spec_fail_at() == old(self).spec_fail_at(),
            r is Err <==> old(self).next_fails(),
    {
        self.attempt(TermEvent::RawOn)
    }

    fn raw_off(&mut self) -> (r: Result<(), TermError>)
        ensures
            final(self).spec_fail_at() == old(self).spec_fail_at(),
            r is Err <==> old(self).next_fails(),
    {
        self.record(TermEvent::RawOff)
    }

    fn clear(&mut self) -> (r: Result<(), TermError>)
        ensures
            final(self).spec_fail_at() == old(self).spec_fail_at(),
            r is Err <==> old(self).next_fails(),
    {
        self.attempt(TermEvent::Clear)
    }

    fn move_origin(&mut self) -> (r: Result<(), TermError>)
        ensures
            final(self).spec_fail_at() == old(self).spec_fail_at(),
            r is Err <==> old(self).next_fails(),
    {
        self.attempt(TermEvent::MoveOrigin)
    }

    fn write_text(&mut self, text: &str) -> (r: Result<(), TermError>)
        ensures
            final(self).spec_fail_at() == old(self).spec_fail_at(),
            r is Err <==> old(self).next_fails(),
    {
        let r = self.attempt(TermEvent::Write(text.to_owned()));
        proof {
            if r is Ok {
                assert(self.log().drop_last() =~= old(self).log());
            }
        }
        r
    }

    fn flush(&mut self) -> (r: Result<(), TermError>)
        ensures
            final(self).spec_fail_at() == old(self).spec_fail_at(),
            r is Err <==> old(self).next_fails(),
    {
        self.attempt(TermEvent::Flush)
    }
}

} // verus!
