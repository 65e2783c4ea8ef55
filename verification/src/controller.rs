use vstd::prelude::*;

use crate::args::ViewArgs;
use crate::instruction::{command_base_set, is_base_set, Action, Instruction, InstructionSet};
use crate::keys::{KeyCode, KeyQueue};
use crate::metrics::MetricsSource;
use crate::render::{compose_frame, frame_text};
use crate::status::Status;
use crate::term::{
    count_kind, is_session_event, kind_of, lemma_count_kind_concat, lemma_count_kind_pair,
    lemma_count_kind_push, lemma_count_kind_split, lemma_count_kind_zero, lemma_refresh_flushes_once,
    log_added, log_extends,
    screen_refresh, screen_refresh_attempt, session_balanced, session_neutral, TermError,
    TermEvent, TermKind, Terminal,
};

verus! {

/// Lifecycle entry points of a controller: get it ready, then drive a
/// whole session. The trait's own contracts give any caller the
/// lifecycle guarantees; the one implementation strengthens them.
pub trait Begin: Sized {
    /// The lifecycle stage a trait-level caller sees.
    spec fn lifecycle(&self) -> Status;

    /// Idempotent entry guard: a fresh controller becomes `Ready`; in
    /// any other stage nothing at all happens.
    fn prepare(&mut self)
        ensures
            old(self).lifecycle().can_reach(final(self).lifecycle()),
            old(self).lifecycle() is Inactive ==> final(self).lifecycle() is Ready,
            !(old(self).lifecycle() is Inactive) ==> *final(self) == *old(self),
    ;

    /// Drive one whole session over a finite stream of key codes; the
    /// lifecycle only moves forward, success from a startable stage ends
    /// in `Terminating`, and failure never leaves the loop running.
    fn run(&mut self, keys: &mut KeyQueue) -> (r: Result<(), TermError>)
        ensures
            old(self).lifecycle().can_reach(final(self).lifecycle()),
            r is Ok && (old(self).lifecycle() is Inactive || old(self).lifecycle() is Ready)
                ==> final(self).lifecycle() is Terminating,
            r is Err ==> !(final(self).lifecycle() is Running),
    ;
}

/// The events a log segment may hold while a session is open: screen work
/// only.
pub open spec fn neutral_events(mid: Seq<TermEvent>) -> bool {
    forall|i: int| 0 <= i < mid.len() ==> !is_session_event(#[trigger] mid[i])
}

/// What one `run` call may leave in the terminal log: nothing (refused, or
/// failed before acquiring anything), an acquisition rolled back at once,
/// or a full session — acquire both modes, screen work, release both
/// modes.
pub open spec fn session_log_shape(pre: Seq<TermEvent>, post: Seq<TermEvent>) -> bool {
    ||| post == pre
    ||| post == pre.push(TermEvent::EnterAlt).push(TermEvent::LeaveAlt)
    ||| exists|mid: Seq<TermEvent>|
        neutral_events(mid) && post == pre + seq![TermEvent::EnterAlt, TermEvent::RawOn] + mid
            + seq![TermEvent::RawOff, TermEvent::LeaveAlt]
}

/// A log is a screen-work extension of itself.
pub proof fn lemma_neutral_refl(l: Seq<TermEvent>)
    ensures
        session_neutral(l, l),
{
    assert(l.take(l.len() as int) =~= l);
}

/// A screen-work extension stays one when a single screen event follows.
pub proof fn lemma_neutral_step(pre: Seq<TermEvent>, post: Seq<TermEvent>, post2: Seq<TermEvent>)
    requires
        session_neutral(pre, post),
        post2.len() == post.len() + 1,
        post2.drop_last() == post,
        !is_session_event(post2.last()),
    ensures
        session_neutral(pre, post2),
{
    assert forall|i: int| 0 <= i < post.len() implies post2[i] == post[i] by {
        assert(post2.drop_last()[i] == post2[i]);
    }
    assert(post2.take(pre.len() as int) =~= post.take(pre.len() as int));
    assert forall|i: int| pre.len() <= i < post2.len() implies !is_session_event(
        #[trigger] post2[i],
    ) by {
        if i < post.len() {
            assert(post2[i] == post[i]);
        } else {
            assert(post2[i] == post2.last());
        }
    }
}

/// Screen-work extensions of the log compose.
pub proof fn lemma_neutral_trans(a: Seq<TermEvent>, b: Seq<TermEvent>, c: Seq<TermEvent>)
    requires
        session_neutral(a, b),
        session_neutral(b, c),
    ensures
        session_neutral(a, c),
{
    assert forall|i: int| 0 <= i < b.len() implies c[i] == b[i] by {
        assert(c.take(b.len() as int)[i] == c[i]);
    }
    assert(c.take(a.len() as int) =~= b.take(a.len() as int));
    assert forall|i: int| a.len() <= i < c.len() implies !is_session_event(#[trigger] c[i]) by {
        if i < b.len() {
            assert(c[i] == b[i]);
        }
    }
}

/// The status a dispatched burst leaves, computed from the table alone:
/// each code bound to the quit action moves the status to `Terminating`,
/// and nothing else moves it.
pub open spec fn status_after(tbl: InstructionSet, st: Status, codes: Seq<KeyCode>) -> Status
    decreases codes.len(),
{
    if codes.len() == 0 {
        st
    } else {
        status_after(
            tbl,
            if tbl.action_of(codes[0]) == Some(Action::Terminate) {
                Status::Terminating
            } else {
                st
            },
            codes.drop_first(),
        )
    }
}

/// How many codes of a burst are bound to the refresh action.
pub open spec fn refresh_hits(tbl: InstructionSet, codes: Seq<KeyCode>) -> nat
    decreases codes.len(),
{
    if codes.len() == 0 {
        0
    } else {
        (if tbl.action_of(codes[0]) == Some(Action::Refresh) {
            1nat
        } else {
            0nat
        }) + refresh_hits(tbl, codes.drop_first())
    }
}

/// Law: terminal-mode acquisition and release are balanced. Whatever a
/// session left in the log — nothing, a rolled-back acquisition, or a
/// full session — alternate-screen entries match leave calls one for
/// one, and raw-mode switches on match switches off.
pub proof fn lemma_run_balanced(pre: Seq<TermEvent>, post: Seq<TermEvent>)
    requires
        session_log_shape(pre, post),
    ensures
        session_balanced(pre, post),
{
    if post == pre {
        assert(post.take(pre.len() as int) =~= pre);
        assert(log_added(pre, post) =~= Seq::<TermEvent>::empty());
        assert(count_kind(Seq::<TermEvent>::empty(), TermKind::EnterAlt) == 0);
        assert(count_kind(Seq::<TermEvent>::empty(), TermKind::LeaveAlt) == 0);
        assert(count_kind(Seq::<TermEvent>::empty(), TermKind::RawOn) == 0);
        assert(count_kind(Seq::<TermEvent>::empty(), TermKind::RawOff) == 0);
    } else if post == pre.push(TermEvent::EnterAlt).push(TermEvent::LeaveAlt) {
        assert(post.take(pre.len() as int) =~= pre);
        assert(log_added(pre, post) =~= seq![TermEvent::EnterAlt, TermEvent::LeaveAlt]);
        lemma_count_kind_pair(TermEvent::EnterAlt, TermEvent::LeaveAlt, TermKind::EnterAlt);
        lemma_count_kind_pair(TermEvent::EnterAlt, TermEvent::LeaveAlt, TermKind::LeaveAlt);
        lemma_count_kind_pair(TermEvent::EnterAlt, TermEvent::LeaveAlt, TermKind::RawOn);
        lemma_count_kind_pair(TermEvent::EnterAlt, TermEvent::LeaveAlt, TermKind::RawOff);
    } else {
        let mid = choose|mid: Seq<TermEvent>|
            neutral_events(mid) && post == pre + seq![TermEvent::EnterAlt, TermEvent::RawOn] + mid
                + seq![TermEvent::RawOff, TermEvent::LeaveAlt];
        let open = seq![TermEvent::EnterAlt, TermEvent::RawOn];
        let close = seq![TermEvent::RawOff, TermEvent::LeaveAlt];
        assert(post.take(pre.len() as int) =~= pre);
        assert(log_added(pre, post) =~= open + mid + close);
        let kinds = seq![TermKind::EnterAlt, TermKind::LeaveAlt, TermKind::RawOn, TermKind::RawOff];
        assert forall|j: int| 0 <= j < kinds.len() implies count_kind(
            log_added(pre, post),
            #[trigger] kinds[j],
        ) == count_kind(open, kinds[j]) + count_kind(mid, kinds[j]) + count_kind(
            close,
            kinds[j],
        ) by {
            lemma_count_kind_concat(open + mid, close, kinds[j]);
            lemma_count_kind_concat(open, mid, kinds[j]);
        }
        assert forall|j: int| 0 <= j < kinds.len() implies count_kind(mid, #[trigger] kinds[j])
            == 0 by {
            assert forall|i: int| 0 <= i < mid.len() implies kind_of(#[trigger] mid[i])
                != kinds[j] by {
                assert(!is_session_event(mid[i]));
            }
            lemma_count_kind_zero(mid, kinds[j]);
        }
        lemma_count_kind_pair(TermEvent::EnterAlt, TermEvent::RawOn, TermKind::EnterAlt);
        lemma_count_kind_pair(TermEvent::EnterAlt, TermEvent::RawOn, TermKind::LeaveAlt);
        lemma_count_kind_pair(TermEvent::EnterAlt, TermEvent::RawOn, TermKind::RawOn);
        lemma_count_kind_pair(TermEvent::EnterAlt, TermEvent::RawOn, TermKind::RawOff);
        lemma_count_kind_pair(TermEvent::RawOff, TermEvent::LeaveAlt, TermKind::EnterAlt);
        lemma_count_kind_pair(TermEvent::RawOff, TermEvent::LeaveAlt, TermKind::LeaveAlt);
        lemma_count_kind_pair(TermEvent::RawOff, TermEvent::LeaveAlt, TermKind::RawOn);
        lemma_count_kind_pair(TermEvent::RawOff, TermEvent::LeaveAlt, TermKind::RawOff);
        assert(count_kind(log_added(pre, post), TermKind::EnterAlt) == count_kind(
            log_added(pre, post),
            TermKind::LeaveAlt,
        )) by {
            assert(kinds[0] == TermKind::EnterAlt && kinds[1] == TermKind::LeaveAlt);
        }
        assert(count_kind(log_added(pre, post), TermKind::RawOn) == count_kind(
            log_added(pre, post),
            TermKind::RawOff,
        )) by {
            assert(kinds[2] == TermKind::RawOn && kinds[3] == TermKind::RawOff);
        }
    }
}

/// The interactive controller: it owns the terminal port, the metrics
/// source, the lifecycle status, the chosen view and the command table,
/// and is the sole mutator of its status.
pub struct Controller<T: Terminal, M: MetricsSource> {
    term: T,
    metrics: M,
    status: Status,
    args: ViewArgs,
    instructions: InstructionSet,
}

impl<T: Terminal, M: MetricsSource> Controller<T, M> {
    pub closed spec fn spec_status(self) -> Status {
        self.status
    }

    pub closed spec fn spec_term(self) -> T {
        self.term
    }

    pub closed spec fn spec_metrics(self) -> M {
        self.metrics
    }

    pub closed spec fn spec_args(self) -> ViewArgs {
        self.args
    }

    pub closed spec fn spec_table(self) -> InstructionSet {
        self.instructions
    }

    /// A session may start only before one has started or ended.
    pub open spec fn spec_startable(self) -> bool {
        self.spec_status() is Inactive || self.spec_status() is Ready
    }

    /// What `prepare` does: a fresh controller becomes `Ready` with its
    /// terminal, table and view untouched (only the metrics were
    /// refreshed); any other controller is left exactly as it was.
    pub open spec fn prepare_rel(pre: Self, post: Self) -> bool {
        &&& (pre.spec_status() is Inactive ==> post.spec_status() is Ready && post.spec_term()
            == pre.spec_term() && post.spec_table() == pre.spec_table() && post.spec_args()
            == pre.spec_args() && post.spec_metrics().generation() == pre.spec_metrics()
            .generation() + 1)
        &&& (!(pre.spec_status() is Inactive) ==> post == pre)
    }

    /// Law: `prepare` is idempotent. A second call in a row finds the
    /// controller no longer `Inactive`, so it changes nothing and
    /// duplicates no side effect.
    pub proof fn lemma_prepare_idempotent(a: Self, b: Self, c: Self)
        requires
            Self::prepare_rel(a, b),
            Self::prepare_rel(b, c),
        ensures
            c == b,
    {
    }

    /// What one screen refresh does: status, table and view are untouched;
    /// on success the log gains exactly one clear/home/write/flush group
    /// whose text frames a snapshot the provider can hand out; on failure
    /// the log gains at most screen work.
    pub open spec fn refresh_rel(pre: Self, post: Self, r: Result<(), TermError>) -> bool {
        &&& post.spec_status() == pre.spec_status()
        &&& post.spec_table() == pre.spec_table()
        &&& post.spec_args() == pre.spec_args()
        &&& post.spec_metrics().generation() == pre.spec_metrics().generation()
        &&& post.spec_term().infallible() == pre.spec_term().infallible()
        &&& (pre.spec_term().infallible() ==> r is Ok)
        &&& (r is Ok ==> exists|body: Seq<char>|
            pre.spec_metrics().provides(pre.spec_args().command, body) && screen_refresh(
                pre.spec_term().log(),
                post.spec_term().log(),
                frame_text(pre.spec_args().command.title_spec(), body),
            ))
        &&& (r is Err ==> session_neutral(pre.spec_term().log(), post.spec_term().log())
            && exists|body: Seq<char>|
            pre.spec_metrics().provides(pre.spec_args().command, body) && screen_refresh_attempt(
                pre.spec_term().log(),
                post.spec_term().log(),
                frame_text(pre.spec_args().command.title_spec(), body),
            ))
    }

    /// What invoking a looked-up action (or none) does.
    pub open spec fn action_rel(
        pre: Self,
        act: Option<Action>,
        post: Self,
        r: Result<(), TermError>,
    ) -> bool {
        match act {
            None => post == pre && r is Ok,
            Some(Action::Terminate) => r is Ok && post.spec_status() is Terminating
                && post.spec_term() == pre.spec_term() && post.spec_metrics()
                == pre.spec_metrics() && post.spec_table() == pre.spec_table() && post.spec_args()
                == pre.spec_args(),
            Some(Action::Refresh) => Self::refresh_rel(pre, post, r),
        }
    }

    /// What dispatching one key code does: look the code up in the table,
    /// ignore it silently if unbound, else invoke the bound action.
    pub open spec fn dispatch_rel(
        pre: Self,
        code: KeyCode,
        post: Self,
        r: Result<(), TermError>,
    ) -> bool {
        Self::action_rel(pre, pre.spec_table().action_of(code), post, r)
    }

    /// What dispatching a burst of codes in order does: each code is
    /// dispatched against the state the previous one left, and the first
    /// error stops the burst.
    pub open spec fn burst_rel(
        pre: Self,
        codes: Seq<KeyCode>,
        post: Self,
        r: Result<(), TermError>,
    ) -> bool
        decreases codes.len(),
    {
        if codes.len() == 0 {
            post == pre && r is Ok
        } else {
            exists|mid: Self, r1: Result<(), TermError>|
                Self::dispatch_rel(pre, codes[0], mid, r1) && if r1 is Err {
                    post == mid && r == r1
                } else {
                    Self::burst_rel(mid, codes.drop_first(), post, r)
                }
        }
    }

    /// Build a controller over its ports: status starts at `Inactive` and
    /// the command table is the base set.
    pub fn new(term: T, metrics: M, args: ViewArgs) -> (r: Controller<T, M>)
        ensures
            r.spec_status() is Inactive,
            r.spec_term() == term,
            r.spec_metrics() == metrics,
            r.spec_args() == args,
            is_base_set(r.spec_table()),
    {
        Controller {
            term,
            metrics,
            status: Status::Inactive,
            args,
            instructions: command_base_set(),
        }
    }

    pub fn status(&self) -> (r: &Status)
        ensures
            *r == self.spec_status(),
    {
        &self.status
    }

    /// The terminal port, for inspection.
    pub fn term(&self) -> (r: &T)
        ensures
            *r == self.spec_term(),
    {
        &self.term
    }

    /// The metrics source, for inspection.
    pub fn metrics(&self) -> (r: &M)
        ensures
            *r == self.spec_metrics(),
    {
        &self.metrics
    }

    /// Force transition to `Terminating`; cleanup happens on the session's
    /// exit path, not here.
    pub fn terminate(&mut self) -> (r: Result<(), TermError>)
        ensures
            r is Ok,
            final(self).spec_status() is Terminating,
            final(self).spec_term() == old(self).spec_term(),
            final(self).spec_metrics() == old(self).spec_metrics(),
            final(self).spec_table() == old(self).spec_table(),
            final(self).spec_args() == old(self).spec_args(),
    {
        self.status = Status::Terminating;
        Ok(())
    }

    /// Query the provider for the active view, clear the screen, home the
    /// cursor, write the framed snapshot and flush — no status change.
    pub fn refresh_screen(&mut self) -> (r: Result<(), TermError>)
        ensures
            Self::refresh_rel(*old(self), *final(self), r),
    {
        let title = self.args.command.title();
        let body = self.metrics.snapshot(&self.args.command);
        let text = compose_frame(title, body.as_str());
        let ghost l0 = self.term.log();
        proof {
            lemma_neutral_refl(l0);
        }
        match self.term.clear() {
            Ok(()) => {},
            Err(e) => {
                proof {
                    assert(old(self).spec_metrics().provides(
                        old(self).spec_args().command,
                        body@,
                    ));
                    assert(screen_refresh_attempt(
                        l0,
                        self.term.log(),
                        frame_text(old(self).spec_args().command.title_spec(), body@),
                    ));
                    assert(exists|b: Seq<char>|
                        old(self).spec_metrics().provides(old(self).spec_args().command, b)
                            && screen_refresh_attempt(
                            l0,
                            self.term.log(),
                            frame_text(old(self).spec_args().command.title_spec(), b),
                        ));
                }
                return Err(e);
            },
        }
        let ghost l1 = self.term.log();
        proof {
            assert(l1.drop_last() =~= l0);
            lemma_neutral_step(l0, l0, l1);
        }
        match self.term.move_origin() {
            Ok(()) => {},
            Err(e) => {
                proof {
                    assert(old(self).spec_metrics().provides(
                        old(self).spec_args().command,
                        body@,
                    ));
                    assert(screen_refresh_attempt(
                        l0,
                        self.term.log(),
                        frame_text(old(self).spec_args().command.title_spec(), body@),
                    ));
                    assert(exists|b: Seq<char>|
                        old(self).spec_metrics().provides(old(self).spec_args().command, b)
                            && screen_refresh_attempt(
                            l0,
                            self.term.log(),
                            frame_text(old(self).spec_args().command.title_spec(), b),
                        ));
                }
                return Err(e);
            },
        }
        let ghost l2 = self.term.log();
        proof {
            assert(l2.drop_last() =~= l1);
            lemma_neutral_step(l0, l1, l2);
        }
        match self.term.write_text(text.as_str()) {
            Ok(()) => {},
            Err(e) => {
                proof {
                    assert(old(self).spec_metrics().provides(
                        old(self).spec_args().command,
                        body@,
                    ));
                    assert(screen_refresh_attempt(
                        l0,
                        self.term.log(),
                        frame_text(old(self).spec_args().command.title_spec(), body@),
                    ));
                    assert(exists|b: Seq<char>|
                        old(self).spec_metrics().provides(old(self).spec_args().command, b)
                            && screen_refresh_attempt(
                            l0,
                            self.term.log(),
                            frame_text(old(self).spec_args().command.title_spec(), b),
                        ));
                }
                return Err(e);
            },
        }
        let ghost l3 = self.term.log();
        proof {
            lemma_neutral_step(l0, l2, l3);
        }
        match self.term.flush() {
            Ok(()) => {},
            Err(e) => {
                proof {
                    assert(old(self).spec_metrics().provides(
                        old(self).spec_args().command,
                        body@,
                    ));
                    assert(l3[l0.len() as int] == l2[l0.len() as int]);
                    assert(l3[l0.len() as int + 1] == l2[l0.len() as int + 1]);
                    assert(l3[l0.len() as int + 2] == l3.last());
                    assert(screen_refresh_attempt(
                        l0,
                        self.term.log(),
                        frame_text(old(self).spec_args().command.title_spec(), body@),
                    ));
                    assert(exists|b: Seq<char>|
                        old(self).spec_metrics().provides(old(self).spec_args().command, b)
                            && screen_refresh_attempt(
                            l0,
                            self.term.log(),
                            frame_text(old(self).spec_args().command.title_spec(), b),
                        ));
                }
                return Err(e);
            },
        }
        let ghost l4 = self.term.log();
        proof {
            assert(l4.drop_last() =~= l3);
            lemma_neutral_step(l0, l3, l4);
            assert(l4.take(l0.len() as int) == l0);
            assert(l4[l0.len() as int] is Clear) by {
                assert(l4[l0.len() as int] == l1[l0.len() as int]);
            }
            assert(l4[l0.len() as int + 1] is MoveOrigin) by {
                assert(l4[l0.len() as int + 1] == l2[l0.len() as int + 1]);
            }
            assert(l4[l0.len() as int + 2] == l3.last()) by {
                assert(l4[l0.len() as int + 2] == l3[l0.len() as int + 2]);
            }
            assert(l4[l0.len() as int + 3] == l4.last());
            assert(screen_refresh(l0, l4, frame_text(old(self).spec_args().command.title_spec(), body@)));
            assert(old(self).spec_metrics().provides(old(self).spec_args().command, body@));
            assert(exists|b: Seq<char>|
                old(self).spec_metrics().provides(old(self).spec_args().command, b)
                    && screen_refresh(
                    l0,
                    l4,
                    frame_text(old(self).spec_args().command.title_spec(), b),
                ));
        }
        Ok(())
    }

    /// Invoke a looked-up action, or nothing at all.
    fn apply(&mut self, act: Option<Action>) -> (r: Result<(), TermError>)
        ensures
            Self::action_rel(*old(self), act, *final(self), r),
    {
        match act {
            None => Ok(()),
            Some(Action::Terminate) => self.terminate(),
            Some(Action::Refresh) => self.refresh_screen(),
        }
    }

    /// Dispatch one key code: an unbound code is a silent no-op, a bound
    /// one invokes its action; any action error propagates.
    pub fn dispatch(&mut self, code: KeyCode) -> (r: Result<(), TermError>)
        ensures
            Self::dispatch_rel(*old(self), code, *final(self), r),
    {
        let act = self.instructions.lookup_action(code);
        self.apply(act)
    }

    /// Dispatch every queued code in arrival order; the first error stops
    /// the drain and leaves the rest queued.
    pub fn drain(&mut self, keys: &mut KeyQueue) -> (r: Result<(), TermError>)
        ensures
            Self::burst_rel(
                *old(self),
                old(keys)@.take(old(keys)@.len() - final(keys)@.len()),
                *final(self),
                r,
            ),
            final(keys)@.len() <= old(keys)@.len(),
            final(keys)@ == old(keys)@.skip(old(keys)@.len() - final(keys)@.len()),
            r is Ok ==> final(keys)@.len() == 0,
    {
        let ghost pre = *self;
        let ghost q0 = keys@;
        let ghost mut done: Seq<KeyCode> = Seq::empty();
        let mut out: Result<(), TermError> = Ok(());
        proof {
            assert(done + keys@ =~= keys@);
        }
        loop
            invariant_except_break
                out is Ok,
                q0 == done + keys@,
                Self::burst_rel(pre, done, *self, out),
            ensures
                q0 == done + keys@,
                Self::burst_rel(pre, done, *self, out),
                out is Ok ==> keys@.len() == 0,
            decreases keys@.len(),
        {
            let ghost kv = keys@;
            let next = keys.pop();
            match next {
                None => {
                    break ;
                },
                Some(code) => {
                    let ghost mid = *self;
                    let res = self.dispatch(code);
                    proof {
                        Self::lemma_burst_snoc(pre, done, mid, out, code, *self, res);
                        assert(kv =~= seq![code] + keys@);
                        assert(done + kv =~= done.push(code) + keys@);
                        done = done.push(code);
                    }
                    out = res;
                    if out.is_err() {
                        break ;
                    }
                },
            }
        }
        proof {
            assert(done =~= q0.take(q0.len() - keys@.len()));
            assert(keys@ =~= q0.skip(q0.len() - keys@.len()));
        }
        out
    }

    /// One loop iteration: render the current snapshot, then dispatch
    /// everything queued, in order.
    pub fn tick(&mut self, keys: &mut KeyQueue) -> (r: Result<(), TermError>)
        ensures
            session_neutral(old(self).spec_term().log(), final(self).spec_term().log()),
            old(self).spec_status().can_reach(final(self).spec_status()),
            final(self).spec_status() == old(self).spec_status() || final(self).spec_status()
                is Terminating,
            final(self).spec_table() == old(self).spec_table(),
            final(self).spec_args() == old(self).spec_args(),
            final(self).spec_metrics().generation() == old(self).spec_metrics().generation(),
            final(self).spec_term().infallible() == old(self).spec_term().infallible(),
            old(self).spec_term().infallible() ==> r is Ok,
            final(keys)@.len() <= old(keys)@.len(),
            final(keys)@ == old(keys)@.skip(old(keys)@.len() - final(keys)@.len()),
            r is Ok ==> final(keys)@.len() == 0,
            ({
                ||| (r is Err && final(keys)@ == old(keys)@ && Self::refresh_rel(
                    *old(self),
                    *final(self),
                    r,
                ))
                ||| exists|mid: Self|
                    Self::refresh_rel(*old(self), mid, Ok::<(), TermError>(()))
                        && Self::burst_rel(
                        mid,
                        old(keys)@.take(old(keys)@.len() - final(keys)@.len()),
                        *final(self),
                        r,
                    )
            }),
    {
        let ghost pre = *self;
        match self.refresh_screen() {
            Ok(()) => {},
            Err(e) => {
                proof {
                    Self::lemma_refresh_neutral(pre, *self, Err(e));
                    assert(keys@.skip(0) =~= keys@);
                }
                return Err(e);
            },
        }
        proof {
            Self::lemma_refresh_neutral(pre, *self, Ok(()));
        }
        let ghost mid = *self;
        let ghost qv = keys@;
        let r = self.drain(keys);
        proof {
            Self::lemma_burst_frame(mid, qv.take(qv.len() - keys@.len()), *self, r);
            lemma_neutral_trans(pre.spec_term().log(), mid.spec_term().log(), self.spec_term().log());
            assert(Self::refresh_rel(pre, mid, Ok::<(), TermError>(())));
            assert(exists|m: Self|
                Self::refresh_rel(pre, m, Ok::<(), TermError>(())) && Self::burst_rel(
                    m,
                    qv.take(qv.len() - keys@.len()),
                    *self,
                    r,
                ));
        }
        r
    }

    /// A refresh leaves only screen work in the log and keeps the status.
    proof fn lemma_refresh_neutral(pre: Self, post: Self, r: Result<(), TermError>)
        requires
            Self::refresh_rel(pre, post, r),
        ensures
            session_neutral(pre.spec_term().log(), post.spec_term().log()),
            pre.spec_status().can_reach(post.spec_status()),
    {
        if r is Ok {
            let body = choose|body: Seq<char>|
                pre.spec_metrics().provides(pre.spec_args().command, body) && screen_refresh(
                    pre.spec_term().log(),
                    post.spec_term().log(),
                    frame_text(pre.spec_args().command.title_spec(), body),
                );
            let l0 = pre.spec_term().log();
            let l1 = post.spec_term().log();
            assert forall|i: int| l0.len() <= i < l1.len() implies !is_session_event(
                #[trigger] l1[i],
            ) by {
                assert(i == l0.len() || i == l0.len() + 1 || i == l0.len() + 2 || i == l0.len()
                    + 3);
            }
        }
    }

    /// One dispatch keeps the table and view, moves the status only
    /// forward (to itself or `Terminating`), and touches the terminal
    /// with screen work only.
    proof fn lemma_dispatch_frame(pre: Self, code: KeyCode, post: Self, r: Result<(), TermError>)
        requires
            Self::dispatch_rel(pre, code, post, r),
        ensures
            session_neutral(pre.spec_term().log(), post.spec_term().log()),
            pre.spec_status().can_reach(post.spec_status()),
            post.spec_status() == pre.spec_status() || post.spec_status() is Terminating,
            post.spec_table() == pre.spec_table(),
            post.spec_args() == pre.spec_args(),
            post.spec_metrics().generation() == pre.spec_metrics().generation(),
            post.spec_term().infallible() == pre.spec_term().infallible(),
            pre.spec_term().infallible() ==> r is Ok,
    {
        match pre.spec_table().action_of(code) {
            None => {
                lemma_neutral_refl(pre.spec_term().log());
            },
            Some(Action::Terminate) => {
                lemma_neutral_refl(pre.spec_term().log());
            },
            Some(Action::Refresh) => {
                Self::lemma_refresh_neutral(pre, post, r);
            },
        }
    }

    /// A burst keeps the table and view, moves the status only forward,
    /// and touches the terminal with screen work only.
    pub proof fn lemma_burst_frame(
        pre: Self,
        codes: Seq<KeyCode>,
        post: Self,
        r: Result<(), TermError>,
    )
        requires
            Self::burst_rel(pre, codes, post, r),
        ensures
            session_neutral(pre.spec_term().log(), post.spec_term().log()),
            pre.spec_status().can_reach(post.spec_status()),
            post.spec_status() == pre.spec_status() || post.spec_status() is Terminating,
            post.spec_table() == pre.spec_table(),
            post.spec_args() == pre.spec_args(),
            post.spec_metrics().generation() == pre.spec_metrics().generation(),
            post.spec_term().infallible() == pre.spec_term().infallible(),
            pre.spec_term().infallible() ==> r is Ok,
        decreases codes.len(),
    {
        if codes.len() == 0 {
            lemma_neutral_refl(pre.spec_term().log());
        } else {
            let (mid, r1): (Self, Result<(), TermError>) = choose|
                mid: Self,
                r1: Result<(), TermError>,
            |
                Self::dispatch_rel(pre, codes[0], mid, r1) && if r1 is Err {
                    post == mid && r == r1
                } else {
                    Self::burst_rel(mid, codes.drop_first(), post, r)
                };
            Self::lemma_dispatch_frame(pre, codes[0], mid, r1);
            if r1 is Err {
            } else {
                Self::lemma_burst_frame(mid, codes.drop_first(), post, r);
                lemma_neutral_trans(
                    pre.spec_term().log(),
                    mid.spec_term().log(),
                    post.spec_term().log(),
                );
            }
        }
    }

    /// Appending one dispatched code to a clean burst gives a burst.
    proof fn lemma_burst_snoc(
        pre: Self,
        codes: Seq<KeyCode>,
        mid: Self,
        r0: Result<(), TermError>,
        code: KeyCode,
        post: Self,
        r: Result<(), TermError>,
    )
        requires
            Self::burst_rel(pre, codes, mid, r0),
            r0 is Ok,
            Self::dispatch_rel(mid, code, post, r),
        ensures
            Self::burst_rel(pre, codes.push(code), post, r),
        decreases codes.len(),
    {
        if codes.len() == 0 {
            assert(mid == pre);
            assert(codes.push(code)[0] == code);
            assert(codes.push(code).drop_first() =~= Seq::<KeyCode>::empty());
            if r is Err {
                assert(Self::dispatch_rel(pre, codes.push(code)[0], post, r) && post == post && r
                    == r);
            } else {
                assert(Self::burst_rel(post, codes.push(code).drop_first(), post, r));
                assert(Self::dispatch_rel(pre, codes.push(code)[0], post, r));
            }
        } else {
            let (mid1, r1): (Self, Result<(), TermError>) = choose|
                mid1: Self,
                r1: Result<(), TermError>,
            |
                Self::dispatch_rel(pre, codes[0], mid1, r1) && if r1 is Err {
                    mid == mid1 && r0 == r1
                } else {
                    Self::burst_rel(mid1, codes.drop_first(), mid, r0)
                };
            assert(r1 is Ok);
            Self::lemma_burst_snoc(mid1, codes.drop_first(), mid, r0, code, post, r);
            assert(codes.push(code).drop_first() =~= codes.drop_first().push(code));
            assert(codes.push(code)[0] == codes[0]);
            assert(Self::dispatch_rel(pre, codes.push(code)[0], mid1, r1));
        }
    }

    /// Acquire the terminal for a session: enter the alternate screen,
    /// switch raw input on — rolling the screen back if raw mode cannot
    /// be had — and mark the controller `Running`.
    pub fn open_session(&mut self) -> (r: Result<(), TermError>)
        requires
            old(self).spec_status() is Ready,
        ensures
            old(self).spec_status().can_reach(final(self).spec_status()),
            final(self).spec_metrics() == old(self).spec_metrics(),
            final(self).spec_table() == old(self).spec_table(),
            final(self).spec_args() == old(self).spec_args(),
            r is Ok ==> final(self).spec_status() is Running && final(self).spec_term().log()
                == old(self).spec_term().log().push(TermEvent::EnterAlt).push(TermEvent::RawOn),
            r is Err ==> final(self).spec_status() is Ready && (final(self).spec_term().log()
                == old(self).spec_term().log() || final(self).spec_term().log() == old(
                self,
            ).spec_term().log().push(TermEvent::EnterAlt).push(TermEvent::LeaveAlt)),
            final(self).spec_term().infallible() == old(self).spec_term().infallible(),
            old(self).spec_term().infallible() ==> r is Ok,
    {
        match self.term.enter_alt() {
            Ok(()) => {},
            Err(e) => {
                return Err(e);
            },
        }
        match self.term.raw_on() {
            Ok(()) => {},
            Err(e) => {
                let _ = self.term.leave_alt();
                return Err(e);
            },
        }
        self.status = Status::Running;
        Ok(())
    }

    /// Release the terminal at the end of a session: switch raw input
    /// off and leave the alternate screen, attempting both whatever
    /// happens, and mark a still-running controller `Terminating`.
    pub fn close_session(&mut self) -> (r: Result<(), TermError>)
        ensures
            old(self).spec_status().can_reach(final(self).spec_status()),
            final(self).spec_metrics() == old(self).spec_metrics(),
            final(self).spec_table() == old(self).spec_table(),
            final(self).spec_args() == old(self).spec_args(),
            final(self).spec_term().log() == old(self).spec_term().log().push(
                TermEvent::RawOff,
            ).push(TermEvent::LeaveAlt),
            final(self).spec_status() == if old(self).spec_status() is Running {
                Status::Terminating
            } else {
                old(self).spec_status()
            },
            final(self).spec_term().infallible() == old(self).spec_term().infallible(),
            old(self).spec_term().infallible() ==> r is Ok,
    {
        if self.status == Status::Running {
            self.status = Status::Terminating;
        }
        let off = self.term.raw_off();
        let leave = self.term.leave_alt();
        match off {
            Err(e) => Err(e),
            Ok(()) => leave,
        }
    }

    /// Law: a burst made of unbound codes only leaves the controller
    /// exactly as it was — status, terminal output and all — and
    /// reports success.
    pub proof fn lemma_burst_unbound(
        pre: Self,
        codes: Seq<KeyCode>,
        post: Self,
        r: Result<(), TermError>,
    )
        requires
            Self::burst_rel(pre, codes, post, r),
            forall|i: int|
                0 <= i < codes.len() ==> pre.spec_table().action_of(#[trigger] codes[i]) is None,
        ensures
            post == pre,
            r is Ok,
        decreases codes.len(),
    {
        if codes.len() > 0 {
            let (mid, r1): (Self, Result<(), TermError>) = choose|
                mid: Self,
                r1: Result<(), TermError>,
            |
                Self::dispatch_rel(pre, codes[0], mid, r1) && if r1 is Err {
                    post == mid && r == r1
                } else {
                    Self::burst_rel(mid, codes.drop_first(), post, r)
                };
            assert(pre.spec_table().action_of(codes[0]) is None);
            assert(mid == pre && r1 is Ok);
            assert forall|i: int| 0 <= i < codes.drop_first().len() implies mid.spec_table()
                .action_of(#[trigger] codes.drop_first()[i]) is None by {
                assert(codes.drop_first()[i] == codes[i + 1]);
            }
            Self::lemma_burst_unbound(mid, codes.drop_first(), post, r);
        }
    }

    /// Law: a burst that succeeds ends in exactly the status the table
    /// dictates for the code sequence, and the terminal is written
    /// exactly once per code bound to the refresh action.
    pub proof fn lemma_burst_outcome(
        pre: Self,
        codes: Seq<KeyCode>,
        post: Self,
        r: Result<(), TermError>,
    )
        requires
            Self::burst_rel(pre, codes, post, r),
            r is Ok,
        ensures
            post.spec_status() == status_after(pre.spec_table(), pre.spec_status(), codes),
            log_extends(pre.spec_term().log(), post.spec_term().log()),
            count_kind(
                log_added(pre.spec_term().log(), post.spec_term().log()),
                TermKind::Write,
            ) == refresh_hits(pre.spec_table(), codes),
        decreases codes.len(),
    {
        let l0 = pre.spec_term().log();
        let l2 = post.spec_term().log();
        if codes.len() == 0 {
            assert(l2.take(l0.len() as int) =~= l0);
            assert(log_added(l0, l2) =~= Seq::<TermEvent>::empty());
            assert(count_kind(Seq::<TermEvent>::empty(), TermKind::Write) == 0);
        } else {
            let (mid, r1): (Self, Result<(), TermError>) = choose|
                mid: Self,
                r1: Result<(), TermError>,
            |
                Self::dispatch_rel(pre, codes[0], mid, r1) && if r1 is Err {
                    post == mid && r == r1
                } else {
                    Self::burst_rel(mid, codes.drop_first(), post, r)
                };
            assert(r1 is Ok);
            let l1 = mid.spec_term().log();
            Self::lemma_dispatch_frame(pre, codes[0], mid, r1);
            Self::lemma_burst_outcome(mid, codes.drop_first(), post, r);
            // what the head dispatch left in the log
            match pre.spec_table().action_of(codes[0]) {
                None => {
                    assert(mid == pre);
                    assert(log_added(l0, l1) =~= Seq::<TermEvent>::empty());
                    assert(count_kind(Seq::<TermEvent>::empty(), TermKind::Write) == 0);
                },
                Some(Action::Terminate) => {
                    assert(l1 == l0);
                    assert(l1.take(l0.len() as int) =~= l0);
                    assert(log_added(l0, l1) =~= Seq::<TermEvent>::empty());
                    assert(count_kind(Seq::<TermEvent>::empty(), TermKind::Write) == 0);
                },
                Some(Action::Refresh) => {
                    let added = log_added(l0, l1);
                    assert(added.len() == 4);
                    assert(added[0] is Clear && added[1] is MoveOrigin && added[2] is Write
                        && added[3] is Flush) by {
                        assert(added[0] == l1[l0.len() as int]);
                        assert(added[1] == l1[l0.len() as int + 1]);
                        assert(added[2] == l1[l0.len() as int + 2]);
                        assert(added[3] == l1[l0.len() as int + 3]);
                    }
                    assert(added =~= Seq::<TermEvent>::empty().push(added[0]).push(added[1]).push(
                        added[2],
                    ).push(added[3]));
                    lemma_count_kind_push(
                        Seq::<TermEvent>::empty().push(added[0]).push(added[1]).push(added[2]),
                        added[3],
                        TermKind::Write,
                    );
                    lemma_count_kind_push(
                        Seq::<TermEvent>::empty().push(added[0]).push(added[1]),
                        added[2],
                        TermKind::Write,
                    );
                    lemma_count_kind_push(
                        Seq::<TermEvent>::empty().push(added[0]),
                        added[1],
                        TermKind::Write,
                    );
                    lemma_count_kind_push(Seq::<TermEvent>::empty(), added[0], TermKind::Write);
                    assert(count_kind(added, TermKind::Write) == 1);
                },
            }
            lemma_count_kind_split(l0, l1, l2, TermKind::Write);
        }
    }
}

impl<T: Terminal, M: MetricsSource> Begin for Controller<T, M> {
    open spec fn lifecycle(&self) -> Status {
        self.spec_status()
    }

    /// Idempotent entry guard: a fresh controller refreshes its metrics
    /// once and becomes `Ready`; in any other stage nothing happens at
    /// all, so a second call in a row has no further effect.
    fn prepare(&mut self)
        ensures
            Controller::<T, M>::prepare_rel(*old(self), *final(self)),
            old(self).spec_status().can_reach(final(self).spec_status()),
    {
        match self.status {
            Status::Inactive => {
                self.metrics.refresh();
                self.status = Status::Ready;
            },
            _ => {},
        }
    }

    /// Drive one whole session over a finite stream of key codes: prepare
    /// if needed, acquire the alternate screen and raw mode, render, drain
    /// and dispatch the stream, and release the terminal on every exit
    /// path. When the stream ends, the session ends.
    fn run(&mut self, keys: &mut KeyQueue) -> (r: Result<(), TermError>)
        ensures
            old(self).spec_status().can_reach(final(self).spec_status()),
            session_log_shape(old(self).spec_term().log(), final(self).spec_term().log()),
            session_balanced(old(self).spec_term().log(), final(self).spec_term().log()),
            final(self).spec_table() == old(self).spec_table(),
            final(self).spec_args() == old(self).spec_args(),
            final(self).spec_term().infallible() == old(self).spec_term().infallible(),
            !old(self).spec_startable() ==> *final(self) == *old(self) && r is Ok,
            r is Ok && old(self).spec_startable() ==> final(self).spec_status() is Terminating,
            r is Err ==> !(final(self).spec_status() is Running),
            old(self).spec_status() is Inactive ==> final(self).spec_metrics().generation() == old(
                self,
            ).spec_metrics().generation() + 1,
            old(self).spec_status() is Ready ==> final(self).spec_metrics().generation() == old(
                self,
            ).spec_metrics().generation(),
            old(self).spec_term().infallible() ==> r is Ok,
            r is Ok && old(self).spec_startable() ==> final(keys)@.len() == 0,
            r is Ok && old(self).spec_startable() ==> exists|mid: Seq<TermEvent>|
                neutral_events(mid) && final(self).spec_term().log() == old(self).spec_term().log()
                    + seq![TermEvent::EnterAlt, TermEvent::RawOn] + mid
                    + seq![TermEvent::RawOff, TermEvent::LeaveAlt],
            r is Ok && old(self).spec_startable() ==> count_kind(
                log_added(old(self).spec_term().log(), final(self).spec_term().log()),
                TermKind::Write,
            ) == 1 + refresh_hits(old(self).spec_table(), old(keys)@),
    {
        match self.status {
            Status::Inactive => {
                self.prepare();
            },
            Status::Ready => {},
            _ => {
                proof {
                    assert(session_log_shape(self.spec_term().log(), self.spec_term().log()));
                    lemma_run_balanced(self.spec_term().log(), self.spec_term().log());
                }
                return Ok(());
            },
        }
        let ghost log0 = self.term.log();
        match self.open_session() {
            Ok(()) => {},
            Err(e) => {
                proof {
                    assert(session_log_shape(log0, self.spec_term().log()));
                    lemma_run_balanced(log0, self.spec_term().log());
                }
                return Err(e);
            },
        }
        let ghost log_open = self.term.log();
        let ghost pre_tick = *self;
        let ghost qv = keys@;
        let loop_result = self.tick(keys);
        let ghost post_tick = *self;
        let ghost log_work = self.term.log();
        let close_result = self.close_session();
        proof {
            let mid = log_added(log_open, log_work);
            assert forall|i: int| 0 <= i < log_open.len() implies log_work[i] == log_open[i] by {
                assert(log_work.take(log_open.len() as int)[i] == log_work[i]);
            }
            assert(log_work =~= log_open + mid);
            assert(neutral_events(mid));
            assert(self.term.log() =~= log0 + seq![TermEvent::EnterAlt, TermEvent::RawOn] + mid
                + seq![TermEvent::RawOff, TermEvent::LeaveAlt]);
            assert(session_log_shape(log0, self.spec_term().log()));
            lemma_run_balanced(log0, self.spec_term().log());
            assert(exists|m: Seq<TermEvent>|
                neutral_events(m) && self.spec_term().log() == log0 + seq![
                    TermEvent::EnterAlt,
                    TermEvent::RawOn,
                ] + m + seq![TermEvent::RawOff, TermEvent::LeaveAlt]);
            if loop_result is Ok {
                // the screen writes of the session: one initial paint,
                // then one per refresh-bound code of the burst
                assert(qv.take(qv.len() - keys@.len()) =~= qv);
                let midc = choose|midc: Self|
                    Self::refresh_rel(pre_tick, midc, Ok::<(), TermError>(()))
                        && Self::burst_rel(midc, qv, post_tick, loop_result);
                let body = choose|body: Seq<char>|
                    pre_tick.spec_metrics().provides(pre_tick.spec_args().command, body)
                        && screen_refresh(
                        pre_tick.spec_term().log(),
                        midc.spec_term().log(),
                        frame_text(pre_tick.spec_args().command.title_spec(), body),
                    );
                lemma_refresh_flushes_once(
                    log_open,
                    midc.spec_term().log(),
                    frame_text(pre_tick.spec_args().command.title_spec(), body),
                );
                Self::lemma_burst_outcome(midc, qv, post_tick, loop_result);
                assert(log_extends(log0, log_open)) by {
                    assert(log_open.take(log0.len() as int) =~= log0);
                }
                assert(log_extends(log_open, midc.spec_term().log()));
                assert(log_extends(log_work, self.term.log())) by {
                    assert(self.term.log().take(log_work.len() as int) =~= log_work);
                }
                assert(count_kind(log_added(log0, log_open), TermKind::Write) == 0) by {
                    assert(log_added(log0, log_open) =~= seq![
                        TermEvent::EnterAlt,
                        TermEvent::RawOn,
                    ]);
                    lemma_count_kind_pair(TermEvent::EnterAlt, TermEvent::RawOn, TermKind::Write);
                }
                assert(count_kind(log_added(log_work, self.term.log()), TermKind::Write) == 0)
                    by {
                    assert(log_added(log_work, self.term.log()) =~= seq![
                        TermEvent::RawOff,
                        TermEvent::LeaveAlt,
                    ]);
                    lemma_count_kind_pair(TermEvent::RawOff, TermEvent::LeaveAlt, TermKind::Write);
                }
                lemma_count_kind_split(log0, log_open, midc.spec_term().log(), TermKind::Write);
                lemma_count_kind_split(log0, midc.spec_term().log(), log_work, TermKind::Write);
                lemma_count_kind_split(log0, log_work, self.term.log(), TermKind::Write);
                assert(midc.spec_table() == old(self).spec_table());
                assert(refresh_hits(midc.spec_table(), qv) == refresh_hits(
                    old(self).spec_table(),
                    old(keys)@,
                ));
            }
        }
        match loop_result {
            Err(e) => Err(e),
            Ok(()) => close_result,
        }
    }
}

impl Instruction {
    /// Invoke this command's action on `controller`; errors propagate.
    pub fn execute<T: Terminal, M: MetricsSource>(
        &self,
        controller: &mut Controller<T, M>,
    ) -> (r: Result<(), TermError>)
        ensures
            Controller::<T, M>::action_rel(
                *old(controller),
                Some(self.spec_action()),
                *final(controller),
                r,
            ),
    {
        controller.apply(Some(self.action()))
    }
}

impl InstructionSet {
    /// Dispatch one key code through this table against `controller`:
    /// an unbound code is a silent no-op, never an error.
    pub fn execute<T: Terminal, M: MetricsSource>(
        &self,
        code: KeyCode,
        controller: &mut Controller<T, M>,
    ) -> (r: Result<(), TermError>)
        ensures
            Controller::<T, M>::action_rel(
                *old(controller),
                self.action_of(code),
                *final(controller),
                r,
            ),
    {
        let act = self.lookup_action(code);
        controller.apply(act)
    }
}

} // verus!
