//! A drawing session: hands out the writes for a grid one at a time and
//! takes back how each went. A failed write is reported and passed over;
//! it never stops the writes after it.
use vstd::prelude::*;
use crate::grid::PixelGrid;
use crate::render::{render_plan, render_ops, RenderOp};

verus! {

/// How one write to the terminal went.
#[derive(Clone, Copy, Debug, PartialEq, Eq, Structural)]
pub enum WriteOutcome {
    Written,
    Failed,
}

/// The abstract state of a session: the writes, the index of the next one,
/// and the number of writes that failed so far.
pub ghost struct SessionView {
    pub ops: Seq<RenderOp>,
    pub next: nat,
    pub failures: nat,
}

/// The state after one write with the given outcome: the next write is the
/// following one, whatever the outcome.
pub open spec fn session_step(s: SessionView, outcome: WriteOutcome) -> SessionView {
    SessionView {
        ops: s.ops,
        next: s.next + 1,
        failures: s.failures + if outcome is Failed { 1nat } else { 0nat },
    }
}

/// The state after a sequence of writes with the given outcomes.
pub open spec fn session_run(s: SessionView, outcomes: Seq<WriteOutcome>) -> SessionView
    decreases outcomes.len(),
{
    if outcomes.len() == 0 {
        s
    } else {
        session_step(session_run(s, outcomes.drop_last()), outcomes.last())
    }
}

/// Number of failed outcomes.
pub open spec fn failed_count(outcomes: Seq<WriteOutcome>) -> nat
    decreases outcomes.len(),
{
    if outcomes.len() == 0 {
        0
    } else {
        failed_count(outcomes.drop_last()) + if outcomes.last() is Failed { 1nat } else { 0nat }
    }
}

/// A fresh session over the given writes.
pub open spec fn session_start(ops: Seq<RenderOp>) -> SessionView {
    SessionView { ops, next: 0, failures: 0 }
}

/// Whatever the outcomes of the first writes, the session goes on to the
/// write after them: a failed write never keeps a later glyph or line break
/// from being attempted.
pub proof fn lemma_failures_do_not_stop(ops: Seq<RenderOp>, outcomes: Seq<WriteOutcome>)
    ensures
        session_run(session_start(ops), outcomes).ops == ops,
        session_run(session_start(ops), outcomes).next == outcomes.len(),
        session_run(session_start(ops), outcomes).failures == failed_count(outcomes),
    decreases outcomes.len(),
{
    if outcomes.len() > 0 {
        lemma_failures_do_not_stop(ops, outcomes.drop_last());
    }
}

/// The writes for a grid, and how far they have gone.
pub struct RenderSession {
    ops: Vec<RenderOp>,
    next: usize,
    failures: usize,
}

impl View for RenderSession {
    type V = SessionView;

    closed spec fn view(&self) -> SessionView {
        SessionView { ops: self.ops@, next: self.next as nat, failures: self.failures as nat }
    }
}

impl RenderSession {
    /// The next write is within the writes, and no more writes failed than
    /// were made.
    pub open spec fn wf(&self) -> bool {
        &&& self@.next <= self@.ops.len()
        &&& self@.failures <= self@.next
    }

    /// A session over the writes that draw `grid`.
    pub fn new(grid: &PixelGrid, legacy: bool) -> (s: RenderSession)
        ensures
            s.wf(),
            s@ == session_start(render_ops(grid@, legacy)),
    {
        RenderSession { ops: render_plan(grid, legacy), next: 0, failures: 0 }
    }

    /// The write to make next, or `None` once all have been made.
    pub fn next_action(&self) -> (op: Option<RenderOp>)
        requires
            self.wf(),
        ensures
            self@.next < self@.ops.len() ==> op == Some(self@.ops[self@.next as int]),
            self@.next == self@.ops.len() ==> op is None,
    {
        if self.next < self.ops.len() {
            Some(self.ops[self.next])
        } else {
            None
        }
    }

    /// Records the outcome of the write that `next_action` gave, moves on to
    /// the one after it, and returns the write if it failed, to be reported.
    pub fn record(&mut self, outcome: WriteOutcome) -> (failed: Option<RenderOp>)
        requires
            old(self).wf(),
            old(self)@.next < old(self)@.ops.len(),
        ensures
            final(self).wf(),
            final(self)@ == session_step(old(self)@, outcome),
            outcome is Failed ==> failed == Some(old(self)@.ops[old(self)@.next as int]),
            outcome is Written ==> failed is None,
    {
        let len = self.ops.len();
        let op = self.ops[self.next];
        assert(self.next < len);
        self.next = self.next + 1;
        match outcome {
            WriteOutcome::Written => None,
            WriteOutcome::Failed => {
                self.failures = self.failures + 1;
                Some(op)
            },
        }
    }

    /// Whether every write has been made.
    pub fn is_finished(&self) -> (b: bool)
        requires
            self.wf(),
        ensures
            b == (self@.next == self@.ops.len()),
    {
        self.next == self.ops.len()
    }

    /// Number of writes that failed so far.
    pub fn failures(&self) -> (n: usize)
        ensures
            n == self@.failures,
    {
        self.failures
    }
}

} // verus!
