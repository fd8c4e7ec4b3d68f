//! The batched writer, as a schedule of steps.
//!
//! The writer puts one line per combination, in order, and flushes after
//! every full batch and after the last, possibly partial, batch. Every line
//! and every flush is one unit of progress. The plan decides the next step;
//! whoever owns the file performs it.

use std::sync::atomic::AtomicUsize;
use std::sync::Arc;
use vstd::prelude::*;
use crate::progress::report_unit;

verus! {

/// The number of lines between two flushes.
pub const BATCH_SIZE: usize = 10_000;

/// The number of batches that `total` lines fall into: `total / BATCH_SIZE`,
/// rounded up.
pub open spec fn batches(total: nat) -> nat {
    if total % (BATCH_SIZE as nat) == 0 {
        total / (BATCH_SIZE as nat)
    } else {
        total / (BATCH_SIZE as nat) + 1
    }
}

/// The units of progress that writing `total` lines takes: one for each
/// line and one for each flush.
pub open spec fn write_units(total: nat) -> nat {
    total + batches(total)
}

/// The flushes that are due once `written` of `total` lines are out.
pub open spec fn flushes_due(written: nat, total: nat) -> nat {
    if written == total {
        batches(total)
    } else {
        written / (BATCH_SIZE as nat)
    }
}

/// The step that the writer of `total` lines takes after `done` earlier
/// steps. Each full batch is `BATCH_SIZE` lines and then a flush; the lines
/// that remain form the last batch, whose flush ends the writing.
pub open spec fn step_at(total: nat, done: nat) -> WriteStep {
    let batch = done / (BATCH_SIZE as nat + 1);
    let place = done % (BATCH_SIZE as nat + 1);
    let line = batch * (BATCH_SIZE as nat) + place;
    if done >= write_units(total) {
        WriteStep::Done
    } else if place < BATCH_SIZE as nat && line < total {
        WriteStep::Line(line as usize)
    } else {
        WriteStep::Flush
    }
}

/// The number of batches that `total` lines fall into.
pub fn total_batches(total: usize) -> (count: usize)
    ensures
        count == batches(total as nat),
{
    if total % BATCH_SIZE == 0 {
        total / BATCH_SIZE
    } else {
        total / BATCH_SIZE + 1
    }
}

/// The value that the write counter reaches when `total` lines are written,
/// or `None` where it does not fit the counter.
pub fn write_target(total: usize) -> (target: Option<usize>)
    ensures
        write_units(total as nat) <= usize::MAX ==> target == Some(
            write_units(total as nat) as usize,
        ),
        write_units(total as nat) > usize::MAX ==> target.is_none(),
{
    total.checked_add(total_batches(total))
}

/// What the writer does next.
#[derive(Clone, Copy, Debug, PartialEq, Eq, Structural)]
pub enum WriteStep {
    /// Write the combination at this position, as a line of its own.
    Line(usize),
    /// Flush the buffer.
    Flush,
    /// Nothing is left to do.
    Done,
}

/// How far the writing of a result of `total` lines has come.
#[derive(Clone, Copy, Debug)]
pub struct WritePlan {
    total: usize,
    written: usize,
    flushed: usize,
}

impl WritePlan {
    /// The number of lines to write.
    pub closed spec fn total(&self) -> nat {
        self.total as nat
    }

    /// The number of lines written so far.
    pub closed spec fn written(&self) -> nat {
        self.written as nat
    }

    /// The number of flushes made so far.
    pub closed spec fn flushed(&self) -> nat {
        self.flushed as nat
    }

    /// The units of progress made so far.
    pub open spec fn units(&self) -> nat {
        self.written() + self.flushed()
    }

    /// Whether a batch ends with the last line written.
    pub open spec fn at_batch_end(&self) -> bool {
        &&& self.written() > 0
        &&& (self.written() % (BATCH_SIZE as nat) == 0 || self.written() == self.total())
    }

    /// The plan's invariant: no line beyond the last, and every flush that
    /// is due has been made, but for the one at the end of a batch that has
    /// just been completed.
    pub open spec fn wf(&self) -> bool {
        &&& self.written() <= self.total()
        &&& write_units(self.total()) <= usize::MAX
        &&& {
            ||| self.flushed() == flushes_due(self.written(), self.total())
            ||| self.flushed() + 1 == flushes_due(self.written(), self.total())
                && self.at_batch_end()
        }
    }

    /// The step that comes next: a flush that is due, else the next line,
    /// else nothing.
    pub open spec fn next_step(&self) -> WriteStep {
        if self.flushed() < flushes_due(self.written(), self.total()) {
            WriteStep::Flush
        } else if self.written() < self.total() {
            WriteStep::Line(self.written() as usize)
        } else {
            WriteStep::Done
        }
    }

    /// A plan for `total` lines with nothing written yet, or `None` where
    /// the units of progress would not fit the counter.
    pub fn new(total: usize) -> (plan: Option<WritePlan>)
        ensures
            plan.is_some() <==> write_units(total as nat) <= usize::MAX,
            plan.is_some() ==> {
                &&& plan.unwrap().wf()
                &&& plan.unwrap().total() == total
                &&& plan.unwrap().written() == 0
                &&& plan.unwrap().flushed() == 0
            },
    {
        match write_target(total) {
            Some(_) => Some(WritePlan { total, written: 0, flushed: 0 }),
            None => None,
        }
    }

    /// The units of progress made so far.
    pub fn progress(&self) -> (units: usize)
        requires
            self.wf(),
        ensures
            units == self.units(),
    {
        proof {
            lemma_units_bounded(*self);
        }
        self.written + self.flushed
    }

    /// The step that comes next, without taking it.
    pub fn peek(&self) -> (step: WriteStep)
        requires
            self.wf(),
        ensures
            step == self.next_step(),
    {
        let due: usize = if self.written == self.total {
            total_batches(self.total)
        } else {
            self.written / BATCH_SIZE
        };
        if self.flushed < due {
            WriteStep::Flush
        } else if self.written < self.total {
            WriteStep::Line(self.written)
        } else {
            WriteStep::Done
        }
    }

    /// Counts the next step as done and reports it on `counter`, to be
    /// called once the step that [`WritePlan::peek`] gave has been carried
    /// out. A line or a flush is one more unit of progress, reported once;
    /// once nothing is left the plan stays as it is and nothing is reported.
    pub fn advance(&mut self, counter: &Arc<AtomicUsize>) -> (step: WriteStep)
        requires
            old(self).wf(),
        ensures
            final(self).wf(),
            step == old(self).next_step(),
            final(self).total() == old(self).total(),
            final(self).written() == old(self).written() + (if step is Line {
                1nat
            } else {
                0nat
            }),
            final(self).flushed() == old(self).flushed() + (if step is Flush {
                1nat
            } else {
                0nat
            }),
    {
        let step = self.peek();
        match step {
            WriteStep::Line(_) => {
                self.written = self.written + 1;
                report_unit(counter);
            },
            WriteStep::Flush => {
                self.flushed = self.flushed + 1;
                report_unit(counter);
            },
            WriteStep::Done => {},
        }
        step
    }
}

/// The progress of a valid plan never passes the target.
pub proof fn lemma_units_bounded(plan: WritePlan)
    requires
        plan.wf(),
    ensures
        plan.units() <= write_units(plan.total()),
{
}

/// When nothing is left to do, every line is written and the units of
/// progress are exactly one per line plus one per batch.
pub proof fn lemma_done_units(plan: WritePlan)
    requires
        plan.wf(),
    ensures
        plan.next_step() == WriteStep::Done <==> plan.units() == write_units(plan.total()),
        plan.next_step() == WriteStep::Done ==> plan.written() == plan.total(),
{
}

/// A flush comes exactly when a batch is complete: after a multiple of
/// `BATCH_SIZE` lines, or after the last line.
pub proof fn lemma_flush_at_batch_end(plan: WritePlan)
    requires
        plan.wf(),
        plan.next_step() == WriteStep::Flush,
    ensures
        plan.at_batch_end(),
        plan.flushed() + 1 == flushes_due(plan.written(), plan.total()),
{
}

/// A valid plan follows the schedule: its next step is the one that
/// [`step_at`] gives for the number of steps already taken.
pub proof fn lemma_follows_schedule(plan: WritePlan)
    requires
        plan.wf(),
    ensures
        plan.next_step() == step_at(plan.total(), plan.units()),
{
    let size = BATCH_SIZE as nat;
    let w = plan.written();
    let f = plan.flushed();
    let q = w / size;
    let r = w % size;
    assert(w == q * size + r) by (nonlinear_arith)
        requires
            q == w / size,
            r == w % size,
            size > 0,
    ;
    if f == q {
        assert(w + f == q * (size + 1) + r) by (nonlinear_arith)
            requires
                w == q * size + r,
                f == q,
        ;
        lemma_quotient(w + f, size + 1, q, r);
    } else if f + 1 == q {
        let p: nat = (q - 1) as nat;
        assert(w + f == p * (size + 1) + size) by (nonlinear_arith)
            requires
                w == q * size + r,
                r == 0,
                f + 1 == q,
                p + 1 == q,
        ;
        lemma_quotient(w + f, size + 1, p, size);
    }
}

/// Quotient and remainder are what the division's equation says.
proof fn lemma_quotient(x: nat, d: nat, q: nat, r: nat)
    requires
        x == q * d + r,
        r < d,
    ensures
        x / d == q,
        x % d == r,
{
    vstd::arithmetic::div_mod::lemma_fundamental_div_mod_converse(x as int, d as int, q as int, r as int);
}

} // verus!
