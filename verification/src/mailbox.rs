//! The layout worker's mailbox: one pending job that newer submissions
//! replace, one job running, and at most two finished canvases waiting for
//! the interface. The worker thread and the event loop share it behind a
//! lock; the cancellation token of the running job lives with them.
use vstd::prelude::*;
use crate::diagram_model::{DiagramCompletion, DiagramJob};

verus! {

/// Finished layouts kept for the interface at most.
pub const MAX_COMPLETED: usize = 2;

#[derive(Debug)]
pub struct Mailbox {
    pub pending: Option<DiagramJob>,
    pub active: bool,
    /// Whether the running (or last started) job was for the viewer.
    pub active_foreground: bool,
    /// Finished layouts, oldest first.
    pub completed: Vec<DiagramCompletion>,
    pub shutdown: bool,
}

/// `b` is `a` after `submit(job)` answered `cancel`: the job replaces the
/// pending one, and a viewer job supersedes a running viewer job.
pub open spec fn submitted(a: Mailbox, b: Mailbox, job: DiagramJob, cancel: bool) -> bool {
    &&& cancel == (job.view is Some && a.active && a.active_foreground)
    &&& b == (Mailbox { pending: Some(job), ..a })
}

/// `b` is `a` after the worker's `begin_job` returned `r`.
pub open spec fn job_begun(a: Mailbox, b: Mailbox, r: Option<DiagramJob>) -> bool {
    if a.shutdown || a.pending is None {
        r is None && b == a
    } else {
        &&& r == a.pending
        &&& b == (Mailbox { pending: None, active: true, active_foreground: a.pending->0.view is Some, ..a })
    }
}

/// `b` is `a` after `finish_job(completion, cancelled)` returned `go_on`.
pub open spec fn job_finished(a: Mailbox, b: Mailbox, completion: DiagramCompletion, cancelled: bool, go_on: bool) -> bool {
    &&& go_on == !a.shutdown
    &&& !b.active
    &&& b.pending == a.pending
    &&& b.active_foreground == a.active_foreground
    &&& b.shutdown == a.shutdown
    &&& (a.shutdown || cancelled ==> b.completed == a.completed)
    &&& (!a.shutdown && !cancelled ==> b.completed@ == if a.completed@.len() == MAX_COMPLETED {
        a.completed@.drop_first().push(completion)
    } else {
        a.completed@.push(completion)
    })
}

impl Mailbox {
    pub open spec fn wf(&self) -> bool {
        self.completed@.len() <= MAX_COMPLETED
    }

    pub fn new() -> (r: Mailbox)
        ensures
            r.wf(),
            r.pending is None,
            !r.active,
            !r.active_foreground,
            r.completed@.len() == 0,
            !r.shutdown,
    {
        Mailbox { pending: None, active: false, active_foreground: false, completed: Vec::new(), shutdown: false }
    }

    /// Replaces the pending job. Returns whether the running job must be
    /// cancelled: a viewer job supersedes a running viewer job.
    pub fn submit(&mut self, job: DiagramJob) -> (cancel_running: bool)
        requires
            old(self).wf(),
        ensures
            final(self).wf(),
            submitted(*old(self), *final(self), job, cancel_running),
    {
        let cancel = job.view.is_some() && self.active && self.active_foreground;
        self.pending = Some(job);
        cancel
    }

    /// Drops a pending viewer job. Returns whether the running job must be
    /// cancelled: it is a viewer job.
    pub fn cancel_foreground(&mut self) -> (cancel_running: bool)
        requires
            old(self).wf(),
        ensures
            final(self).wf(),
            cancel_running == (old(self).active && old(self).active_foreground),
            *final(self) == (Mailbox {
                pending: match old(self).pending {
                    Some(j) => if j.view is Some {
                        None
                    } else {
                        Some(j)
                    },
                    None => None,
                },
                ..*old(self)
            }),
    {
        let keep = match &self.pending {
            Some(j) => j.view.is_none(),
            None => false,
        };
        if !keep {
            self.pending = None;
        }
        self.active && self.active_foreground
    }

    /// Drops the pending job. Returns whether a running job must be
    /// cancelled.
    pub fn cancel_all(&mut self) -> (cancel_running: bool)
        requires
            old(self).wf(),
        ensures
            final(self).wf(),
            cancel_running == old(self).active,
            *final(self) == (Mailbox { pending: None, ..*old(self) }),
    {
        self.pending = None;
        self.active
    }

    /// Whether work is queued, running or waiting to be taken.
    pub fn busy(&self) -> (r: bool)
        ensures
            r == (self.active || self.pending is Some || self.completed@.len() > 0),
    {
        self.active || self.pending.is_some() || self.completed.len() > 0
    }

    /// Hands over the finished layouts, oldest first.
    pub fn drain(&mut self) -> (r: Vec<DiagramCompletion>)
        requires
            old(self).wf(),
        ensures
            final(self).wf(),
            r@ == old(self).completed@,
            final(self).completed@.len() == 0,
            final(self).pending == old(self).pending,
            final(self).active == old(self).active,
            final(self).active_foreground == old(self).active_foreground,
            final(self).shutdown == old(self).shutdown,
    {
        let mut out: Vec<DiagramCompletion> = Vec::new();
        std::mem::swap(&mut out, &mut self.completed);
        out
    }

    /// The worker takes the pending job and starts it; nothing while shut
    /// down or idle.
    pub fn begin_job(&mut self) -> (r: Option<DiagramJob>)
        requires
            old(self).wf(),
        ensures
            final(self).wf(),
            job_begun(*old(self), *final(self), r),
    {
        if self.shutdown {
            return None;
        }
        match self.pending.take() {
            Some(job) => {
                self.active = true;
                self.active_foreground = job.view.is_some();
                Some(job)
            },
            None => None,
        }
    }

    /// The worker finished a job. A cancelled job is dropped; otherwise the
    /// result is queued, dropping the oldest beyond two. Returns whether
    /// the worker goes on (false once shut down).
    pub fn finish_job(&mut self, completion: DiagramCompletion, cancelled: bool) -> (go_on: bool)
        requires
            old(self).wf(),
        ensures
            final(self).wf(),
            job_finished(*old(self), *final(self), completion, cancelled, go_on),
    {
        self.active = false;
        if self.shutdown {
            return false;
        }
        if cancelled {
            return true;
        }
        if self.completed.len() == MAX_COMPLETED {
            let _oldest = self.completed.remove(0);
        }
        self.completed.push(completion);
        true
    }

    /// Stops the worker: nothing is pending or kept. Returns whether a
    /// running job must be cancelled.
    pub fn shut_down(&mut self) -> (cancel_running: bool)
        requires
            old(self).wf(),
        ensures
            final(self).wf(),
            cancel_running == old(self).active,
            final(self).shutdown,
            final(self).pending is None,
            final(self).completed@.len() == 0,
            final(self).active == old(self).active,
            final(self).active_foreground == old(self).active_foreground,
    {
        self.shutdown = true;
        self.pending = None;
        self.completed.clear();
        self.active
    }
}

} // verus!
