use vstd::prelude::*;

use crate::error::{Error, ErrorKind};

verus! {

/// The body of a task: turns one input into one output, or fails.
pub trait Task<I, O> {
    /// What a successful run of `input` may have produced; anything, unless
    /// an implementation says more.
    open spec fn ran(&self, input: I, output: Result<O, Error>) -> bool {
        true
    }

    fn run(&self, input: &I) -> (r: Result<O, Error>)
        ensures
            self.ran(*input, r),
    ;
}

/// A bounded pool of tasks whose results come out in submission order.
///
/// Tasks are started in submission order. At most `concurrent` of them are in
/// flight; once that many are, a new submission first waits for the oldest.
/// A task that fails with a temporary error stays at the head of the pool and
/// is run again; one that fails otherwise empties the pool and marks it
/// errored, after which it accepts no task and hands out no result.
pub struct ConcurrentTasks<I, O> {
    concurrent: usize,
    tasks: Vec<I>,
    results: Vec<O>,
    errored: bool,
}

impl<I, O> ConcurrentTasks<I, O> {
    /// Inputs of the tasks in flight, oldest first.
    pub closed spec fn pending(&self) -> Seq<I> {
        self.tasks@
    }

    /// Results that completed and were not yet handed out, oldest first. They
    /// were all submitted before every task in flight.
    pub closed spec fn done(&self) -> Seq<O> {
        self.results@
    }

    /// Whether a task failed with an error that is not temporary.
    pub closed spec fn errored(&self) -> bool {
        self.errored
    }

    /// The bound on tasks in flight.
    pub closed spec fn concurrent(&self) -> nat {
        self.concurrent as nat
    }

    pub closed spec fn wf(&self) -> bool {
        &&& self.concurrent >= 1
        &&& self.tasks@.len() <= self.concurrent
        &&& self.errored ==> self.tasks@.len() == 0 && self.results@.len() == 0
    }

    /// What well-formedness tells a caller.
    pub proof fn lemma_wf(&self)
        requires
            self.wf(),
        ensures
            self.concurrent() >= 1,
            self.pending().len() <= self.concurrent(),
            self.errored() ==> self.idle(),
    {
    }

    /// Whether no task is in flight and no result is waiting.
    pub open spec fn idle(&self) -> bool {
        self.pending().len() == 0 && self.done().len() == 0
    }

    pub fn new(concurrent: usize) -> (r: Self)
        requires
            concurrent >= 1,
        ensures
            r.wf(),
            r.idle(),
            !r.errored(),
            r.concurrent() == concurrent,
    {
        ConcurrentTasks { concurrent, tasks: Vec::new(), results: Vec::new(), errored: false }
    }

    /// Whether nothing is in flight or waiting.
    pub fn is_idle(&self) -> (r: bool)
        ensures
            r == self.idle(),
    {
        self.tasks.len() == 0 && self.results.len() == 0
    }

    fn unrecoverable() -> (r: Error)
        ensures
            r@.kind == ErrorKind::Unexpected,
            !r@.temporary,
    {
        Error::new(ErrorKind::Unexpected, "concurrent tasks met an unrecoverable error")
    }

    /// Runs the oldest task in flight and settles its outcome.
    fn await_head<T: Task<I, O>>(&mut self, t: &T) -> (r: Result<(), Error>)
        requires
            old(self).wf(),
            !old(self).errored(),
            old(self).pending().len() > 0,
        ensures
            final(self).wf(),
            final(self).concurrent() == old(self).concurrent(),
            match r {
                Ok(()) => {
                    &&& !final(self).errored()
                    &&& final(self).pending() == old(self).pending().drop_first()
                    &&& final(self).done().len() == old(self).done().len() + 1
                    &&& final(self).done().drop_last() == old(self).done()
                    &&& t.ran(old(self).pending()[0], Ok(final(self).done().last()))
                },
                Err(e) => t.ran(old(self).pending()[0], Err(e)) && if e@.temporary {
                    *final(self) == *old(self)
                } else {
                    final(self).errored() && final(self).idle()
                },
            },
    {
        let res = t.run(&self.tasks[0]);
        match res {
            Ok(o) => {
                let _ = self.tasks.remove(0);
                self.results.push(o);
                proof {
                    assert(self.results@.drop_last() =~= old(self).results@);
                }
                Ok(())
            },
            Err(e) => {
                if !e.is_temporary() {
                    self.clear();
                    self.errored = true;
                }
                Err(e)
            },
        }
    }

    /// Submits a task. When `concurrent` tasks are in flight, the oldest is
    /// awaited first; if it fails, its error is returned and `input` is not
    /// submitted.
    pub fn execute<T: Task<I, O>>(&mut self, t: &T, input: I) -> (r: Result<(), Error>)
        requires
            old(self).wf(),
        ensures
            final(self).wf(),
            final(self).concurrent() == old(self).concurrent(),
            old(self).errored() ==> *final(self) == *old(self) && r is Err && r->Err_0@.kind
                == ErrorKind::Unexpected,
            !old(self).errored() && old(self).pending().len() < old(self).concurrent() ==> {
                &&& r is Ok
                &&& !final(self).errored()
                &&& final(self).pending() == old(self).pending().push(input)
                &&& final(self).done() == old(self).done()
            },
            !old(self).errored() && old(self).pending().len() >= old(self).concurrent() ==> match r {
                Ok(()) => {
                    &&& !final(self).errored()
                    &&& final(self).pending() == old(self).pending().drop_first().push(input)
                    &&& final(self).done().len() == old(self).done().len() + 1
                    &&& final(self).done().drop_last() == old(self).done()
                    &&& t.ran(old(self).pending()[0], Ok(final(self).done().last()))
                },
                Err(e) => t.ran(old(self).pending()[0], Err(e)) && if e@.temporary {
                    *final(self) == *old(self)
                } else {
                    final(self).errored() && final(self).idle()
                },
            },
    {
        if self.errored {
            return Err(Self::unrecoverable());
        }
        if self.tasks.len() >= self.concurrent {
            self.await_head(t)?;
        }
        self.tasks.push(input);
        Ok(())
    }

    /// Hands out the result of the oldest task that was not handed out yet,
    /// awaiting it if needed. `None` when the pool is idle or errored.
    pub fn next<T: Task<I, O>>(&mut self, t: &T) -> (r: Option<Result<O, Error>>)
        requires
            old(self).wf(),
        ensures
            final(self).wf(),
            final(self).concurrent() == old(self).concurrent(),
            (old(self).errored() || old(self).idle()) ==> r is None && *final(self) == *old(self),
            !old(self).errored() && old(self).done().len() > 0 ==> {
                &&& r == Some(Ok::<O, Error>(old(self).done()[0]))
                &&& !final(self).errored()
                &&& final(self).done() == old(self).done().drop_first()
                &&& final(self).pending() == old(self).pending()
            },
            !old(self).errored() && old(self).done().len() == 0 && old(self).pending().len() > 0
                ==> r is Some && match r->Some_0 {
                Ok(o) => {
                    &&& t.ran(old(self).pending()[0], Ok(o))
                    &&& !final(self).errored()
                    &&& final(self).done().len() == 0
                    &&& final(self).pending() == old(self).pending().drop_first()
                },
                Err(e) => t.ran(old(self).pending()[0], Err(e)) && if e@.temporary {
                    *final(self) == *old(self)
                } else {
                    final(self).errored() && final(self).idle()
                },
            },
    {
        if self.errored {
            return None;
        }
        if self.results.len() > 0 {
            let o = self.results.remove(0);
            return Some(Ok(o));
        }
        if self.tasks.len() == 0 {
            return None;
        }
        match self.await_head(t) {
            Ok(()) => {
                let o = self.results.remove(0);
                Some(Ok(o))
            },
            Err(e) => Some(Err(e)),
        }
    }

    /// Drops every task in flight and every waiting result.
    pub fn clear(&mut self)
        requires
            old(self).wf(),
        ensures
            final(self).wf(),
            final(self).idle(),
            final(self).errored() == old(self).errored(),
            final(self).concurrent() == old(self).concurrent(),
    {
        self.tasks.clear();
        self.results.clear();
    }
}

} // verus!
