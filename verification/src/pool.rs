//! The worker pool with the channel that its jobs report over.
//!
//! The two are kept together, and out of reach, so that what is known of an
//! outcome that arrives can be said: only a job that was submitted here can
//! send on the channel, and a job sends what fetching its descriptor gave.

use crate::dispatch::run_task;
use crate::dispatch::FetchDescriptor;
use crate::dispatch::FetchOutcome;
use std::sync::mpsc::Receiver;
use std::sync::mpsc::SendError;
use std::sync::mpsc::Sender;
use std::sync::Arc;
use threadpool::ThreadPool;
use vstd::prelude::*;

verus! {

/// `threadpool::ThreadPool`: a pool with a fixed number of worker threads.
#[verifier::external_type_specification]
#[verifier::external_body]
pub struct ExThreadPool(ThreadPool);

/// `std::sync::mpsc::Sender`: the sending end of a channel.
#[verifier::external_type_specification]
#[verifier::external_body]
#[verifier::reject_recursive_types(T)]
pub struct ExSender<T>(Sender<T>);

/// `std::sync::mpsc::Receiver`: the receiving end of a channel.
#[verifier::external_type_specification]
#[verifier::external_body]
#[verifier::reject_recursive_types(T)]
pub struct ExReceiver<T>(Receiver<T>);

/// `std::sync::mpsc::SendError`: the receiver is gone; holds the value that
/// could not be sent.
#[verifier::external_type_specification]
#[verifier::external_body]
#[verifier::reject_recursive_types(T)]
pub struct ExSendError<T>(SendError<T>);

/// `Sender::send` puts a value into the channel, or hands it back where the
/// receiver is gone. Nothing is claimed of which it does.
pub assume_specification<T>[ Sender::<T>::send ](tx: &Sender<T>, value: T) -> (sent: Result<
    (),
    SendError<T>,
>)
;

/// What one job does: fetches the descriptor and sends the outcome through
/// `tx`. An outcome that nobody waits for any more is dropped.
pub fn report_task<E>(tx: &Sender<FetchOutcome>, executor: &E, descriptor: FetchDescriptor) where
    E: Fn(FetchDescriptor) -> Vec<String>,

    requires
        call_requires(*executor, (descriptor,)),
{
    let outcome = run_task(executor, descriptor);
    match tx.send(outcome) {
        Ok(_) => {},
        Err(_) => {},
    }
}

/// A pool of worker threads that fetch descriptors with one executor, and
/// the channel on which they report.
///
/// Beside the pool and the channel it keeps the record of what was
/// submitted. The record is written by `Workers::submit` alone, and only
/// the jobs queued there hold a sender of the channel.
pub struct Workers<E> {
    pool: ThreadPool,
    tx: Option<Sender<FetchOutcome>>,
    rx: Receiver<FetchOutcome>,
    executor: Arc<E>,
    submitted: Ghost<Seq<FetchDescriptor>>,
}

impl<E> Workers<E> {
    /// The executor that every job runs.
    pub closed spec fn executor(&self) -> E {
        *self.executor
    }

    /// The descriptors submitted so far, in the order of submission.
    pub closed spec fn submitted(&self) -> Seq<FetchDescriptor> {
        self.submitted@
    }

    /// Whether descriptors can still be submitted: the submitting side has
    /// not given up its sender.
    pub closed spec fn accepting(&self) -> bool {
        self.tx is Some
    }
}

impl<E: Fn(FetchDescriptor) -> Vec<String> + Send + Sync + 'static> Workers<E> {
    /// `outcome` is what fetching a submitted descriptor gave: it carries
    /// the index of one, and its lines are lines that the executor returns
    /// for that one.
    pub open spec fn answers(&self, outcome: FetchOutcome) -> bool {
        exists|k: int|
            0 <= k < self.submitted().len() && (#[trigger] self.submitted()[k]).index
                == outcome.index && call_ensures(
                self.executor(),
                (self.submitted()[k],),
                outcome.lines,
            )
    }

    /// `ThreadPool::new` with `workers` threads, `std::sync::mpsc::channel`
    /// and `Arc::new` around the executor. `ThreadPool::new` panics on zero
    /// threads. Nothing has been submitted to the new pool.
    #[verifier::external_body]
    pub(crate) fn new(workers: usize, executor: E) -> (made: Self)
        requires
            workers >= 1,
        ensures
            made.executor() == executor,
            made.submitted() == Seq::<FetchDescriptor>::empty(),
            made.accepting(),
    {
        let (tx, rx) = std::sync::mpsc::channel();
        Workers {
            pool: ThreadPool::new(workers),
            tx: Some(tx),
            rx,
            executor: Arc::new(executor),
            submitted: Ghost(Seq::empty()),
        }
    }

    /// `ThreadPool::execute` with a job that calls [`report_task`] on
    /// clones of the sender and the executor, made with `Sender::clone` and
    /// `Arc::clone`. The job is queued until a worker is free. The
    /// descriptor is added to the record; nothing is claimed of when the
    /// job runs.
    #[verifier::external_body]
    pub(crate) fn submit(&mut self, descriptor: FetchDescriptor)
        requires
            old(self).accepting(),
            call_requires(old(self).executor(), (descriptor,)),
        ensures
            final(self).submitted() == old(self).submitted().push(descriptor),
            final(self).executor() == old(self).executor(),
            final(self).accepting(),
    {
        let tx = self.tx.clone().unwrap();
        let executor = Arc::clone(&self.executor);
        self.pool.execute(move || report_task(&tx, &*executor, descriptor));
    }

    /// Gives up the submitting side's own sender, so that the channel closes
    /// once the last job has reported.
    pub(crate) fn seal(&mut self)
        ensures
            !final(self).accepting(),
            final(self).submitted() == old(self).submitted(),
            final(self).executor() == old(self).executor(),
    {
        self.tx = None;
    }

    /// `Receiver::recv`: waits for the next outcome, and gives nothing once
    /// every job has reported or died. Only jobs queued by `Workers::submit`
    /// hold a sender, and such a job sends what [`run_task`] returned for its
    /// descriptor; so an outcome that arrives answers a submitted
    /// descriptor. Which one arrives next, and whether each does, is left
    /// open.
    #[verifier::external_body]
    pub(crate) fn receive(&self) -> (got: Option<FetchOutcome>)
        requires
            !self.accepting(),
        ensures
            match got {
                Some(outcome) => self.answers(outcome),
                None => true,
            },
    {
        self.rx.recv().ok()
    }
}

} // verus!
