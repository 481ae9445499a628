use vstd::prelude::*;
use std::collections::VecDeque;
use crate::error::ErrorKind;

verus! {

/// Lifecycle of a dispatcher.
#[derive(Clone, Copy, Debug, PartialEq, Eq, Structural)]
pub enum DispatchState {
    /// Accepting commands.
    Running,
    /// Exit was requested; queued commands are still handed out.
    Draining,
    /// Exit was handed out; the worker is to stop.
    Stopped,
}

/// What the worker receives from the queue.
pub enum Received<T> {
    /// The next command, in the order commands were sent.
    Job(T),
    /// Every command sent before Exit was handed out: stop.
    Exit,
    /// Nothing is queued yet: wait.
    Empty,
}

/// Sending `c` in state `st` with `p` queued: new queue, state and result.
/// Once Exit was requested, commands are refused, never silently lost.
pub open spec fn send_model<T>(p: Seq<T>, st: DispatchState, c: T) -> (Seq<T>, DispatchState, Result<(), ErrorKind>) {
    if st == DispatchState::Running {
        (p.push(c), st, Ok(()))
    } else {
        (p, st, Err(ErrorKind::ChannelDisconnected))
    }
}

/// Requesting Exit in state `st` with `p` queued.
pub open spec fn shutdown_model<T>(p: Seq<T>, st: DispatchState) -> (Seq<T>, DispatchState, Result<(), ErrorKind>) {
    if st == DispatchState::Running {
        (p, DispatchState::Draining, Ok(()))
    } else {
        (p, st, Err(ErrorKind::ChannelDisconnected))
    }
}

/// Receiving in state `st` with `p` queued: commands first, in order, and
/// Exit only once none is left.
pub open spec fn receive_model<T>(p: Seq<T>, st: DispatchState) -> (Seq<T>, DispatchState, Received<T>) {
    if p.len() > 0 {
        (p.drop_first(), st, Received::Job(p[0]))
    } else if st == DispatchState::Running {
        (p, st, Received::Empty)
    } else {
        (p, DispatchState::Stopped, Received::Exit)
    }
}

/// Sending each of `cs` in turn.
pub open spec fn send_all<T>(p: Seq<T>, st: DispatchState, cs: Seq<T>) -> (Seq<T>, DispatchState)
    decreases cs.len(),
{
    if cs.len() == 0 {
        (p, st)
    } else {
        let (p1, st1, _r) = send_model(p, st, cs[0]);
        send_all(p1, st1, cs.drop_first())
    }
}

/// Receiving `n` times: what was received, then the queue and state left.
pub open spec fn receive_n<T>(p: Seq<T>, st: DispatchState, n: nat) -> (Seq<Received<T>>, Seq<T>, DispatchState)
    decreases n,
{
    if n == 0 {
        (Seq::empty(), p, st)
    } else {
        let (p1, st1, r) = receive_model(p, st);
        let (rs, p2, st2) = receive_n(p1, st1, (n - 1) as nat);
        (seq![r] + rs, p2, st2)
    }
}

/// Each of `cs` received as a command.
pub open spec fn jobs<T>(cs: Seq<T>) -> Seq<Received<T>> {
    cs.map_values(|c: T| Received::Job(c))
}

/// The queue between any number of producers and the one worker.
pub struct Dispatcher<T> {
    queue: VecDeque<T>,
    state: DispatchState,
}

impl<T> Dispatcher<T> {
    /// Commands sent and not yet received, oldest first.
    pub closed spec fn pending(&self) -> Seq<T> {
        self.queue@
    }

    pub closed spec fn state(&self) -> DispatchState {
        self.state
    }

    pub fn new() -> (d: Self)
        ensures
            d.pending() == Seq::<T>::empty(),
            d.state() == DispatchState::Running,
    {
        Dispatcher { queue: VecDeque::new(), state: DispatchState::Running }
    }

    /// Queues a command; refused once Exit was requested.
    pub fn send(&mut self, cmd: T) -> (r: Result<(), ErrorKind>)
        ensures
            (final(self).pending(), final(self).state(), r) == send_model(old(self).pending(), old(self).state(), cmd),
    {
        if self.state == DispatchState::Running {
            self.queue.push_back(cmd);
            Ok(())
        } else {
            Err(ErrorKind::ChannelDisconnected)
        }
    }

    /// Requests Exit: commands already queued are still handed out first.
    pub fn shutdown(&mut self) -> (r: Result<(), ErrorKind>)
        ensures
            (final(self).pending(), final(self).state(), r) == shutdown_model(old(self).pending(), old(self).state()),
    {
        if self.state == DispatchState::Running {
            self.state = DispatchState::Draining;
            Ok(())
        } else {
            Err(ErrorKind::ChannelDisconnected)
        }
    }

    /// Hands the worker the oldest queued command, Exit, or nothing.
    pub fn receive(&mut self) -> (r: Received<T>)
        ensures
            (final(self).pending(), final(self).state(), r) == receive_model(old(self).pending(), old(self).state()),
    {
        match self.queue.pop_front() {
            Some(c) => Received::Job(c),
            None => {
                if self.state == DispatchState::Running {
                    Received::Empty
                } else {
                    self.state = DispatchState::Stopped;
                    Received::Exit
                }
            },
        }
    }

    /// Whether the worker has been told to stop.
    pub fn is_stopped(&self) -> (r: bool)
        ensures
            r == (self.state() == DispatchState::Stopped),
    {
        self.state == DispatchState::Stopped
    }
}

proof fn lemma_send_all_running<T>(p: Seq<T>, cs: Seq<T>)
    ensures
        send_all(p, DispatchState::Running, cs) == (p + cs, DispatchState::Running),
    decreases cs.len(),
{
    if cs.len() == 0 {
        assert(p + cs =~= p);
    } else {
        lemma_send_all_running(p.push(cs[0]), cs.drop_first());
        assert(p.push(cs[0]) + cs.drop_first() =~= p + cs);
    }
}

proof fn lemma_receive_queued<T>(q: Seq<T>, st: DispatchState, k: nat)
    ensures
        receive_n(q, st, q.len() + k) == ({
            let (rs, p2, st2) = receive_n(Seq::<T>::empty(), st, k);
            (jobs(q) + rs, p2, st2)
        }),
    decreases q.len(),
{
    if q.len() == 0 {
        assert(q =~= Seq::<T>::empty());
        assert(jobs(q) + receive_n(Seq::<T>::empty(), st, k).0 =~= receive_n(Seq::<T>::empty(), st, k).0);
    } else {
        lemma_receive_queued(q.drop_first(), st, k);
        let rs = receive_n(Seq::<T>::empty(), st, k).0;
        assert(seq![Received::Job(q[0])] + (jobs(q.drop_first()) + rs) =~= jobs(q) + rs);
    }
}

/// Commands sent by one producer to a running dispatcher are received in
/// the order they were sent, after those already queued, and none is lost.
pub proof fn lemma_fifo<T>(p: Seq<T>, cs: Seq<T>)
    ensures
        send_all(p, DispatchState::Running, cs) == (p + cs, DispatchState::Running),
        receive_n(p + cs, DispatchState::Running, (p + cs).len()) == (
            jobs(p + cs),
            Seq::<T>::empty(),
            DispatchState::Running,
        ),
{
    lemma_send_all_running(p, cs);
    lemma_receive_queued(p + cs, DispatchState::Running, 0);
    assert(jobs(p + cs) + Seq::<Received<T>>::empty() =~= jobs(p + cs));
}

/// After Exit is requested, every command queued before it is received, in
/// order, then Exit, and the dispatcher is stopped; commands sent after the
/// request are refused.
pub proof fn lemma_shutdown_drains<T>(p: Seq<T>, c: T)
    ensures
        shutdown_model(p, DispatchState::Running) == (p, DispatchState::Draining, Ok::<(), ErrorKind>(())),
        send_model(p, DispatchState::Draining, c) == (
            p,
            DispatchState::Draining,
            Err::<(), ErrorKind>(ErrorKind::ChannelDisconnected),
        ),
        receive_n(p, DispatchState::Draining, p.len() + 1) == (
            jobs(p).push(Received::Exit),
            Seq::<T>::empty(),
            DispatchState::Stopped,
        ),
{
    lemma_receive_queued(p, DispatchState::Draining, 1);
    let r1 = receive_n(Seq::<T>::empty(), DispatchState::Draining, 1);
    assert(receive_n(Seq::<T>::empty(), DispatchState::Stopped, 0).0 =~= Seq::<Received<T>>::empty());
    assert(r1.0 =~= seq![Received::<T>::Exit]);
    assert(jobs(p) + r1.0 =~= jobs(p).push(Received::Exit));
}

} // verus!
