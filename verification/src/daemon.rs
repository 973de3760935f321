//! The daemon runs the push and the pull transport side by side and ends
//! with whichever of them ends first. Threads and channels are the caller's;
//! here is what each transport is started with, and what the daemon makes of
//! the news that reaches it.

use crate::config::RegistrationState;
use vstd::prelude::*;

verus! {

/// The two transports that a daemon runs.
#[derive(Clone, Copy, Debug, PartialEq, Eq)]
pub enum Transport {
    Push,
    Pull,
}

/// What the two transports are started with: a registry each, and the port
/// on which the pull transport listens.
#[derive(Debug, PartialEq, Eq)]
pub struct Launch {
    pub registry_for_push: RegistrationState,
    pub registry_for_pull: RegistrationState,
    pub port: String,
}

/// What reaches the daemon while it waits.
#[derive(Debug, PartialEq, Eq)]
pub enum Event<R> {
    /// A transport has ended, with this result.
    Finished(Transport, R),
    /// No transport can report any more, and none has.
    Disconnected,
}

/// What the daemon knows of its transports.
#[derive(Debug, PartialEq, Eq)]
pub enum Daemon<R> {
    /// Both transports run.
    Waiting,
    /// A transport has ended, with this result; it was the first to do so.
    Finished(Transport, R),
    /// The transports can no longer report, and none has.
    Failed,
}

/// What the daemon does next.
#[derive(Debug, PartialEq, Eq)]
pub enum Decision<R> {
    /// Go on waiting.
    Wait,
    /// End with the result of the transport that ended first, unchanged.
    Exit(R),
    /// Give up: the daemon does not go on with one transport alone.
    Abort,
}

impl<R> Daemon<R> {
    /// The state after an event: the first event settles it, and no later
    /// one changes it.
    pub open spec fn after(self, event: Event<R>) -> Daemon<R> {
        match self {
            Daemon::Waiting => match event {
                Event::Finished(transport, result) => Daemon::Finished(transport, result),
                Event::Disconnected => Daemon::Failed,
            },
            _ => self,
        }
    }

    /// The state after a run of events, taken in their order.
    pub open spec fn after_all(self, events: Seq<Event<R>>) -> Daemon<R>
        decreases events.len(),
    {
        if events.len() == 0 {
            self
        } else {
            self.after(events.first()).after_all(events.drop_first())
        }
    }

    /// What the daemon does in a state.
    pub open spec fn decision(self) -> Decision<R> {
        match self {
            Daemon::Waiting => Decision::Wait,
            Daemon::Finished(_, result) => Decision::Exit(result),
            Daemon::Failed => Decision::Abort,
        }
    }

    /// The daemon before any event.
    pub fn new() -> (daemon: Daemon<R>)
        ensures
            daemon == Daemon::<R>::Waiting,
    {
        Daemon::Waiting
    }

    /// Takes an event in. Whatever the event, the daemon no longer waits.
    pub fn observe(self, event: Event<R>) -> (next: Daemon<R>)
        ensures
            next == self.after(event),
            !(next is Waiting),
    {
        match self {
            Daemon::Waiting => match event {
                Event::Finished(transport, result) => Daemon::Finished(transport, result),
                Event::Disconnected => Daemon::Failed,
            },
            Daemon::Finished(transport, result) => Daemon::Finished(transport, result),
            Daemon::Failed => Daemon::Failed,
        }
    }

    /// What to do now.
    pub fn decide(self) -> (decision: Decision<R>)
        ensures
            decision == self.decision(),
    {
        match self {
            Daemon::Waiting => Decision::Wait,
            Daemon::Finished(_, result) => Decision::Exit(result),
            Daemon::Failed => Decision::Abort,
        }
    }
}

/// Prepares a daemon: each transport gets a registry of its own, with the
/// entries of `registry`, and the pull transport the port.
pub fn daemon(registry: RegistrationState, port: String) -> (launch: Launch)
    ensures
        launch.registry_for_push@ == registry@,
        launch.registry_for_pull@ == registry@,
        launch.port == port,
{
    let registry_for_push = registry.duplicate();
    Launch { registry_for_push, registry_for_pull: registry, port }
}

/// A state that is settled stays as it is, whatever comes after.
pub proof fn lemma_settled_stays<R>(state: Daemon<R>, events: Seq<Event<R>>)
    requires
        !(state is Waiting),
    ensures
        state.after_all(events) == state,
    decreases events.len(),
{
    if events.len() > 0 {
        lemma_settled_stays(state, events.drop_first());
    }
}

/// The daemon ends with the result of the transport that ends first,
/// whichever transport that is and whatever reaches the daemon later.
pub proof fn lemma_first_wins<R>(first: Transport, result: R, later: Seq<Event<R>>)
    ensures
        Daemon::<R>::Waiting.after(Event::Finished(first, result)).after_all(later).decision()
            == Decision::Exit(result),
{
    lemma_settled_stays(Daemon::<R>::Waiting.after(Event::Finished(first, result)), later);
}

} // verus!
