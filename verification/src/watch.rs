//! The watch loop, as a machine that is told what happened and says what to
//! do next.
//!
//! The machine performs nothing itself. Whoever drives it asks for the next
//! step, carries it out against the cluster, and reports back with a signal.

use crate::dispatch::{action_views, handle, plan, Action, ActionView, Event, EventView};
use vstd::prelude::*;

verus! {

/// The namespace in which resources are watched and workloads are made.
pub const NAMESPACE: &'static str = "default";

/// The API group of the compose resource.
pub const RESOURCE_GROUP: &'static str = "compose.rumpl.dev";

/// The plural name under which the cluster serves compose resources.
pub const RESOURCE_PLURAL: &'static str = "composes";

/// A failure after which the loop cannot go on.
#[derive(Clone, Copy, Debug, PartialEq, Eq, Structural)]
pub enum Fault {
    /// The stream of events could not be established.
    Connect,
    /// Waiting for events on the established stream failed.
    Poll,
}

/// How a call to the cluster ended.
#[derive(Clone, Copy, Debug, PartialEq, Eq, Structural)]
pub enum Outcome {
    Succeeded,
    Failed,
}

/// What the driver reports back after a step.
#[derive(Debug)]
pub enum Signal {
    /// The stream of events is established.
    Connected,
    /// The stream of events could not be established.
    ConnectFailed,
    /// The wait for events is over; there may be events to take.
    Polled,
    /// The wait for events failed.
    PollFailed,
    /// The next event was taken from the stream.
    Event(Event),
    /// There was no event left to take.
    Drained,
    /// The action that was due has been carried out, with this outcome.
    Settled(Outcome),
}

/// A signal, with the event it may carry as a view.
pub enum SignalView {
    Connected,
    ConnectFailed,
    Polled,
    PollFailed,
    Event(EventView),
    Drained,
    Settled(Outcome),
}

impl View for Signal {
    type V = SignalView;

    open spec fn view(&self) -> SignalView {
        match self {
            Signal::Connected => SignalView::Connected,
            Signal::ConnectFailed => SignalView::ConnectFailed,
            Signal::Polled => SignalView::Polled,
            Signal::PollFailed => SignalView::PollFailed,
            Signal::Event(event) => SignalView::Event(event@),
            Signal::Drained => SignalView::Drained,
            Signal::Settled(outcome) => SignalView::Settled(*outcome),
        }
    }
}

/// What the driver has to do next.
#[derive(Debug, PartialEq, Eq)]
pub enum Step<'a> {
    /// Establish the stream of events.
    Connect,
    /// Wait until the stream has events, or fails.
    Poll,
    /// Take the next event from the stream, if there is one.
    Take,
    /// Carry out this action.
    Perform(&'a Action),
    /// Stop for good.
    Halt(Fault),
}

/// A step, with the action it may carry as a view.
pub enum StepView {
    Connect,
    Poll,
    Take,
    Perform(ActionView),
    Halt(Fault),
}

impl<'a> View for Step<'a> {
    type V = StepView;

    open spec fn view(&self) -> StepView {
        match self {
            Step::Connect => StepView::Connect,
            Step::Poll => StepView::Poll,
            Step::Take => StepView::Take,
            Step::Perform(action) => StepView::Perform(action@),
            Step::Halt(fault) => StepView::Halt(*fault),
        }
    }
}

/// Where the loop stands.
pub enum WatchState {
    /// The stream of events is yet to be established.
    Connecting,
    /// The loop waits for events.
    Polling,
    /// The loop works through what the stream has delivered. The actions are
    /// those still due for the event taken last; when none is left, the next
    /// event is taken.
    Draining(Seq<ActionView>),
    /// The loop has stopped.
    Halted(Fault),
}

impl WatchState {
    /// The step that is due in this state.
    pub open spec fn step(self) -> StepView {
        match self {
            WatchState::Connecting => StepView::Connect,
            WatchState::Polling => StepView::Poll,
            WatchState::Draining(pending) => if pending.len() > 0 {
                StepView::Perform(pending[0])
            } else {
                StepView::Take
            },
            WatchState::Halted(fault) => StepView::Halt(fault),
        }
    }

    /// The state that follows when the driver reports `signal`.
    ///
    /// A failure to connect or to poll stops the loop. An event that was taken
    /// puts its actions in line; an action that was carried out leaves the
    /// line, however it ended. A signal that does not answer the step that
    /// was due changes nothing.
    pub open spec fn after(self, signal: SignalView) -> WatchState {
        match (self, signal) {
            (WatchState::Connecting, SignalView::Connected) => WatchState::Polling,
            (WatchState::Connecting, SignalView::ConnectFailed) => WatchState::Halted(Fault::Connect),
            (WatchState::Polling, SignalView::Polled) => WatchState::Draining(Seq::empty()),
            (WatchState::Polling, SignalView::PollFailed) => WatchState::Halted(Fault::Poll),
            (WatchState::Draining(pending), SignalView::Event(event)) => if pending.len() == 0 {
                WatchState::Draining(plan(event))
            } else {
                self
            },
            (WatchState::Draining(pending), SignalView::Drained) => if pending.len() == 0 {
                WatchState::Polling
            } else {
                self
            },
            (WatchState::Draining(pending), SignalView::Settled(_)) => if pending.len() > 0 {
                WatchState::Draining(pending.drop_first())
            } else {
                self
            },
            _ => self,
        }
    }

    /// The state after a run of actions has been carried out with the given
    /// outcomes, one after the other.
    pub open spec fn after_outcomes(self, outcomes: Seq<Outcome>) -> WatchState
        decreases outcomes.len(),
    {
        if outcomes.len() == 0 {
            self
        } else {
            self.after(SignalView::Settled(outcomes[0])).after_outcomes(outcomes.drop_first())
        }
    }
}

/// However an action ends, the loop goes on in the same way: a call that the
/// cluster refused holds up nothing that comes after it.
pub proof fn lemma_outcome_does_not_matter(state: WatchState, one: Outcome, other: Outcome)
    ensures
        state.after(SignalView::Settled(one)) == state.after(SignalView::Settled(other)),
{
}

/// The actions in line are carried out one by one and in order: after as many
/// outcomes as there were actions to begin with, whatever the outcomes were,
/// exactly the later actions are still in line.
pub proof fn lemma_every_action_is_reached(pending: Seq<ActionView>, outcomes: Seq<Outcome>)
    requires
        outcomes.len() <= pending.len(),
    ensures
        WatchState::Draining(pending).after_outcomes(outcomes) == WatchState::Draining(
            pending.skip(outcomes.len() as int),
        ),
    decreases outcomes.len(),
{
    if outcomes.len() == 0 {
        assert(pending.skip(0) == pending);
    } else {
        lemma_every_action_is_reached(pending.drop_first(), outcomes.drop_first());
        assert(pending.drop_first().skip(outcomes.len() - 1) == pending.skip(outcomes.len() as int));
    }
}

/// When a resource was added, each of its services has its turn: after any
/// outcomes for the services before it, the step that is due is the action for
/// the service itself.
pub proof fn lemma_added_services_all_attempted(event: EventView, outcomes: Seq<Outcome>)
    requires
        event is Added,
        outcomes.len() < event->Added_0.services.len(),
    ensures
        WatchState::Draining(Seq::empty()).after(SignalView::Event(event)).after_outcomes(
            outcomes,
        ).step() == StepView::Perform(plan(event)[outcomes.len() as int]),
{
    lemma_every_action_is_reached(plan(event), outcomes);
}

/// The loop stops only when connecting or polling fails, and once stopped it
/// stays stopped.
pub proof fn lemma_halts_only_on_faults(state: WatchState, signal: SignalView)
    ensures
        state is Halted ==> state.after(signal) == state,
        !(state is Halted) && state.after(signal) is Halted ==> signal is ConnectFailed
            || signal is PollFailed,
{
}

/// The phase of the loop, without what is in line.
#[derive(Clone, Copy, Debug, PartialEq, Eq, Structural)]
enum Phase {
    Connecting,
    Polling,
    Draining,
    Halted(Fault),
}

/// The watch loop of the controller.
#[derive(Debug)]
pub struct WatchLoop {
    phase: Phase,
    /// The actions for the event taken last.
    actions: Vec<Action>,
    /// How many of them have been carried out.
    done: usize,
}

impl View for WatchLoop {
    type V = WatchState;

    closed spec fn view(&self) -> WatchState {
        match self.phase {
            Phase::Connecting => WatchState::Connecting,
            Phase::Polling => WatchState::Polling,
            Phase::Draining => WatchState::Draining(action_views(self.actions@).skip(self.done as int)),
            Phase::Halted(fault) => WatchState::Halted(fault),
        }
    }
}

impl WatchLoop {
    #[verifier::type_invariant]
    spec fn well_formed(&self) -> bool {
        self.done <= self.actions@.len()
    }

    /// A loop that has yet to connect.
    pub fn new() -> (watch: Self)
        ensures
            watch@ == WatchState::Connecting,
    {
        WatchLoop { phase: Phase::Connecting, actions: Vec::new(), done: 0 }
    }

    /// The step that is due.
    pub fn next_step(&self) -> (step: Step<'_>)
        ensures
            step@ == self@.step(),
    {
        proof {
            use_type_invariant(self);
        }
        match self.phase {
            Phase::Connecting => Step::Connect,
            Phase::Polling => Step::Poll,
            Phase::Draining => {
                if self.done < self.actions.len() {
                    Step::Perform(&self.actions[self.done])
                } else {
                    Step::Take
                }
            },
            Phase::Halted(fault) => Step::Halt(fault),
        }
    }

    /// Takes note of what the driver reports, and moves on.
    pub fn advance(&mut self, signal: Signal)
        ensures
            final(self)@ == old(self)@.after(signal@),
    {
        proof {
            use_type_invariant(&*self);
        }
        match self.phase {
            Phase::Connecting => {
                match signal {
                    Signal::Connected => {
                        self.phase = Phase::Polling;
                    },
                    Signal::ConnectFailed => {
                        self.phase = Phase::Halted(Fault::Connect);
                    },
                    _ => {},
                }
            },
            Phase::Polling => {
                match signal {
                    Signal::Polled => {
                        self.done = 0;
                        self.actions = Vec::new();
                        self.phase = Phase::Draining;
                        assert(action_views(self.actions@).skip(0) == Seq::<ActionView>::empty());
                    },
                    Signal::PollFailed => {
                        self.phase = Phase::Halted(Fault::Poll);
                    },
                    _ => {},
                }
            },
            Phase::Draining => {
                if self.done < self.actions.len() {
                    match signal {
                        Signal::Settled(_) => {
                            assert(action_views(self.actions@).skip(self.done as int).drop_first()
                                == action_views(self.actions@).skip(self.done as int + 1));
                            self.done = self.done + 1;
                        },
                        _ => {},
                    }
                } else {
                    match signal {
                        Signal::Event(event) => {
                            let actions = handle(&event);
                            self.done = 0;
                            self.actions = actions;
                            assert(action_views(self.actions@).skip(0) == plan(event@));
                        },
                        Signal::Drained => {
                            self.phase = Phase::Polling;
                        },
                        _ => {},
                    }
                }
            },
            Phase::Halted(_) => {},
        }
    }
}

} // verus!
