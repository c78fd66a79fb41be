use vstd::prelude::*;
use crate::record::{Message, Record};

verus! {

/// What the driver learns from its sources and its sink.
pub enum Event {
    /// The merged record and cancellation streams yielded a message.
    Arrived(Message),
    /// The record source has no more messages.
    Ended,
    /// The source, the merge or the sink failed.
    Failed,
}

/// How a run ends.
#[derive(Clone, Copy, Debug, PartialEq, Eq, Structural)]
pub enum Outcome {
    Success,
    Failure,
}

/// What the driver does next.
pub enum Action {
    /// Hand this record to the sink and wait until it is accepted.
    Deliver(Record),
    /// Stop pulling and end the run.
    Finish(Outcome),
    /// The run is over: do nothing.
    Ignore,
}

/// Whether an event ends the run: anything but an arriving record.
pub open spec fn ends_run(e: Event) -> bool {
    !(e is Arrived && e->Arrived_0 is Record)
}

/// The driver's answer to an event, given whether the run already ended.
pub open spec fn response(finished: bool, e: Event) -> Action {
    if finished {
        Action::Ignore
    } else {
        match e {
            Event::Arrived(Message::Record(r)) => Action::Deliver(r),
            Event::Arrived(Message::Done) => Action::Finish(Outcome::Success),
            Event::Ended => Action::Finish(Outcome::Success),
            Event::Failed => Action::Finish(Outcome::Failure),
        }
    }
}

/// Whether some event of the sequence ended the run.
pub open spec fn finished_after(events: Seq<Event>) -> bool
    decreases events.len(),
{
    if events.len() == 0 {
        false
    } else {
        finished_after(events.drop_last()) || ends_run(events.last())
    }
}

/// The driver's answer to event `j` of a run that starts afresh.
pub open spec fn action_at(events: Seq<Event>, j: int) -> Action {
    response(finished_after(events.take(j)), events[j])
}

/// Forwards records to a sink, one at a time, until the stream ends, a
/// `Done` arrives or something fails.
pub struct Driver {
    pub finished: bool,
}

impl Driver {
    /// A driver that has not finished.
    pub fn new() -> (r: Driver)
        ensures
            !r.finished,
    {
        Driver { finished: false }
    }

    /// Answers one event and notes whether the run has ended.
    pub fn step(&mut self, e: Event) -> (r: Action)
        ensures
            r == response(old(self).finished, e),
            final(self).finished == (old(self).finished || ends_run(e)),
    {
        if self.finished {
            return Action::Ignore;
        }
        match e {
            Event::Arrived(Message::Record(r)) => Action::Deliver(r),
            Event::Arrived(Message::Done) => {
                self.finished = true;
                Action::Finish(Outcome::Success)
            },
            Event::Ended => {
                self.finished = true;
                Action::Finish(Outcome::Success)
            },
            Event::Failed => {
                self.finished = true;
                Action::Finish(Outcome::Failure)
            },
        }
    }
}

proof fn lemma_finished_stays(events: Seq<Event>, i: int, j: int)
    requires
        0 <= i < j <= events.len(),
        ends_run(events[i]),
    ensures
        finished_after(events.take(j)),
    decreases j,
{
    let t = events.take(j);
    assert(t.drop_last() =~= events.take(j - 1));
    if j - 1 > i {
        lemma_finished_stays(events, i, j - 1);
    } else {
        assert(t.last() == events[i]);
    }
}

/// Once a `Done` has arrived, no later record reaches the sink; and where
/// nothing had ended the run before it, the `Done` ends it with success.
pub proof fn lemma_done_stops_delivery(events: Seq<Event>, i: int)
    requires
        0 <= i < events.len(),
        events[i] is Arrived,
        events[i]->Arrived_0 is Done,
    ensures
        forall|j: int| i < j < events.len() ==> !(#[trigger] action_at(events, j) is Deliver),
        !finished_after(events.take(i)) ==> action_at(events, i) == Action::Finish(Outcome::Success),
{
    assert forall|j: int| i < j < events.len() implies !(#[trigger] action_at(events, j) is Deliver) by {
        lemma_finished_stays(events, i, j);
    }
}

} // verus!
