use vstd::prelude::*;
use crate::progress::total;

verus! {

/// What reaches the reporting loop.
#[derive(Clone, Copy, Debug, PartialEq, Eq, Structural)]
pub enum Event {
    /// A worker finished a chunk of this many updates.
    Progress(usize),
    /// The throughput timer fired.
    Tick,
    /// Every worker has finished and the progress channel is closed.
    Closed,
}

/// What the reporting loop does in answer to an event.
#[derive(Clone, Copy, Debug, PartialEq, Eq, Structural)]
pub enum Action {
    /// Nothing to emit; keep waiting.
    Continue,
    /// Emit a throughput record: `total` updates since the start, `period`
    /// since the previous tick.
    Throughput { total: usize, period: usize },
    /// Emit the final summary over `total` updates and stop.
    Final { total: usize },
}

/// The counters of the reporting loop.
#[derive(Clone, Copy, Debug, PartialEq, Eq, Structural)]
pub struct Reporter {
    /// Updates reported since the start.
    pub total: usize,
    /// Updates reported since the last throughput tick.
    pub period: usize,
    /// The final summary has been emitted.
    pub finished: bool,
}

impl Reporter {
    pub open spec fn wf(&self) -> bool {
        self.period <= self.total
    }

    pub fn new() -> (r: Self)
        ensures
            r.wf(),
            r.total == 0,
            r.period == 0,
            !r.finished,
    {
        Reporter { total: 0, period: 0, finished: false }
    }

    /// The state and action that follow event `e`.
    pub open spec fn spec_step(self, e: Event) -> (Reporter, Action) {
        match e {
            Event::Progress(c) => (
                Reporter { total: (self.total + c) as usize, period: (self.period + c) as usize, ..self },
                Action::Continue,
            ),
            Event::Tick => (
                Reporter { period: 0, ..self },
                Action::Throughput { total: self.total, period: self.period },
            ),
            Event::Closed => (
                Reporter { finished: true, ..self },
                Action::Final { total: self.total },
            ),
        }
    }

    /// Whether event `e` can be taken without the total overflowing.
    pub open spec fn fits(self, e: Event) -> bool {
        match e {
            Event::Progress(c) => self.total + c <= usize::MAX,
            _ => true,
        }
    }

    /// Handles one event: a progress record adds to both counters, a tick emits
    /// the counters and restarts the period, and closing emits the final summary.
    pub fn step(&mut self, e: Event) -> (a: Action)
        requires
            old(self).wf(),
            !old(self).finished,
            old(self).fits(e),
        ensures
            final(self).wf(),
            (*final(self), a) == old(self).spec_step(e),
    {
        match e {
            Event::Progress(c) => {
                self.total = self.total + c;
                self.period = self.period + c;
                Action::Continue
            },
            Event::Tick => {
                let a = Action::Throughput { total: self.total, period: self.period };
                self.period = 0;
                a
            },
            Event::Closed => {
                self.finished = true;
                Action::Final { total: self.total }
            },
        }
    }
}

/// Runs the loop over `events`, stopping at the final summary: the state
/// reached and the actions taken.
pub open spec fn run(s: Reporter, events: Seq<Event>) -> (Reporter, Seq<Action>)
    decreases events.len(),
{
    if events.len() == 0 || s.finished {
        (s, Seq::empty())
    } else {
        let (s1, a) = s.spec_step(events[0]);
        let (s2, rest) = run(s1, events.drop_first());
        (s2, seq![a] + rest)
    }
}

/// The number of final summaries in `actions`.
pub open spec fn finals(actions: Seq<Action>) -> nat
    decreases actions.len(),
{
    if actions.len() == 0 {
        0
    } else {
        (if actions[0] is Final { 1nat } else { 0nat }) + finals(actions.drop_first())
    }
}

/// The progress events of the given counts, in order.
pub open spec fn progress_events(counts: Seq<usize>) -> Seq<Event> {
    counts.map_values(|c: usize| Event::Progress(c))
}

/// The sum of the counts.
pub open spec fn sum_counts(counts: Seq<usize>) -> int
    decreases counts.len(),
{
    if counts.len() == 0 {
        0
    } else {
        counts[0] + sum_counts(counts.drop_first())
    }
}

/// With no timer configured, a loop fed progress records that add up to `n`
/// and then the closing of the channel emits exactly one final summary, over
/// `n` updates, and stops.
pub proof fn lemma_loop_terminates(start: Reporter, counts: Seq<usize>)
    requires
        start.wf(),
        !start.finished,
        start.total + sum_counts(counts) <= usize::MAX,
        forall|i: int| 0 <= i < counts.len() ==> 0 <= #[trigger] counts[i],
    ensures
        run(start, progress_events(counts).push(Event::Closed)).0.finished,
        finals(run(start, progress_events(counts).push(Event::Closed)).1) == 1,
        run(start, progress_events(counts).push(Event::Closed)).1.last()
            == (Action::Final { total: (start.total + sum_counts(counts)) as usize }),
    decreases counts.len(),
{
    let es = progress_events(counts).push(Event::Closed);
    if counts.len() == 0 {
        assert(es =~= seq![Event::Closed]);
        let (s1, a) = start.spec_step(Event::Closed);
        assert(es.drop_first() =~= Seq::<Event>::empty());
        assert(run(s1, es.drop_first()).1 =~= Seq::<Action>::empty());
        assert(run(start, es).1 =~= seq![a]);
        assert(seq![a].drop_first() =~= Seq::<Action>::empty());
        assert(finals(Seq::<Action>::empty()) == 0);
    } else {
        let c = counts[0];
        assert(es[0] == Event::Progress(c));
        let (s1, a) = start.spec_step(es[0]);
        assert(es.drop_first() =~= progress_events(counts.drop_first()).push(Event::Closed));
        lemma_sum_nonneg(counts.drop_first());
        lemma_loop_terminates(s1, counts.drop_first());
        let rest = run(s1, es.drop_first()).1;
        assert((seq![a] + rest).drop_first() =~= rest);
        assert(rest.len() > 0);
        assert(a == Action::Continue);
        assert((seq![a] + rest)[0] == a);
        assert(run(start, es).1 == seq![a] + rest);
    }
}

proof fn lemma_total_front(s: Seq<usize>)
    requires
        s.len() > 0,
    ensures
        total(s) == s[0] + total(s.drop_first()),
    decreases s.len(),
{
    if s.len() == 1 {
        assert(s.drop_last() =~= Seq::<usize>::empty());
        assert(s.drop_first() =~= Seq::<usize>::empty());
        assert(total(Seq::<usize>::empty()) == 0);
    } else {
        lemma_total_front(s.drop_last());
        assert(s.drop_first().drop_last() =~= s.drop_last().drop_first());
        assert(s.drop_first().last() == s.last());
    }
}

proof fn lemma_sum_is_total(s: Seq<usize>)
    ensures
        sum_counts(s) == total(s),
    decreases s.len(),
{
    if s.len() > 0 {
        lemma_sum_is_total(s.drop_first());
        lemma_total_front(s);
    }
}

/// A reporting loop started afresh and fed the progress records of a run,
/// which add up to its `updates` operations, then the closing of the channel,
/// emits one final summary, over exactly `updates` updates, and stops.
pub proof fn lemma_final_total_is_updates(updates: usize, records: Seq<usize>)
    requires
        total(records) == updates,
    ensures
        ({
            let out = run(
                Reporter { total: 0, period: 0, finished: false },
                progress_events(records).push(Event::Closed),
            );
            &&& out.0.finished
            &&& finals(out.1) == 1
            &&& out.1.last() == (Action::Final { total: updates })
        }),
{
    lemma_sum_is_total(records);
    lemma_loop_terminates(Reporter { total: 0, period: 0, finished: false }, records);
}

proof fn lemma_sum_nonneg(counts: Seq<usize>)
    ensures
        sum_counts(counts) >= 0,
    decreases counts.len(),
{
    if counts.len() > 0 {
        lemma_sum_nonneg(counts.drop_first());
    }
}

} // verus!
