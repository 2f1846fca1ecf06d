//! The consumer side: events from a tail worker update the progress tracker,
//! the scrollback and the status line, at most a fixed budget per tick.
use vstd::prelude::*;

use std::collections::VecDeque;

use crate::parser::LogLine;
use crate::progress::{progress_step, ProgressState};
use crate::text::opt_view;
use crate::view::{capped_push, overflow, saturating_diff, ViewState};

verus! {

/// How many events one tick applies at most.
pub const MAX_EVENTS_PER_TICK: usize = 1000;

/// What a tail worker sends.
#[derive(Debug)]
pub enum TailEvent {
    Line(LogLine),
    Error(String),
    Tick,
}

/// The consumer's state as plain values.
pub ghost struct EngineModel {
    pub lines: Seq<LogLine>,
    pub cap: nat,
    pub scroll: nat,
    pub filter: Option<Seq<char>>,
    pub progress: ProgressState,
    pub status: Option<Seq<char>>,
}

/// The status shown while a tick's budget runs out.
pub open spec fn throttle_message() -> Seq<char> {
    "High log throughput: throttling display to keep UI responsive"@
}

/// The state after one event.
pub open spec fn apply_event(m: EngineModel, ev: TailEvent) -> EngineModel {
    match ev {
        TailEvent::Line(l) => EngineModel {
            lines: capped_push(m.lines, l, m.cap),
            scroll: saturating_diff(m.scroll, overflow(m.lines.len(), m.cap)),
            progress: progress_step(m.progress, l.text@),
            ..m
        },
        TailEvent::Error(e) => EngineModel { status: Some(e@), ..m },
        TailEvent::Tick => m,
    }
}

/// The state after the events `evs`, in order.
pub open spec fn apply_all(m: EngineModel, evs: Seq<TailEvent>) -> EngineModel
    decreases evs.len(),
{
    if evs.len() == 0 {
        m
    } else {
        apply_event(apply_all(m, evs.drop_last()), evs.last())
    }
}

pub open spec fn min(a: nat, b: nat) -> nat {
    if a < b {
        a
    } else {
        b
    }
}

/// One tick: the state and the queue after draining at most `budget`
/// events from the front of `q`.
pub open spec fn tick(m: EngineModel, q: Seq<TailEvent>, budget: nat) -> (EngineModel, Seq<TailEvent>) {
    let n = min(budget, q.len());
    let m1 = apply_all(m, q.take(n as int));
    let m2 = if n == budget {
        EngineModel { status: Some(throttle_message()), ..m1 }
    } else {
        m1
    };
    (m2, q.skip(n as int))
}

/// `k` ticks in a row.
pub open spec fn ticks(m: EngineModel, q: Seq<TailEvent>, budget: nat, k: nat) -> (
    EngineModel,
    Seq<TailEvent>,
)
    decreases k,
{
    if k == 0 {
        (m, q)
    } else {
        let (m1, q1) = tick(m, q, budget);
        ticks(m1, q1, budget, (k - 1) as nat)
    }
}

/// What the events do to the scrollback, the cursor and the progress; the
/// status line aside.
pub open spec fn content(m: EngineModel) -> (Seq<LogLine>, nat, nat, Option<Seq<char>>, ProgressState) {
    (m.lines, m.cap, m.scroll, m.filter, m.progress)
}

proof fn lemma_content_ignores_status(m: EngineModel, m2: EngineModel, evs: Seq<TailEvent>)
    requires
        content(m) == content(m2),
    ensures
        content(apply_all(m, evs)) == content(apply_all(m2, evs)),
    decreases evs.len(),
{
    if evs.len() > 0 {
        lemma_content_ignores_status(m, m2, evs.drop_last());
    }
}

proof fn lemma_apply_concat(m: EngineModel, a: Seq<TailEvent>, b: Seq<TailEvent>)
    ensures
        apply_all(m, a + b) == apply_all(apply_all(m, a), b),
    decreases b.len(),
{
    if b.len() == 0 {
        assert(a + b =~= a);
    } else {
        lemma_apply_concat(m, a, b.drop_last());
        assert((a + b).drop_last() =~= a + b.drop_last());
    }
}

/// End-to-end budget: `k` ticks with a budget of `b` events each apply,
/// status aside, exactly the first `min(k * b, |q|)` queued events, in
/// queue order, and leave the rest queued; nothing is lost or reordered.
pub proof fn lemma_ticks_drain_in_order(m: EngineModel, q: Seq<TailEvent>, b: nat, k: nat)
    ensures
        ticks(m, q, b, k).1 == q.skip(min(k * b, q.len()) as int),
        content(ticks(m, q, b, k).0) == content(apply_all(m, q.take(min(k * b, q.len()) as int))),
    decreases k,
{
    if k == 0 {
        assert(q.skip(0) =~= q);
        assert(q.take(0) =~= Seq::<TailEvent>::empty());
    } else {
        let n = min(b, q.len());
        let (m1, q1) = tick(m, q, b);
        lemma_ticks_drain_in_order(m1, q1, b, (k - 1) as nat);
        let j = min(((k - 1) as nat) * b, q1.len());
        assert(k * b == (k - 1) * b + b) by (nonlinear_arith);
        assert(min(k * b, q.len()) == n + j);
        assert(q1.skip(j as int) =~= q.skip((n + j) as int));
        assert(q.take((n + j) as int) =~= q.take(n as int) + q1.take(j as int));
        lemma_apply_concat(m, q.take(n as int), q1.take(j as int));
        lemma_content_ignores_status(m1, apply_all(m, q.take(n as int)), q1.take(j as int));
    }
}

/// Scrollback, cursor, progress and status line of the consumer.
pub struct EngineState {
    pub view: ViewState,
    pub progress: ProgressState,
    pub status: Option<String>,
}

impl EngineState {
    pub open spec fn wf(&self) -> bool {
        self.view.wf()
    }

    pub open spec fn model(&self) -> EngineModel {
        EngineModel {
            lines: self.view.lines_view(),
            cap: self.view.cap_view(),
            scroll: self.view.scroll_view(),
            filter: self.view.filter_view(),
            progress: self.progress,
            status: opt_view(self.status),
        }
    }

    /// An empty engine whose scrollback keeps at most `cap` lines.
    pub fn with_cap(cap: usize) -> (r: EngineState)
        ensures
            r.wf(),
            r.model() == (EngineModel {
                lines: seq![],
                cap: cap as nat,
                scroll: 0,
                filter: None,
                progress: ProgressState { active: false, completed: 0, remaining: 0, total: 0 },
                status: None,
            }),
    {
        EngineState { view: ViewState::with_cap(cap), progress: ProgressState::new(), status: None }
    }

    /// Updates the progress tracker from a line, then appends it to the
    /// scrollback.
    pub fn push_line(&mut self, line: LogLine)
        requires
            old(self).wf(),
        ensures
            final(self).wf(),
            final(self).model() == apply_event(old(self).model(), TailEvent::Line(line)),
    {
        self.progress.update_cook_state(line.text.as_str());
        self.view.push_line(line);
    }

    /// Applies one event from the worker.
    pub fn apply(&mut self, ev: TailEvent)
        requires
            old(self).wf(),
        ensures
            final(self).wf(),
            final(self).model() == apply_event(old(self).model(), ev),
    {
        match ev {
            TailEvent::Line(l) => self.push_line(l),
            TailEvent::Error(e) => {
                self.status = Some(e);
            },
            TailEvent::Tick => {},
        }
    }

    /// One tick: applies at most `budget` events from the front of `queue`,
    /// in order, and leaves the rest queued. When the budget is used up the
    /// status line says that the display is throttled. Returns how many
    /// events were applied.
    pub fn drain_tick(&mut self, queue: &mut VecDeque<TailEvent>, budget: usize) -> (r: usize)
        requires
            old(self).wf(),
        ensures
            final(self).wf(),
            r == min(budget as nat, old(queue)@.len()),
            (final(self).model(), final(queue)@) == tick(old(self).model(), old(queue)@, budget as nat),
    {
        let ghost m0 = self.model();
        let ghost q0 = queue@;
        let n: usize = if budget < queue.len() {
            budget
        } else {
            queue.len()
        };
        let mut processed: usize = 0;
        while processed < n
            invariant
                self.wf(),
                processed <= n <= q0.len(),
                n == min(budget as nat, q0.len()),
                queue@ == q0.skip(processed as int),
                self.model() == apply_all(m0, q0.take(processed as int)),
            decreases n - processed,
        {
            let ev = queue.pop_front().unwrap();
            assert(q0.take(processed + 1).drop_last() =~= q0.take(processed as int));
            assert(q0.take(processed + 1).last() == ev);
            self.apply(ev);
            processed = processed + 1;
            assert(queue@ =~= q0.skip(processed as int));
        }
        if processed == budget {
            self.status = Some("High log throughput: throttling display to keep UI responsive".to_owned());
        }
        processed
    }
}

} // verus!
