//! The debounce/coalescing engine: a per-watch state machine that accumulates
//! raw filesystem events during a quiet-period window and reduces them to a
//! single filtered change notification per burst.
//!
//! The engine itself performs no waiting and owns no timer or event source;
//! the surrounding runtime feeds it one event at a time and carries out the
//! returned effect (arm the debounce timer, release the raw event source,
//! deliver a notification).  Every decision is made here and is verified.

use vstd::prelude::*;

use crate::filter::{contains_string, is_suffix_of, lemma_filter_push, views_of, PathFilter};

verus! {

/// The recommended quiet period, in milliseconds: raw events this close
/// together coalesce into one notification.
pub const DEFAULT_DEBOUNCE_MILLIS: u64 = 500;

/// What the notification sink receives: either a coalesced, filtered change
/// or the report of a fatal source failure that terminated the watch.
#[derive(Clone, Debug, PartialEq, Eq)]
pub enum Notification {
    Changed { watch_root: String, paths: Vec<String> },
    WatchFailed { watch_root: String, reason: String },
}

/// The mathematical value of a [`Notification`].
pub enum NotificationView {
    Changed { watch_root: Seq<char>, paths: Seq<Seq<char>> },
    WatchFailed { watch_root: Seq<char>, reason: Seq<char> },
}

impl View for Notification {
    type V = NotificationView;

    open spec fn view(&self) -> NotificationView {
        match self {
            Notification::Changed { watch_root, paths } => NotificationView::Changed {
                watch_root: watch_root@,
                paths: views_of(paths@),
            },
            Notification::WatchFailed { watch_root, reason } => NotificationView::WatchFailed {
                watch_root: watch_root@,
                reason: reason@,
            },
        }
    }
}

/// One input to the engine's sequential event loop.
pub enum WatchEvent {
    /// A raw filesystem event for a path under the watched root.
    RawChange { path: String },
    /// The debounce timer elapsed with no intervening raw event.
    TimerElapsed,
    /// The registry asked this watch to shut down.
    CancelRequested,
    /// The raw event source failed fatally.
    SourceError { reason: String },
}

/// The mathematical value of a [`WatchEvent`].
pub enum EventView {
    RawChange { path: Seq<char> },
    TimerElapsed,
    CancelRequested,
    SourceError { reason: Seq<char> },
}

impl View for WatchEvent {
    type V = EventView;

    open spec fn view(&self) -> EventView {
        match self {
            WatchEvent::RawChange { path } => EventView::RawChange { path: path@ },
            WatchEvent::TimerElapsed => EventView::TimerElapsed,
            WatchEvent::CancelRequested => EventView::CancelRequested,
            WatchEvent::SourceError { reason } => EventView::SourceError { reason: reason@ },
        }
    }
}

/// What the runtime must do after handing one event to the engine.
pub struct StepEffect {
    /// Start or extend the quiet-period debounce timer.
    pub arm_timer: bool,
    /// Detach and release the raw event source attachment.
    pub release_source: bool,
    /// Deliver this notification to the sink, if any.
    pub delivery: Option<Notification>,
}

/// The mathematical value of a [`StepEffect`].
pub ghost struct EffectView {
    pub arm_timer: bool,
    pub release_source: bool,
    pub delivery: Option<NotificationView>,
}

impl View for StepEffect {
    type V = EffectView;

    open spec fn view(&self) -> EffectView {
        EffectView {
            arm_timer: self.arm_timer,
            release_source: self.release_source,
            delivery: match self.delivery {
                Option::Some(n) => Option::Some(n@),
                Option::None => Option::None,
            },
        }
    }
}

/// The three states of the per-watch state machine.
#[derive(Clone, Copy, Debug, PartialEq, Eq, Structural)]
pub enum EngineState {
    /// No raw event since the last flush (or since start).
    Idle,
    /// At least one raw event is pending; the debounce timer is armed.
    Accumulating,
    /// Cancelled or failed; no further event is processed or delivered.
    Stopped,
}

/// The mathematical value of a [`DebounceEngine`].
pub ghost struct EngineView {
    pub root: Seq<char>,
    pub suffix: Seq<char>,
    pub state: EngineState,
    pub pending: Seq<Seq<char>>,
}

/// The effect that changes nothing outside the engine.
pub open spec fn no_effect() -> EffectView {
    EffectView { arm_timer: false, release_source: false, delivery: Option::None }
}

/// Inserting a path into the pending set: a no-op on a duplicate.
pub open spec fn pending_after_insert(pending: Seq<Seq<char>>, path: Seq<char>) -> Seq<Seq<char>> {
    if pending.contains(path) {
        pending
    } else {
        pending.push(path)
    }
}

/// The filter predicate as a function value, for use with `Seq::filter`.
pub open spec fn matches_suffix(suffix: Seq<char>) -> spec_fn(Seq<char>) -> bool {
    |p: Seq<char>| is_suffix_of(suffix, p)
}

/// The paths a flush reports: the pending set restricted to the filter,
/// in insertion order.
pub open spec fn flushed_paths(suffix: Seq<char>, pending: Seq<Seq<char>>) -> Seq<Seq<char>> {
    pending.filter(matches_suffix(suffix))
}

/// The engine state after one event: the transition table of the machine.
pub open spec fn step_view(v: EngineView, ev: EventView) -> EngineView {
    if v.state is Stopped {
        v
    } else {
        match ev {
            EventView::RawChange { path } => EngineView {
                state: EngineState::Accumulating,
                pending: pending_after_insert(v.pending, path),
                ..v
            },
            EventView::TimerElapsed => if v.state is Accumulating {
                EngineView { state: EngineState::Idle, pending: Seq::empty(), ..v }
            } else {
                v
            },
            EventView::CancelRequested => EngineView {
                state: EngineState::Stopped,
                pending: Seq::empty(),
                ..v
            },
            EventView::SourceError { reason } => EngineView {
                state: EngineState::Stopped,
                pending: Seq::empty(),
                ..v
            },
        }
    }
}

/// The effect of one event: what the runtime must carry out.
pub open spec fn step_effect(v: EngineView, ev: EventView) -> EffectView {
    if v.state is Stopped {
        no_effect()
    } else {
        match ev {
            EventView::RawChange { path } => EffectView {
                arm_timer: true,
                release_source: false,
                delivery: Option::None,
            },
            EventView::TimerElapsed => if v.state is Accumulating {
                EffectView {
                    arm_timer: false,
                    release_source: false,
                    delivery: if flushed_paths(v.suffix, v.pending).len() > 0 {
                        Option::Some(
                            NotificationView::Changed {
                                watch_root: v.root,
                                paths: flushed_paths(v.suffix, v.pending),
                            },
                        )
                    } else {
                        Option::None
                    },
                }
            } else {
                no_effect()
            },
            EventView::CancelRequested => EffectView {
                arm_timer: false,
                release_source: true,
                delivery: Option::None,
            },
            EventView::SourceError { reason } => EffectView {
                arm_timer: false,
                release_source: true,
                delivery: Option::Some(
                    NotificationView::WatchFailed { watch_root: v.root, reason },
                ),
            },
        }
    }
}

/// No path occurs twice.
pub open spec fn distinct_paths(s: Seq<Seq<char>>) -> bool {
    forall|i: int, j: int| 0 <= i < j < s.len() ==> s[i] != s[j]
}

/// The per-watch debounce engine.  `pending` is the time-bounded accumulator
/// of distinct changed paths since the last flush.
pub struct DebounceEngine {
    watch_root: String,
    filter: PathFilter,
    state: EngineState,
    pending: Vec<String>,
}

impl View for DebounceEngine {
    type V = EngineView;

    closed spec fn view(&self) -> EngineView {
        EngineView {
            root: self.watch_root@,
            suffix: self.filter.suffix@,
            state: self.state,
            pending: views_of(self.pending@),
        }
    }
}

impl DebounceEngine {
    /// The pending accumulator never holds a path twice.
    pub open spec fn wf(self) -> bool {
        distinct_paths(self@.pending)
    }

    /// A fresh engine for one watch: idle, with nothing pending.
    pub fn new(watch_root: String, filter: PathFilter) -> (e: DebounceEngine)
        ensures
            e@.root == watch_root@,
            e@.suffix == filter.suffix@,
            e@.state == EngineState::Idle,
            e@.pending == Seq::<Seq<char>>::empty(),
            e.wf(),
    {
        let e = DebounceEngine { watch_root, filter, state: EngineState::Idle, pending: Vec::new() };
        proof {
            assert(e@.pending =~= Seq::<Seq<char>>::empty());
        }
        e
    }

    /// Feed one event through the state machine and learn what to do next.
    /// The new state and the effect are exactly those of the transition table
    /// ([`step_view`], [`step_effect`]).
    pub fn on_event(&mut self, event: WatchEvent) -> (eff: StepEffect)
        requires
            old(self).wf(),
        ensures
            final(self).wf(),
            final(self)@ == step_view(old(self)@, event@),
            eff@ == step_effect(old(self)@, event@),
    {
        match self.state {
            EngineState::Stopped => StepEffect {
                arm_timer: false,
                release_source: false,
                delivery: None,
            },
            _ => match event {
                WatchEvent::RawChange { path } => {
                    self.state = EngineState::Accumulating;
                    let already = contains_string(&self.pending, &path);
                    if !already {
                        self.pending.push(path);
                        proof {
                            assert(self@.pending =~= pending_after_insert(
                                old(self)@.pending,
                                path@,
                            ));
                        }
                    }
                    StepEffect { arm_timer: true, release_source: false, delivery: None }
                },
                WatchEvent::TimerElapsed => {
                    if matches!(self.state, EngineState::Accumulating) {
                        let flushed = filter_matching(&self.filter, &self.pending);
                        self.pending = Vec::new();
                        self.state = EngineState::Idle;
                        proof {
                            assert(self@.pending =~= Seq::<Seq<char>>::empty());
                        }
                        if flushed.len() > 0 {
                            StepEffect {
                                arm_timer: false,
                                release_source: false,
                                delivery: Some(
                                    Notification::Changed {
                                        watch_root: self.watch_root.clone(),
                                        paths: flushed,
                                    },
                                ),
                            }
                        } else {
                            StepEffect { arm_timer: false, release_source: false, delivery: None }
                        }
                    } else {
                        StepEffect { arm_timer: false, release_source: false, delivery: None }
                    }
                },
                WatchEvent::CancelRequested => {
                    self.state = EngineState::Stopped;
                    self.pending = Vec::new();
                    proof {
                        assert(self@.pending =~= Seq::<Seq<char>>::empty());
                    }
                    StepEffect { arm_timer: false, release_source: true, delivery: None }
                },
                WatchEvent::SourceError { reason } => {
                    self.state = EngineState::Stopped;
                    self.pending = Vec::new();
                    proof {
                        assert(self@.pending =~= Seq::<Seq<char>>::empty());
                    }
                    StepEffect {
                        arm_timer: false,
                        release_source: true,
                        delivery: Some(
                            Notification::WatchFailed {
                                watch_root: self.watch_root.clone(),
                                reason,
                            },
                        ),
                    }
                },
            },
        }
    }

    /// The canonical root this engine reports for.
    pub fn watch_root(&self) -> (r: &String)
        ensures
            r@ == self@.root,
    {
        &self.watch_root
    }
}

/// Apply the filter once per distinct pending path, keeping insertion order.
fn filter_matching(filter: &PathFilter, paths: &Vec<String>) -> (out: Vec<String>)
    ensures
        views_of(out@) == flushed_paths(filter.suffix@, views_of(paths@)),
{
    let n = paths.len();
    let mut out: Vec<String> = Vec::new();
    let ghost pred = matches_suffix(filter.suffix@);
    proof {
        assert(views_of(out@) =~= views_of(paths@).take(0).filter(pred));
    }
    let mut i: usize = 0;
    while i < n
        invariant
            n == paths@.len(),
            i <= n,
            pred == matches_suffix(filter.suffix@),
            views_of(out@) == views_of(paths@).take(i as int).filter(pred),
        decreases n - i,
    {
        let ghost prior = views_of(out@);
        if filter.matches(paths[i].as_str()) {
            out.push(paths[i].clone());
            proof {
                assert(views_of(out@) =~= prior.push(paths@[i as int]@));
            }
        }
        proof {
            assert(views_of(paths@).take(i + 1) =~= views_of(paths@).take(i as int).push(
                paths@[i as int]@,
            ));
            lemma_filter_push(views_of(paths@).take(i as int), pred, paths@[i as int]@);
        }
        i += 1;
    }
    proof {
        assert(views_of(paths@).take(n as int) =~= views_of(paths@));
    }
    out
}

/// The engine state after a whole sequence of events.
pub open spec fn run_view(v: EngineView, evs: Seq<EventView>) -> EngineView
    decreases evs.len(),
{
    if evs.len() == 0 {
        v
    } else {
        run_view(step_view(v, evs[0]), evs.drop_first())
    }
}

/// Everything delivered to the sink over a whole sequence of events, in
/// delivery (FIFO) order.
pub open spec fn run_deliveries(v: EngineView, evs: Seq<EventView>) -> Seq<NotificationView>
    decreases evs.len(),
{
    if evs.len() == 0 {
        Seq::empty()
    } else {
        let rest = run_deliveries(step_view(v, evs[0]), evs.drop_first());
        match step_effect(v, evs[0]).delivery {
            Option::Some(n) => seq![n] + rest,
            Option::None => rest,
        }
    }
}

/// Runs compose: processing `a + b` is processing `a`, then `b` from where
/// `a` left off, and the deliveries concatenate in order.
pub proof fn lemma_run_append(v: EngineView, a: Seq<EventView>, b: Seq<EventView>)
    ensures
        run_view(v, a + b) == run_view(run_view(v, a), b),
        run_deliveries(v, a + b) == run_deliveries(v, a) + run_deliveries(run_view(v, a), b),
    decreases a.len(),
{
    if a.len() == 0 {
        assert(a + b =~= b);
        assert(run_deliveries(v, a) + run_deliveries(run_view(v, a), b) =~= run_deliveries(v, b));
    } else {
        assert((a + b)[0] == a[0]);
        assert((a + b).drop_first() =~= a.drop_first() + b);
        lemma_run_append(step_view(v, a[0]), a.drop_first(), b);
        assert(run_deliveries(v, a + b) =~= run_deliveries(v, a) + run_deliveries(
            run_view(v, a),
            b,
        ));
    }
}

/// A run of a single event is just that event's step.
proof fn lemma_run_single(v: EngineView, ev: EventView)
    ensures
        run_view(v, seq![ev]) == step_view(v, ev),
        run_deliveries(v, seq![ev]) == match step_effect(v, ev).delivery {
            Option::Some(n) => seq![n],
            Option::None => Seq::<NotificationView>::empty(),
        },
{
    reveal_with_fuel(run_view, 2);
    reveal_with_fuel(run_deliveries, 2);
    let c = seq![ev];
    assert(c.drop_first() =~= Seq::<EventView>::empty());
    match step_effect(v, ev).delivery {
        Option::Some(n) => {
            assert(seq![n] + Seq::<NotificationView>::empty() =~= seq![n]);
        },
        Option::None => {},
    }
}

/// Once the engine is stopped, no sequence of further events changes it or
/// delivers anything: events observed after cancellation are discarded.
pub proof fn lemma_stopped_is_silent(v: EngineView, evs: Seq<EventView>)
    requires
        v.state is Stopped,
    ensures
        run_view(v, evs) == v,
        run_deliveries(v, evs) == Seq::<NotificationView>::empty(),
    decreases evs.len(),
{
    if evs.len() > 0 {
        assert(step_view(v, evs[0]) == v);
        lemma_stopped_is_silent(v, evs.drop_first());
    }
}

/// After a cancellation request is processed, nothing is ever delivered for
/// this watch again, even for events already in flight at that moment.
pub proof fn lemma_no_delivery_after_cancel(v: EngineView, evs: Seq<EventView>)
    ensures
        run_deliveries(v, seq![EventView::CancelRequested] + evs)
            == Seq::<NotificationView>::empty(),
{
    let c = seq![EventView::CancelRequested];
    lemma_run_append(v, c, evs);
    lemma_run_single(v, EventView::CancelRequested);
    assert(run_deliveries(v, c) =~= Seq::<NotificationView>::empty());
    lemma_stopped_is_silent(run_view(v, c), evs);
    assert(run_deliveries(v, c + evs) =~= Seq::<NotificationView>::empty());
}

/// A burst of raw events on one path, all within the debounce window.
pub open spec fn raw_burst(path: Seq<char>, n: nat) -> Seq<EventView> {
    Seq::new(n, |i: int| EventView::RawChange { path })
}

/// While a single path keeps arriving, the engine stays accumulating exactly
/// that one pending path and delivers nothing.
proof fn lemma_burst_holds_single(v: EngineView, path: Seq<char>, n: nat)
    requires
        v.state is Accumulating,
        v.pending == seq![path],
    ensures
        run_view(v, raw_burst(path, n)) == v,
        run_deliveries(v, raw_burst(path, n)) == Seq::<NotificationView>::empty(),
    decreases n,
{
    if n > 0 {
        let evs = raw_burst(path, n);
        assert(v.pending.contains(path)) by {
            assert(v.pending[0] == path);
        }
        assert(step_view(v, evs[0]) == v);
        assert(evs.drop_first() =~= raw_burst(path, (n - 1) as nat));
        lemma_burst_holds_single(v, path, (n - 1) as nat);
    }
}

/// For any burst of `n >= 1` raw events on one matching path within the
/// debounce window, followed by the quiet period elapsing, exactly one
/// `Changed` notification is delivered, containing that path exactly once.
pub proof fn lemma_burst_coalesces(v: EngineView, path: Seq<char>, n: nat)
    requires
        v.state is Idle,
        v.pending == Seq::<Seq<char>>::empty(),
        is_suffix_of(v.suffix, path),
        n >= 1,
    ensures
        run_deliveries(v, raw_burst(path, n).push(EventView::TimerElapsed)) == seq![
            NotificationView::Changed { watch_root: v.root, paths: seq![path] },
        ],
{
    let burst = raw_burst(path, n);
    let accum = EngineView {
        state: EngineState::Accumulating,
        pending: seq![path],
        ..v
    };

    // The first raw event moves the engine to `accum` and delivers nothing;
    // the rest of the burst keeps it there.
    assert(v.pending.push(path) =~= seq![path]);
    assert(step_view(v, burst[0]) == accum);
    assert(burst.drop_first() =~= raw_burst(path, (n - 1) as nat));
    lemma_burst_holds_single(accum, path, (n - 1) as nat);
    assert(run_view(v, burst) == accum);
    assert(run_deliveries(v, burst) =~= Seq::<NotificationView>::empty());

    // The quiet period then flushes the one pending path, which the filter
    // keeps, so exactly one notification goes out.
    let quiet = seq![EventView::TimerElapsed];
    lemma_run_append(v, burst, quiet);
    assert(burst + quiet =~= burst.push(EventView::TimerElapsed));
    lemma_filter_push(Seq::empty(), matches_suffix(v.suffix), path);
    assert(Seq::<Seq<char>>::empty().push(path) =~= seq![path]);
    assert(Seq::<Seq<char>>::empty().filter(matches_suffix(v.suffix))
        =~= Seq::<Seq<char>>::empty()) by {
        reveal(Seq::filter);
    }
    assert(flushed_paths(v.suffix, seq![path]) =~= seq![path]);
    let out = NotificationView::Changed { watch_root: v.root, paths: seq![path] };
    assert(step_effect(accum, EventView::TimerElapsed).delivery == Option::Some(out));
    lemma_run_single(accum, EventView::TimerElapsed);
    assert(run_deliveries(accum, quiet) =~= seq![out]);
    assert(run_deliveries(v, burst.push(EventView::TimerElapsed)) =~= seq![
        NotificationView::Changed { watch_root: v.root, paths: seq![path] },
    ]);
}

/// Every `Changed` notification in `d` lists only paths the filter accepts.
pub open spec fn deliveries_respect_filter(suffix: Seq<char>, d: Seq<NotificationView>) -> bool {
    forall|k: int|
        0 <= k < d.len() ==> (#[trigger] d[k] matches NotificationView::Changed { paths, .. }
            ==> (forall|j: int| 0 <= j < paths.len() ==> is_suffix_of(suffix, #[trigger] paths[j])))
}

/// A path the filter rejects never appears in any delivered `Changed`
/// notification, whatever raw events arrive.
pub proof fn lemma_no_unfiltered_delivery(v: EngineView, evs: Seq<EventView>)
    ensures
        deliveries_respect_filter(v.suffix, run_deliveries(v, evs)),
    decreases evs.len(),
{
    if evs.len() > 0 {
        let head = step_effect(v, evs[0]).delivery;
        let next = step_view(v, evs[0]);
        let rest = run_deliveries(next, evs.drop_first());
        assert(next.suffix == v.suffix);
        lemma_no_unfiltered_delivery(next, evs.drop_first());
        match head {
            Option::Some(n) => {
                match n {
                    NotificationView::Changed { watch_root, paths } => {
                        assert(paths == flushed_paths(v.suffix, v.pending));
                        assert forall|j: int| 0 <= j < paths.len() implies is_suffix_of(
                            v.suffix,
                            paths[j],
                        ) by {
                            v.pending.lemma_filter_pred(matches_suffix(v.suffix), j);
                        }
                    },
                    NotificationView::WatchFailed { .. } => {},
                }
                assert(run_deliveries(v, evs) == seq![n] + rest);
                assert forall|k: int|
                    0 <= k < run_deliveries(v, evs).len() implies (#[trigger] run_deliveries(
                    v,
                    evs,
                )[k] matches NotificationView::Changed { paths, .. } ==> (forall|j: int|
                    0 <= j < paths.len() ==> is_suffix_of(v.suffix, #[trigger] paths[j]))) by {
                    if k == 0 {
                        assert(run_deliveries(v, evs)[0] == n);
                    } else {
                        assert(run_deliveries(v, evs)[k] == rest[k - 1]);
                    }
                }
            },
            Option::None => {},
        }
    }
}

} // verus!
