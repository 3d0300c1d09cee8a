use vstd::prelude::*;

verus! {

/// Where the reload cycle stands.
#[derive(Debug, Clone, Copy, PartialEq, Eq, Structural)]
pub enum WatchState {
    /// No change seen since the last rebuild.
    Idle,
    /// Changes seen; `last` is the time of the most recent one.
    Pending { last: u64 },
    /// A rebuild runs; `queued` is the time of the latest change seen meanwhile.
    Rebuilding { queued: Option<u64> },
}

/// What the reload cycle is told.
#[derive(Debug, Clone, Copy, PartialEq, Eq, Structural)]
pub enum WatchEvent {
    /// The template directory changed at time `at`.
    Changed { at: u64 },
    /// The clock reads `at`.
    Tick { at: u64 },
    /// The rebuild that was asked for finished; `ok` says whether it built a catalog.
    Built { ok: bool },
}

/// What the reload cycle asks its runner to do.
#[derive(Debug, Clone, Copy, PartialEq, Eq, Structural)]
pub enum WatchAction {
    Nothing,
    /// Build a new catalog from the template directory.
    Rebuild,
    /// Make the catalog just built the active one.
    Swap,
    /// Keep the active catalog and report the failed build.
    Report,
}

/// One transition of the reload cycle; times are in any unit shared with `window`, the
/// quiet period that must follow the latest change before a rebuild starts.
pub open spec fn next(s: WatchState, e: WatchEvent, window: u64) -> (WatchState, WatchAction) {
    match (s, e) {
        (WatchState::Idle, WatchEvent::Changed { at }) => (
            WatchState::Pending { last: at },
            WatchAction::Nothing,
        ),
        (WatchState::Pending { last }, WatchEvent::Changed { at }) => (
            WatchState::Pending { last: at },
            WatchAction::Nothing,
        ),
        (WatchState::Pending { last }, WatchEvent::Tick { at }) => if at >= last + window {
            (WatchState::Rebuilding { queued: None }, WatchAction::Rebuild)
        } else {
            (s, WatchAction::Nothing)
        },
        (WatchState::Rebuilding { queued }, WatchEvent::Changed { at }) => (
            WatchState::Rebuilding { queued: Some(at) },
            WatchAction::Nothing,
        ),
        (WatchState::Rebuilding { queued }, WatchEvent::Built { ok }) => (
            match queued {
                Some(t) => WatchState::Pending { last: t },
                None => WatchState::Idle,
            },
            if ok { WatchAction::Swap } else { WatchAction::Report },
        ),
        _ => (s, WatchAction::Nothing),
    }
}

/// Takes the reload cycle one step: the new state and what to do.
pub fn step(s: WatchState, e: WatchEvent, window: u64) -> (r: (WatchState, WatchAction))
    ensures
        r == next(s, e, window),
{
    match (s, e) {
        (WatchState::Idle, WatchEvent::Changed { at }) => (
            WatchState::Pending { last: at },
            WatchAction::Nothing,
        ),
        (WatchState::Pending { last }, WatchEvent::Changed { at }) => (
            WatchState::Pending { last: at },
            WatchAction::Nothing,
        ),
        (WatchState::Pending { last }, WatchEvent::Tick { at }) => {
            if at >= last && at - last >= window {
                (WatchState::Rebuilding { queued: None }, WatchAction::Rebuild)
            } else {
                (s, WatchAction::Nothing)
            }
        },
        (WatchState::Rebuilding { queued }, WatchEvent::Changed { at }) => (
            WatchState::Rebuilding { queued: Some(at) },
            WatchAction::Nothing,
        ),
        (WatchState::Rebuilding { queued }, WatchEvent::Built { ok }) => (
            match queued {
                Some(t) => WatchState::Pending { last: t },
                None => WatchState::Idle,
            },
            if ok {
                WatchAction::Swap
            } else {
                WatchAction::Report
            },
        ),
        _ => (s, WatchAction::Nothing),
    }
}

/// The state after a run of events, and how many rebuilds the run asked for.
pub open spec fn run(s: WatchState, evs: Seq<WatchEvent>, window: u64) -> (WatchState, nat)
    decreases evs.len(),
{
    if evs.len() == 0 {
        (s, 0)
    } else {
        let (s1, a) = next(s, evs[0], window);
        let (s2, n) = run(s1, evs.drop_first(), window);
        (s2, n + if a == WatchAction::Rebuild { 1nat } else { 0nat })
    }
}

/// Events that follow a change at `last` closely: more changes, and clock readings that
/// come before `window` has passed since the latest change.
pub open spec fn close_events(last: u64, evs: Seq<WatchEvent>, window: u64) -> bool
    decreases evs.len(),
{
    evs.len() == 0 || match evs[0] {
        WatchEvent::Changed { at } => close_events(at, evs.drop_first(), window),
        WatchEvent::Tick { at } => at < last + window && close_events(
            last,
            evs.drop_first(),
            window,
        ),
        WatchEvent::Built { ok } => false,
    }
}

/// The time of the latest change among `evs`, `last` if there is none.
pub open spec fn latest_change(last: u64, evs: Seq<WatchEvent>) -> u64
    decreases evs.len(),
{
    if evs.len() == 0 {
        last
    } else {
        match evs[0] {
            WatchEvent::Changed { at } => latest_change(at, evs.drop_first()),
            _ => latest_change(last, evs.drop_first()),
        }
    }
}

proof fn lemma_run_append(s: WatchState, a: Seq<WatchEvent>, b: Seq<WatchEvent>, window: u64)
    ensures
        run(s, a + b, window) == ({
            let (s1, n1) = run(s, a, window);
            let (s2, n2) = run(s1, b, window);
            (s2, n1 + n2)
        }),
    decreases a.len(),
{
    if a.len() == 0 {
        assert(a + b =~= b);
    } else {
        assert((a + b).drop_first() =~= a.drop_first() + b);
        let (s1, _) = next(s, a[0], window);
        lemma_run_append(s1, a.drop_first(), b, window);
    }
}

proof fn lemma_close_events_stay_pending(last: u64, evs: Seq<WatchEvent>, window: u64)
    requires
        close_events(last, evs, window),
    ensures
        run(WatchState::Pending { last }, evs, window) == (
            WatchState::Pending { last: latest_change(last, evs) },
            0nat,
        ),
    decreases evs.len(),
{
    if evs.len() > 0 {
        match evs[0] {
            WatchEvent::Changed { at } => lemma_close_events_stay_pending(
                at,
                evs.drop_first(),
                window,
            ),
            _ => lemma_close_events_stay_pending(last, evs.drop_first(), window),
        }
    }
}

/// A burst of changes, none of them further than the debounce window from the one
/// before, with the clock read in between, asks for exactly one rebuild: once the
/// window has passed after the latest change.
pub proof fn lemma_burst_rebuilds_once(
    first: u64,
    evs: Seq<WatchEvent>,
    fire: u64,
    window: u64,
)
    requires
        close_events(first, evs, window),
        fire >= latest_change(first, evs) + window,
    ensures
        run(
            WatchState::Idle,
            seq![WatchEvent::Changed { at: first }] + evs + seq![WatchEvent::Tick { at: fire }],
            window,
        ) == (WatchState::Rebuilding { queued: None }, 1nat),
{
    let head = seq![WatchEvent::Changed { at: first }];
    let tail = seq![WatchEvent::Tick { at: fire }];
    lemma_run_append(WatchState::Idle, head + evs, tail, window);
    lemma_run_append(WatchState::Idle, head, evs, window);
    assert(head.drop_first() =~= Seq::<WatchEvent>::empty());
    assert(tail.drop_first() =~= Seq::<WatchEvent>::empty());
    lemma_close_events_stay_pending(first, evs, window);
    reveal_with_fuel(run, 2);
    let last = latest_change(first, evs);
    assert(run(WatchState::Idle, head, window) == (WatchState::Pending { last: first }, 0nat));
    assert(run(WatchState::Pending { last }, tail, window) == (
        WatchState::Rebuilding { queued: None },
        1nat,
    ));
}

/// One change, a clock reading at least `window` later, and the end of the rebuild,
/// for each triple `(changed, tick, ok)` of `cycles`.
pub open spec fn spaced_events(cycles: Seq<(u64, u64, bool)>) -> Seq<WatchEvent>
    decreases cycles.len(),
{
    if cycles.len() == 0 {
        seq![]
    } else {
        let (c, t, ok) = cycles[0];
        seq![
            WatchEvent::Changed { at: c },
            WatchEvent::Tick { at: t },
            WatchEvent::Built { ok },
        ] + spaced_events(cycles.drop_first())
    }
}

/// Changes that each come after the rebuild of the one before has finished, with the
/// debounce window passed in between, ask for one rebuild each, whether the rebuilds
/// succeed or fail.
pub proof fn lemma_spaced_changes_rebuild_each(cycles: Seq<(u64, u64, bool)>, window: u64)
    requires
        forall|i: int| 0 <= i < cycles.len() ==> #[trigger] cycles[i].1 >= cycles[i].0 + window,
    ensures
        run(WatchState::Idle, spaced_events(cycles), window) == (
            WatchState::Idle,
            cycles.len(),
        ),
    decreases cycles.len(),
{
    if cycles.len() > 0 {
        let (c, t, ok) = cycles[0];
        let three = seq![
            WatchEvent::Changed { at: c },
            WatchEvent::Tick { at: t },
            WatchEvent::Built { ok },
        ];
        let rest = cycles.drop_first();
        assert forall|i: int| 0 <= i < rest.len() implies #[trigger] rest[i].1 >= rest[i].0
            + window by {
            assert(rest[i] == cycles[i + 1]);
        }
        lemma_spaced_changes_rebuild_each(rest, window);
        lemma_run_append(WatchState::Idle, three, spaced_events(rest), window);
        assert(three.drop_first().drop_first().drop_first() =~= Seq::<WatchEvent>::empty());
        assert(cycles[0].1 >= cycles[0].0 + window);
        reveal_with_fuel(run, 4);
        assert(run(WatchState::Idle, three, window) == (WatchState::Idle, 1nat));
        assert(spaced_events(cycles) == three + spaced_events(rest));
    }
}

/// A failed rebuild never replaces the active catalog, whatever state it ends.
pub proof fn lemma_failed_build_keeps_catalog(s: WatchState, window: u64)
    ensures
        next(s, WatchEvent::Built { ok: false }, window).1 != WatchAction::Swap,
{
}

} // verus!
