use template_store::watch::{step, WatchAction, WatchEvent, WatchState};

fn run(events: &[WatchEvent], window: u64) -> (WatchState, usize) {
    let mut s = WatchState::Idle;
    let mut rebuilds = 0;
    for e in events {
        let (n, a) = step(s, *e, window);
        if a == WatchAction::Rebuild {
            rebuilds += 1;
        }
        s = n;
    }
    (s, rebuilds)
}

#[test]
fn burst_gives_one_rebuild() {
    let events = [
        WatchEvent::Changed { at: 0 },
        WatchEvent::Tick { at: 1 },
        WatchEvent::Changed { at: 1 },
        WatchEvent::Tick { at: 2 },
        WatchEvent::Changed { at: 2 },
        WatchEvent::Tick { at: 3 },
        WatchEvent::Tick { at: 4 },
        WatchEvent::Tick { at: 5 },
    ];
    assert_eq!(run(&events, 2), (WatchState::Rebuilding { queued: None }, 1));
}

#[test]
fn spaced_changes_rebuild_each() {
    let mut events = Vec::new();
    for i in 0..3u64 {
        events.push(WatchEvent::Changed { at: 10 * i });
        events.push(WatchEvent::Tick { at: 10 * i + 2 });
        events.push(WatchEvent::Built { ok: i != 1 });
    }
    assert_eq!(run(&events, 2), (WatchState::Idle, 3));
}

#[test]
fn failed_build_does_not_swap() {
    let s = WatchState::Rebuilding { queued: None };
    assert_eq!(step(s, WatchEvent::Built { ok: false }, 2), (WatchState::Idle, WatchAction::Report));
    assert_eq!(step(s, WatchEvent::Built { ok: true }, 2), (WatchState::Idle, WatchAction::Swap));
}

#[test]
fn change_during_rebuild_is_queued() {
    let s = WatchState::Rebuilding { queued: None };
    let (s, a) = step(s, WatchEvent::Changed { at: 7 }, 2);
    assert_eq!((s, a), (WatchState::Rebuilding { queued: Some(7) }, WatchAction::Nothing));
    let (s, a) = step(s, WatchEvent::Tick { at: 100 }, 2);
    assert_eq!(a, WatchAction::Nothing);
    let (s, a) = step(s, WatchEvent::Built { ok: true }, 2);
    assert_eq!((s, a), (WatchState::Pending { last: 7 }, WatchAction::Swap));
    assert_eq!(step(s, WatchEvent::Tick { at: 8 }, 2).1, WatchAction::Nothing);
    assert_eq!(step(s, WatchEvent::Tick { at: 9 }, 2).1, WatchAction::Rebuild);
}

#[test]
fn idle_ignores_ticks() {
    assert_eq!(step(WatchState::Idle, WatchEvent::Tick { at: 50 }, 2), (WatchState::Idle, WatchAction::Nothing));
}
