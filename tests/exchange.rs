use dispatch_core::exchange::{Action, Exchange, Stage};

fn run(middleware: usize, outcomes: &[bool]) -> Vec<Action> {
    let mut x = Exchange::new(middleware);
    let mut out = Vec::new();
    let mut i = 0;
    while !x.is_done() {
        let ok = outcomes.get(i).copied().unwrap_or(true);
        out.push(x.step(ok));
        i += 1;
    }
    out
}

fn writes(t: &[Action]) -> usize {
    t.iter()
        .filter(|a| matches!(a, Action::WriteResponse | Action::WriteFallback))
        .count()
}

#[test]
fn success_runs_all_hooks_in_order() {
    let t = run(2, &[true, true, true, true, true, true, true]);
    assert_eq!(
        t,
        vec![
            Action::RunBefore(0),
            Action::RunBefore(1),
            Action::CallService,
            Action::RunAfter(0),
            Action::RunAfter(1),
            Action::WriteResponse,
            Action::Finish
        ]
    );
    assert_eq!(writes(&t), 1);
}

#[test]
fn parse_failure_writes_fallback_only() {
    let t = run(3, &[false, true]);
    assert_eq!(t, vec![Action::WriteFallback, Action::Finish]);
}

#[test]
fn service_failure_skips_after_hooks() {
    let t = run(1, &[true, true, false, true]);
    assert_eq!(
        t,
        vec![Action::RunBefore(0), Action::CallService, Action::WriteFallback, Action::Finish]
    );
    assert_eq!(writes(&t), 1);
}

#[test]
fn failed_fallback_write_shuts_down() {
    let t = run(0, &[false, false]);
    assert_eq!(t, vec![Action::WriteFallback, Action::Shutdown]);
}

#[test]
fn failed_response_write_shuts_down_without_fallback() {
    let t = run(0, &[true, true, false]);
    assert_eq!(t, vec![Action::CallService, Action::WriteResponse, Action::Shutdown]);
    assert_eq!(writes(&t), 1);
}

#[test]
fn no_middleware_goes_straight_to_service() {
    let mut x = Exchange::new(0);
    assert_eq!(x.stage(), Stage::Parsing);
    assert_eq!(x.step(true), Action::CallService);
    assert_eq!(x.stage(), Stage::Serving);
}

#[test]
fn every_outcome_pattern_writes_exactly_once() {
    for n in 0..4usize {
        for mask in 0..(1u32 << 12) {
            let outcomes: Vec<bool> = (0..12).map(|b| mask & (1 << b) != 0).collect();
            let t = run(n, &outcomes);
            assert_eq!(writes(&t), 1);
            assert!(t.len() <= 2 * n + 4);
        }
    }
}
