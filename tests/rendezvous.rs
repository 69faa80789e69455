use lupa::rendezvous::{run_rendezvous, wrapper_step, Phase, Rendezvous, RunStep, WrapperAction};

#[test]
fn no_root_event_before_attachment() {
    let steps = vec![
        RunStep::TargetOpen { ret: 3, path: b"/early".to_vec() },
        RunStep::WriteRoot,
        RunStep::TargetOpen { ret: 4, path: b"/still-early".to_vec() },
        RunStep::Release,
        RunStep::Attach,
        RunStep::TargetClose { fd: 3 },
        RunStep::Release,
        RunStep::TargetOpen { ret: 5, path: b"/late".to_vec() },
        RunStep::TargetOpen { ret: -2, path: b"/gone".to_vec() },
        RunStep::TargetClose { fd: 5 },
    ];
    let trace = run_rendezvous(77, &steps);
    assert_eq!(trace.attached_at, Some(4));
    let seqs: Vec<u64> = trace.events.iter().map(|(s, _)| *s).collect();
    assert_eq!(seqs, vec![7, 8, 9]);
    for (seq, ev) in &trace.events {
        assert_eq!(ev.pid, 77);
        assert!(*seq > trace.attached_at.unwrap());
    }
    assert_eq!(trace.events[0].1.kind, lupa::event::EventKind::Open);
    assert_eq!(trace.events[0].1.fd, 5);
    assert_eq!(&trace.events[0].1.path[..6], b"/late\0");
    assert_eq!(trace.events[1].1.fd, -2);
    assert_eq!(trace.events[2].1.kind, lupa::event::EventKind::Close);
    assert_eq!(trace.events[2].1.fd, 5);
}

#[test]
fn without_release_nothing_is_observed() {
    let steps = vec![
        RunStep::WriteRoot,
        RunStep::Attach,
        RunStep::TargetOpen { ret: 3, path: b"/x".to_vec() },
    ];
    let trace = run_rendezvous(5, &steps);
    assert_eq!(trace.attached_at, Some(1));
    assert!(trace.events.is_empty());
}

#[test]
fn release_happens_once_and_only_after_attach() {
    let mut r = Rendezvous::new(42);
    assert!(!r.release());
    assert!(!r.attached());
    assert!(r.write_root());
    assert!(!r.write_root());
    assert!(!r.may_run());
    assert!(r.attached());
    assert_eq!(r.phase(), Phase::Attached);
    assert!(r.release());
    assert!(r.may_run());
    assert!(!r.release());
}

#[test]
fn wrapper_waits_for_flag() {
    assert_eq!(wrapper_step(0), WrapperAction::Wait);
    assert_eq!(wrapper_step(1), WrapperAction::Exec);
}
