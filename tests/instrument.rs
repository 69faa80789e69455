use lupa::event::{EventKind, ProcessEvent, SysEnterCloseArgs, TracepointCommonArgs, PATH_MAX};
use lupa::instrument::{tracepoint_category, Instrumentation, TracepointCategory};

fn close_args(fd: u64) -> SysEnterCloseArgs {
    SysEnterCloseArgs {
        common: TracepointCommonArgs { ctype: 1, flags: 0, preempt_count: 0, pid: 0 },
        sys_nr: 3,
        pad: 0,
        fd,
    }
}

#[test]
fn untraced_pids_produce_nothing() {
    let probes = Instrumentation::new();
    assert!(!probes.should_trace(5));
    assert!(probes.do_sys_openat2(5, 3, Some(b"/a\0".as_slice())).is_none());
    assert!(probes.sys_enter_close(5, &close_args(3)).is_none());
}

#[test]
fn children_of_traced_processes_are_traced() {
    let mut probes = Instrumentation::new();
    probes.traced.set_root(100);
    assert_eq!(probes.kernel_clone(100, 200), Some(ProcessEvent { pid: 100, kind: EventKind::Open }));
    assert!(probes.should_trace(200));
    assert_eq!(probes.kernel_clone(200, 300), Some(ProcessEvent { pid: 200, kind: EventKind::Open }));
    assert!(probes.should_trace(300));
    assert_eq!(probes.kernel_clone(999, 400), None);
    assert!(!probes.should_trace(400));
    assert_eq!(probes.kernel_clone(100, -11), None);
    assert_eq!(probes.sched_process_exit(200), Some(ProcessEvent { pid: 200, kind: EventKind::Close }));
    assert!(!probes.should_trace(200));
    assert_eq!(probes.sched_process_exit(200), None);
    assert!(probes.maybe_remove_trace(100));
    assert!(!probes.should_trace(100));
    assert!(probes.should_trace(300));
}

#[test]
fn open_copies_path_up_to_nul() {
    let mut probes = Instrumentation::new();
    probes.traced.set_root(7);
    let ev = probes.do_sys_openat2(7, 4, Some(b"/etc/hosts\0garbage".as_slice())).unwrap();
    assert_eq!(ev.pid, 7);
    assert_eq!(ev.kind, EventKind::Open);
    assert_eq!(ev.fd, 4);
    assert_eq!(&ev.path[..10], b"/etc/hosts");
    assert!(ev.path[10..].iter().all(|b| *b == 0));
    let failed = probes.do_sys_openat2(7, -2, Some(b"/missing".as_slice())).unwrap();
    assert_eq!(failed.fd, -2);
    assert!(probes.do_sys_openat2(7, 4, None).is_none());
}

#[test]
fn long_path_is_cut_to_fit() {
    let mut probes = Instrumentation::new();
    probes.traced.set_root(7);
    let long = vec![b'a'; 1000];
    let ev = probes.do_sys_openat2(7, 4, Some(long.as_slice())).unwrap();
    assert!(ev.path[..PATH_MAX - 1].iter().all(|b| *b == b'a'));
    assert_eq!(ev.path[PATH_MAX - 1], 0);
}

#[test]
fn close_of_traced_pid() {
    let mut probes = Instrumentation::new();
    probes.traced.set_root(7);
    let ev = probes.sys_enter_close(7, &close_args(12)).unwrap();
    assert_eq!(ev.kind, EventKind::Close);
    assert_eq!(ev.fd, 12);
    assert!(ev.path.iter().all(|b| *b == 0));
}

#[test]
fn tracepoint_categories_follow_name_prefix() {
    assert_eq!(tracepoint_category(b"sched_process_exit"), Some(TracepointCategory::Sched));
    assert_eq!(tracepoint_category(b"sys_enter_close"), Some(TracepointCategory::Syscalls));
    assert_eq!(tracepoint_category(b"sys"), None);
    assert_eq!(tracepoint_category(b"kernel_clone"), None);
    assert_eq!(tracepoint_category(b""), None);
    assert_eq!(TracepointCategory::Sched.name(), "sched");
    assert_eq!(TracepointCategory::Syscalls.name(), "syscalls");
}
