use selectmux::signals::{signal_is_supported, Signals, SIGKILL, SIGSTOP};

#[test]
fn supported_signals_exclude_the_uncatchable() {
    assert!(!signal_is_supported(SIGKILL));
    assert!(!signal_is_supported(SIGSTOP));
    assert!(!signal_is_supported(-1));
    assert!(!signal_is_supported(128));
    assert!(signal_is_supported(libc::SIGUSR1));
    assert!(signal_is_supported(libc::SIGUSR2));
    assert!(signal_is_supported(libc::SIGCHLD));
}

#[test]
fn raised_signal_is_pending_once() {
    let mut bridge = Signals::new(&vec![libc::SIGUSR1]).unwrap();
    assert!(bridge.pending().is_empty());
    signal_hook::low_level::raise(libc::SIGUSR1).unwrap();
    let first = bridge.pending();
    assert_eq!(first, vec![libc::SIGUSR1]);
    // A second drain before any new delivery yields nothing.
    assert!(bridge.pending().is_empty());
}

#[test]
fn added_signal_is_intercepted() {
    let mut bridge = Signals::new(&vec![]).unwrap();
    bridge.add_signal(libc::SIGUSR2).unwrap();
    signal_hook::low_level::raise(libc::SIGUSR2).unwrap();
    assert_eq!(bridge.pending(), vec![libc::SIGUSR2]);
}

#[test]
fn coalesced_deliveries_still_report_the_signal() {
    let mut bridge = Signals::new(&vec![libc::SIGUSR1]).unwrap();
    signal_hook::low_level::raise(libc::SIGUSR1).unwrap();
    signal_hook::low_level::raise(libc::SIGUSR1).unwrap();
    let drained = bridge.pending();
    // Two deliveries may coalesce, but at least one report arrives.
    assert!(drained.contains(&libc::SIGUSR1));
    assert!(bridge.pending().is_empty());
}

#[test]
fn drained_signals_come_in_numeric_not_arrival_order() {
    let mut bridge = Signals::new(&vec![libc::SIGUSR1, libc::SIGUSR2]).unwrap();
    // SIGUSR2 (the higher number) is raised first.
    signal_hook::low_level::raise(libc::SIGUSR2).unwrap();
    signal_hook::low_level::raise(libc::SIGUSR1).unwrap();
    assert_eq!(bridge.pending(), vec![libc::SIGUSR1, libc::SIGUSR2]);
}
