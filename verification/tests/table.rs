use selectmux::poller::timeval_from_timeout;
use selectmux::{
    Event, FdSource, HasRawFd, Interest, Poll, PollError, PosixSelect, SelectResponse, Timeout,
    Token,
};

fn ready(ret: i32, ready_read: Vec<i32>, ready_write: Vec<i32>) -> SelectResponse {
    SelectResponse { ret, errno: 0, ready_read, ready_write }
}

#[test]
fn register_twice_fails_and_keeps_first_token() {
    let mut table = PosixSelect::new().unwrap();
    assert_eq!(table.register(5, Token(1), Interest::Readable), Ok(()));
    assert_eq!(
        table.register(5, Token(2), Interest::Readable),
        Err(PollError::AlreadyExists)
    );
    assert_eq!(table.read_token(5), Some(Token(1)));
}

#[test]
fn register_at_capacity_fails_without_mutation() {
    let mut table = PosixSelect::new().unwrap();
    assert_eq!(
        table.register(1024, Token(1), Interest::Readable),
        Err(PollError::InvalidInput)
    );
    assert_eq!(
        table.register(5000, Token(1), Interest::Both),
        Err(PollError::InvalidInput)
    );
    assert_eq!(
        table.register(-1, Token(1), Interest::Writable),
        Err(PollError::InvalidInput)
    );
    assert_eq!(table.read_token(1024), None);
    let mut events = Vec::new();
    assert_eq!(
        table.poll(&mut events, &ready(2, vec![1024, 5000], vec![5000])),
        Ok(())
    );
    assert!(events.is_empty());
}

#[test]
fn register_directions_are_independent() {
    let mut table = PosixSelect::new().unwrap();
    assert_eq!(table.register(5, Token(1), Interest::Readable), Ok(()));
    assert_eq!(table.register(5, Token(2), Interest::Writable), Ok(()));
    assert_eq!(table.read_token(5), Some(Token(1)));
    assert_eq!(table.write_token(5), Some(Token(2)));
}

#[test]
fn register_both_fails_when_one_direction_taken() {
    let mut table = PosixSelect::new().unwrap();
    assert_eq!(table.register(5, Token(1), Interest::Readable), Ok(()));
    assert_eq!(
        table.register(5, Token(2), Interest::Both),
        Err(PollError::AlreadyExists)
    );
    assert_eq!(table.write_token(5), None);
}

#[test]
fn deregister_is_a_no_op_for_unknown_descriptors() {
    let mut table = PosixSelect::new().unwrap();
    assert_eq!(table.deregister(7), Ok(()));
}

#[test]
fn poll_reports_ready_registration() {
    let mut table = PosixSelect::new().unwrap();
    assert_eq!(table.register(7, Token(42), Interest::Readable), Ok(()));
    let mut events = Vec::new();
    assert_eq!(table.poll(&mut events, &ready(1, vec![7], vec![])), Ok(()));
    assert_eq!(events.len(), 1);
    assert_eq!(events[0].fd(), 7);
    assert_eq!(events[0].token(), Token(42));
}

#[test]
fn poll_ignores_unready_and_unregistered_descriptors() {
    let mut table = PosixSelect::new().unwrap();
    assert_eq!(table.register(3, Token(1), Interest::Readable), Ok(()));
    assert_eq!(table.register(4, Token(2), Interest::Readable), Ok(()));
    let mut events = Vec::new();
    // 9 is ready but not registered; 4 is registered but not ready.
    assert_eq!(table.poll(&mut events, &ready(2, vec![3, 9], vec![])), Ok(()));
    assert_eq!(events.len(), 1);
    assert_eq!(events[0].fd(), 3);
    assert_eq!(events[0].token(), Token(1));
}

#[test]
fn deregistered_descriptor_never_reported() {
    let mut table = PosixSelect::new().unwrap();
    assert_eq!(table.register(7, Token(42), Interest::Both), Ok(()));
    assert_eq!(table.deregister(7), Ok(()));
    let mut events = Vec::new();
    // The OS may still consider 7 ready; no event may come of it.
    assert_eq!(table.poll(&mut events, &ready(1, vec![7], vec![7])), Ok(()));
    assert!(events.is_empty());
}

#[test]
fn reregister_succeeds_and_reports_new_token() {
    let mut table = PosixSelect::new().unwrap();
    assert_eq!(table.register(5, Token(1), Interest::Readable), Ok(()));
    assert_eq!(table.reregister(5, Token(2), Interest::Readable), Ok(()));
    let mut events = Vec::new();
    assert_eq!(table.poll(&mut events, &ready(1, vec![5], vec![])), Ok(()));
    assert_eq!(events.len(), 1);
    assert_eq!(events[0].token(), Token(2));
}

#[test]
fn reregister_rejects_descriptor_over_capacity() {
    let mut table = PosixSelect::new().unwrap();
    assert_eq!(
        table.reregister(1024, Token(1), Interest::Readable),
        Err(PollError::InvalidInput)
    );
}

#[test]
fn write_events_carry_the_write_map_token() {
    let mut table = PosixSelect::new().unwrap();
    assert_eq!(table.register(5, Token(10), Interest::Readable), Ok(()));
    assert_eq!(table.register(5, Token(20), Interest::Writable), Ok(()));
    let mut events = Vec::new();
    assert_eq!(table.poll(&mut events, &ready(2, vec![5], vec![5])), Ok(()));
    assert_eq!(events.len(), 2);
    assert_eq!(events[0].fd(), 5);
    assert_eq!(events[0].token(), Token(10));
    assert_eq!(events[1].fd(), 5);
    assert_eq!(events[1].token(), Token(20));
}

#[test]
fn poll_propagates_os_errors_verbatim() {
    let table = PosixSelect::new().unwrap();
    let mut events = vec![Event { fd: 1, token: Token(1) }];
    let response = SelectResponse { ret: -1, errno: 4, ready_read: vec![], ready_write: vec![] };
    assert_eq!(table.poll(&mut events, &response), Err(PollError::Os(4)));
    // The sink is untouched on error.
    assert_eq!(events.len(), 1);
}

#[test]
fn poll_with_zero_ready_clears_the_sink() {
    let mut table = PosixSelect::new().unwrap();
    assert_eq!(table.register(5, Token(1), Interest::Readable), Ok(()));
    let mut events = vec![Event { fd: 1, token: Token(1) }];
    assert_eq!(table.poll(&mut events, &ready(0, vec![], vec![])), Ok(()));
    assert!(events.is_empty());
}

#[test]
fn empty_table_polls_no_events() {
    let table = PosixSelect::new().unwrap();
    let mut events = Vec::new();
    assert_eq!(table.poll(&mut events, &ready(1, vec![3, 4], vec![5])), Ok(()));
    assert!(events.is_empty());
}

#[test]
fn distinct_registrations_are_all_kept() {
    let mut table = PosixSelect::new().unwrap();
    for i in 0..10 {
        assert_eq!(
            table.register(10 + i, Token(100 + i as usize), Interest::Both),
            Ok(())
        );
    }
    for i in 0..10 {
        assert_eq!(table.read_token(10 + i), Some(Token(100 + i as usize)));
        assert_eq!(table.write_token(10 + i), Some(Token(100 + i as usize)));
    }
}

#[test]
fn select_request_lists_descriptors_and_bound() {
    let mut table = PosixSelect::new().unwrap();
    assert_eq!(table.register(3, Token(1), Interest::Readable), Ok(()));
    assert_eq!(table.register(9, Token(2), Interest::Readable), Ok(()));
    assert_eq!(table.register(5, Token(3), Interest::Writable), Ok(()));
    let req = table.select_request(None);
    assert_eq!(req.read_fds, vec![3, 9]);
    assert_eq!(req.write_fds, vec![5]);
    assert_eq!(req.nfds, 10);
    assert!(req.timeout.is_none());
}

#[test]
fn select_request_on_empty_table_has_bound_one() {
    let table = PosixSelect::new().unwrap();
    let req = table.select_request(None);
    assert!(req.read_fds.is_empty());
    assert!(req.write_fds.is_empty());
    assert_eq!(req.nfds, 1);
}

#[test]
fn timeout_of_fifty_milliseconds_converts_exactly() {
    let tv = timeval_from_timeout(Timeout { secs: 0, nanos: 50_000_000 });
    assert_eq!(tv.sec, 0);
    assert_eq!(tv.usec, 50_000);
}

#[test]
fn timeout_seconds_clamp_to_the_largest_representable() {
    let tv = timeval_from_timeout(Timeout { secs: u64::MAX, nanos: 999_999_999 });
    assert_eq!(tv.sec, i64::MAX);
    assert_eq!(tv.usec, 999_999);
    let req = PosixSelect::new()
        .unwrap()
        .select_request(Some(Timeout { secs: 2, nanos: 1_500 }));
    assert_eq!(req.timeout, Some(selectmux::Timeval { sec: 2, usec: 1 }));
}

#[test]
fn poll_handle_drives_the_same_table() {
    let mut poll = Poll::new().unwrap();
    let source = FdSource(6);
    assert_eq!(
        poll.registry_mut().register(&source, Token(7), Interest::Readable),
        Ok(())
    );
    assert_eq!(
        poll.registry_mut().register(&source, Token(8), Interest::Readable),
        Err(PollError::AlreadyExists)
    );
    assert_eq!(poll.registry().read_token(6), Some(Token(7)));
    let req = poll.select_request(Some(Timeout { secs: 0, nanos: 0 }));
    assert_eq!(req.nfds, 7);
    assert_eq!(req.timeout, Some(selectmux::Timeval { sec: 0, usec: 0 }));
    let mut events = Vec::new();
    assert_eq!(poll.poll(&mut events, &ready(1, vec![6], vec![])), Ok(()));
    assert_eq!(events.len(), 1);
    assert_eq!(events[0].fd(), 6);
    assert_eq!(events[0].token(), Token(7));
    assert_eq!(poll.registry_mut().deregister(&source), Ok(()));
    assert_eq!(poll.poll(&mut events, &ready(1, vec![6], vec![])), Ok(()));
    assert!(events.is_empty());
}

#[test]
fn interest_direction_queries() {
    assert!(Interest::Readable.is_readable());
    assert!(!Interest::Readable.is_writable());
    assert!(Interest::Writable.is_writable());
    assert!(!Interest::Writable.is_readable());
    assert!(Interest::Both.is_readable());
    assert!(Interest::Both.is_writable());
}

#[test]
fn registry_reregister_is_an_upsert() {
    let mut poll = Poll::new().unwrap();
    let source = FdSource(8);
    assert_eq!(
        poll.registry_mut().reregister(&source, Token(1), Interest::Writable),
        Ok(())
    );
    assert_eq!(
        poll.registry_mut().reregister(&source, Token(2), Interest::Writable),
        Ok(())
    );
    assert_eq!(poll.registry().write_token(8), Some(Token(2)));
    assert_eq!(poll.registry().read_token(8), None);
}

#[test]
fn fd_source_yields_its_descriptor() {
    assert_eq!(FdSource(11).raw_fd(), 11);
}
