use vstd::prelude::*;

use crate::errors::PollError;
use crate::events::{Event, Events, Interest, Token};
use crate::table::{
    has_fd, lookup, push_ready_events, ready_events, spec_deregister, spec_register,
    spec_reregister, PosixSelect, FD_SETSIZE,
};

verus! {

/// A poll timeout as whole seconds plus a sub-second remainder in
/// nanoseconds. `None` at the poll interface means block indefinitely.
#[derive(Clone, Copy, PartialEq, Eq, Structural, Debug)]
pub struct Timeout {
    pub secs: u64,
    pub nanos: u32,
}

impl Timeout {
    /// The nanosecond field is a sub-second remainder.
    pub open spec fn wf(&self) -> bool {
        self.nanos < 1_000_000_000
    }
}

/// A timeout in the selection primitive's native representation: seconds and
/// microseconds.
#[derive(Clone, Copy, PartialEq, Eq, Structural, Debug)]
pub struct Timeval {
    pub sec: i64,
    pub usec: i32,
}

/// How a `Timeout` is rendered for the selection primitive: the whole-second
/// component clamped to the largest representable second count, the
/// sub-second remainder converted to microseconds.
pub open spec fn timeval_of(t: Timeout) -> Timeval {
    Timeval {
        sec: if t.secs > (i64::MAX as u64) {
            i64::MAX
        } else {
            t.secs as i64
        },
        usec: (t.nanos / 1000) as i32,
    }
}

/// The timeout argument of a select request: `None` blocks indefinitely.
pub open spec fn request_timeval(t: Option<Timeout>) -> Option<Timeval> {
    match t {
        None => None,
        Some(x) => Some(timeval_of(x)),
    }
}

/// Converts a timeout to the selection primitive's native representation,
/// clamping the whole-second component and turning the sub-second remainder
/// into microseconds.
pub fn timeval_from_timeout(t: Timeout) -> (tv: Timeval)
    requires
        t.wf(),
    ensures
        tv == timeval_of(t),
{
    let sec: i64 = if t.secs > i64::MAX as u64 {
        i64::MAX
    } else {
        t.secs as i64
    };
    let usec: i32 = (t.nanos / 1000) as i32;
    Timeval { sec, usec }
}

/// Everything the embedding program needs to issue the one blocking
/// selection syscall for a poll: the descriptors to place in the read and
/// write readiness sets, the syscall's upper-bound argument, and the
/// converted timeout.
#[derive(Debug)]
pub struct SelectRequest {
    pub read_fds: Vec<i32>,
    pub write_fds: Vec<i32>,
    pub nfds: i32,
    pub timeout: Option<Timeval>,
}

/// What the selection syscall reported back: its raw return value, the OS
/// error code when that value is negative, and the descriptors of each
/// requested set that the OS marked ready.
#[derive(Debug)]
pub struct SelectResponse {
    pub ret: i32,
    pub errno: i32,
    pub ready_read: Vec<i32>,
    pub ready_write: Vec<i32>,
}

/// The events a poll produces from a select response: nothing on a zero
/// return, otherwise one event per read-registered descriptor marked
/// read-ready carrying the read-direction token, followed by one event per
/// write-registered descriptor marked write-ready carrying the
/// write-direction token.
pub open spec fn poll_events_spec(
    rd: Seq<(i32, Token)>,
    wr: Seq<(i32, Token)>,
    response: SelectResponse,
) -> Seq<Event> {
    if response.ret > 0 {
        ready_events(rd, response.ready_read@) + ready_events(wr, response.ready_write@)
    } else {
        Seq::empty()
    }
}

impl PosixSelect {
    /// Builds the request for the one blocking selection syscall of a poll:
    /// the read and write readiness sets listed descriptor by descriptor in
    /// table order, the upper bound argument (one more than the largest
    /// registered descriptor, 1 for an empty table), and the timeout in the
    /// primitive's native representation.
    pub fn select_request(&self, timeout: Option<Timeout>) -> (req: SelectRequest)
        requires
            self.wf(),
            timeout matches Some(t) ==> t.wf(),
        ensures
            req.read_fds@.len() == self.reads().len(),
            forall|i: int|
                0 <= i < self.reads().len() ==> req.read_fds@[i] == (#[trigger] self.reads()[i]).0,
            req.write_fds@.len() == self.writes().len(),
            forall|i: int|
                0 <= i < self.writes().len() ==> req.write_fds@[i] == (
                #[trigger] self.writes()[i]).0,
            1 <= req.nfds <= FD_SETSIZE as i32,
            forall|i: int| 0 <= i < self.reads().len() ==> (#[trigger] self.reads()[i]).0 < req.nfds,
            forall|i: int|
                0 <= i < self.writes().len() ==> (#[trigger] self.writes()[i]).0 < req.nfds,
            (self.reads().len() == 0 && self.writes().len() == 0 && req.nfds == 1) || has_fd(
                self.reads(),
                (req.nfds - 1) as i32,
            ) || has_fd(self.writes(), (req.nfds - 1) as i32),
            req.timeout == request_timeval(timeout),
    {
        let read_entries = self.read_entries();
        let write_entries = self.write_entries();
        let mut read_fds: Vec<i32> = Vec::new();
        let mut write_fds: Vec<i32> = Vec::new();
        let mut max_fd: i32 = 0;
        let mut i: usize = 0;
        while i < read_entries.len()
            invariant
                self.wf(),
                read_entries@ == self.reads(),
                i <= read_entries.len(),
                read_fds@.len() == i,
                forall|j: int| 0 <= j < i ==> read_fds@[j] == (#[trigger] read_entries@[j]).0,
                0 <= max_fd < FD_SETSIZE as i32,
                forall|j: int| 0 <= j < i ==> (#[trigger] read_entries@[j]).0 <= max_fd,
                max_fd == 0 || exists|j: int|
                    0 <= j < i && (#[trigger] read_entries@[j]).0 == max_fd,
            decreases read_entries.len() - i,
        {
            let e = read_entries[i];
            read_fds.push(e.0);
            if max_fd < e.0 {
                max_fd = e.0;
            }
            i = i + 1;
        }
        let mut k: usize = 0;
        while k < write_entries.len()
            invariant
                self.wf(),
                read_entries@ == self.reads(),
                write_entries@ == self.writes(),
                k <= write_entries.len(),
                write_fds@.len() == k,
                forall|j: int| 0 <= j < k ==> write_fds@[j] == (#[trigger] write_entries@[j]).0,
                0 <= max_fd < FD_SETSIZE as i32,
                forall|j: int|
                    0 <= j < read_entries@.len() ==> (#[trigger] read_entries@[j]).0 <= max_fd,
                forall|j: int| 0 <= j < k ==> (#[trigger] write_entries@[j]).0 <= max_fd,
                max_fd == 0 || (exists|j: int|
                    0 <= j < read_entries@.len() && (#[trigger] read_entries@[j]).0 == max_fd)
                    || (exists|j: int|
                    0 <= j < k && (#[trigger] write_entries@[j]).0 == max_fd),
            decreases write_entries.len() - k,
        {
            let e = write_entries[k];
            write_fds.push(e.0);
            if max_fd < e.0 {
                max_fd = e.0;
            }
            k = k + 1;
        }
        let nfds: i32 = max_fd + 1;
        proof {
            self.lemma_max_fd_registered(max_fd);
        }
        let tv: Option<Timeval> = match timeout {
            None => None,
            Some(t) => Some(timeval_from_timeout(t)),
        };
        SelectRequest { read_fds, write_fds, nfds, timeout: tv }
    }

    /// From the facts the two loops establish — every registered descriptor
    /// is at most `max_fd`, and `max_fd` is registered unless it is 0 —
    /// conclude the upper-bound clause of `select_request`.
    proof fn lemma_max_fd_registered(&self, max_fd: i32)
        requires
            self.wf(),
            0 <= max_fd < FD_SETSIZE as i32,
            forall|j: int| 0 <= j < self.reads().len() ==> (#[trigger] self.reads()[j]).0 <= max_fd,
            forall|j: int|
                0 <= j < self.writes().len() ==> (#[trigger] self.writes()[j]).0 <= max_fd,
            max_fd == 0 || (exists|j: int|
                0 <= j < self.reads().len() && (#[trigger] self.reads()[j]).0 == max_fd) || (
            exists|j: int|
                0 <= j < self.writes().len() && (#[trigger] self.writes()[j]).0 == max_fd),
        ensures
            (self.reads().len() == 0 && self.writes().len() == 0) || has_fd(self.reads(), max_fd)
                || has_fd(self.writes(), max_fd),
    {
        if self.reads().len() > 0 || self.writes().len() > 0 {
            if max_fd == 0 {
                // Every descriptor is non-negative and at most 0, so the
                // first entry of whichever direction is non-empty carries 0.
                if self.reads().len() > 0 {
                    assert(self.reads()[0].0 == 0);
                    crate::table::lemma_lookup_absent(self.reads(), 0);
                } else {
                    assert(self.writes()[0].0 == 0);
                    crate::table::lemma_lookup_absent(self.writes(), 0);
                }
            } else {
                if exists|j: int|
                    0 <= j < self.reads().len() && (#[trigger] self.reads()[j]).0 == max_fd {
                    crate::table::lemma_lookup_absent(self.reads(), max_fd);
                } else {
                    crate::table::lemma_lookup_absent(self.writes(), max_fd);
                }
            }
        }
    }

    /// Translates a select response into events. A negative return is
    /// propagated as the OS error it carries, leaving the sink untouched. On
    /// a non-negative return the sink is cleared and repopulated: one event
    /// per registered descriptor the OS marked ready in the matching
    /// direction, carrying that direction's token.
    pub fn poll(&self, events: &mut Events, response: &SelectResponse) -> (r: Result<
        (),
        PollError,
    >)
        requires
            self.wf(),
        ensures
            response.ret < 0 ==> r == Err::<(), PollError>(PollError::Os(response.errno))
                && final(events)@ == old(events)@,
            response.ret >= 0 ==> r == Ok::<(), PollError>(()) && final(events)@
                == poll_events_spec(self.reads(), self.writes(), *response),
    {
        if response.ret < 0 {
            return Err(PollError::Os(response.errno));
        }
        events.clear();
        if response.ret > 0 {
            push_ready_events(self.read_entries(), &response.ready_read, events);
            push_ready_events(self.write_entries(), &response.ready_write, events);
            proof {
                assert(events@ =~= ready_events(self.reads(), response.ready_read@)
                    + ready_events(self.writes(), response.ready_write@));
            }
        }
        Ok(())
    }
}

/// A source of OS descriptors registrable with the multiplexer.
pub trait HasRawFd {
    /// The descriptor this source yields.
    spec fn spec_raw_fd(&self) -> i32;

    /// Returns the descriptor this source yields.
    fn raw_fd(&self) -> (r: i32)
        ensures
            r == self.spec_raw_fd(),
    ;
}

/// A bare OS descriptor used as a registration source.
#[derive(Clone, Copy, PartialEq, Eq, Structural, Debug)]
pub struct FdSource(pub i32);

impl HasRawFd for FdSource {
    open spec fn spec_raw_fd(&self) -> i32 {
        self.0
    }

    fn raw_fd(&self) -> (r: i32)
        ensures
            r == self.spec_raw_fd(),
    {
        self.0
    }
}

/// Registration access to a multiplexer's table.
#[derive(Debug)]
pub struct Registry {
    selector: PosixSelect,
}

impl Registry {
    pub closed spec fn reads(&self) -> Seq<(i32, Token)> {
        self.selector.reads()
    }

    pub closed spec fn writes(&self) -> Seq<(i32, Token)> {
        self.selector.writes()
    }

    pub closed spec fn wf(&self) -> bool {
        self.selector.wf()
    }

    /// Registers the source's descriptor: first registration wins, a
    /// duplicate in a requested direction is an error.
    pub fn register<S: HasRawFd>(&mut self, source: &S, token: Token, interests: Interest) -> (r:
        Result<(), PollError>)
        requires
            old(self).wf(),
        ensures
            final(self).wf(),
            (final(self).reads(), final(self).writes(), r) == spec_register(
                old(self).reads(),
                old(self).writes(),
                source.spec_raw_fd(),
                token,
                interests,
            ),
    {
        self.selector.register(source.raw_fd(), token, interests)
    }

    /// Reregisters the source's descriptor: an unconditional upsert.
    pub fn reregister<S: HasRawFd>(&mut self, source: &S, token: Token, interests: Interest) -> (r:
        Result<(), PollError>)
        requires
            old(self).wf(),
        ensures
            final(self).wf(),
            (final(self).reads(), final(self).writes(), r) == spec_reregister(
                old(self).reads(),
                old(self).writes(),
                source.spec_raw_fd(),
                token,
                interests,
            ),
    {
        self.selector.reregister(source.raw_fd(), token, interests)
    }

    /// Removes the source's descriptor from both directions.
    pub fn deregister<S: HasRawFd>(&mut self, source: &S) -> (r: Result<(), PollError>)
        requires
            old(self).wf(),
        ensures
            final(self).wf(),
            r == Ok::<(), PollError>(()),
            (final(self).reads(), final(self).writes()) == spec_deregister(
                old(self).reads(),
                old(self).writes(),
                source.spec_raw_fd(),
            ),
    {
        self.selector.deregister(source.raw_fd())
    }

    /// The token the read direction holds for `fd`, if any.
    pub fn read_token(&self, fd: i32) -> (r: Option<Token>)
        ensures
            r == lookup(self.reads(), fd),
    {
        self.selector.read_token(fd)
    }

    /// The token the write direction holds for `fd`, if any.
    pub fn write_token(&self, fd: i32) -> (r: Option<Token>)
        ensures
            r == lookup(self.writes(), fd),
    {
        self.selector.write_token(fd)
    }
}

/// The multiplexer: a registration table together with the two verified
/// halves of a poll. The embedding program issues the blocking selection
/// syscall between `select_request` and `poll`, and serializes access with
/// one exclusive lock when the multiplexer is shared.
#[derive(Debug)]
pub struct Poll {
    registry: Registry,
}

impl Poll {
    pub closed spec fn reads(&self) -> Seq<(i32, Token)> {
        self.registry.reads()
    }

    pub closed spec fn writes(&self) -> Seq<(i32, Token)> {
        self.registry.writes()
    }

    pub closed spec fn wf(&self) -> bool {
        self.registry.wf()
    }

    /// Creates a multiplexer with an empty registration table. No OS
    /// resource is allocated, so construction always succeeds.
    pub fn new() -> (r: Result<Poll, PollError>)
        ensures
            r is Ok,
            r matches Ok(p) ==> p.wf() && p.reads() == Seq::<(i32, Token)>::empty() && p.writes()
                == Seq::<(i32, Token)>::empty(),
    {
        match PosixSelect::new() {
            Ok(selector) => Ok(Poll { registry: Registry { selector } }),
            Err(e) => Err(e),
        }
    }

    /// Registration access to the table.
    pub fn registry(&self) -> (r: &Registry)
        ensures
            r.reads() == self.reads(),
            r.writes() == self.writes(),
            r.wf() <==> self.wf(),
    {
        &self.registry
    }

    /// Mutable registration access to the table.
    pub fn registry_mut(&mut self) -> (r: &mut Registry)
        ensures
            r.reads() == old(self).reads(),
            r.writes() == old(self).writes(),
            r.wf() <==> old(self).wf(),
            final(self).reads() == final(r).reads(),
            final(self).writes() == final(r).writes(),
            final(self).wf() <==> final(r).wf(),
    {
        &mut self.registry
    }

    /// Builds the request for the blocking selection syscall of one poll.
    pub fn select_request(&self, timeout: Option<Timeout>) -> (req: SelectRequest)
        requires
            self.wf(),
            timeout matches Some(t) ==> t.wf(),
        ensures
            req.read_fds@.len() == self.reads().len(),
            forall|i: int|
                0 <= i < self.reads().len() ==> req.read_fds@[i] == (#[trigger] self.reads()[i]).0,
            req.write_fds@.len() == self.writes().len(),
            forall|i: int|
                0 <= i < self.writes().len() ==> req.write_fds@[i] == (
                #[trigger] self.writes()[i]).0,
            1 <= req.nfds <= FD_SETSIZE as i32,
            forall|i: int| 0 <= i < self.reads().len() ==> (#[trigger] self.reads()[i]).0 < req.nfds,
            forall|i: int|
                0 <= i < self.writes().len() ==> (#[trigger] self.writes()[i]).0 < req.nfds,
            (self.reads().len() == 0 && self.writes().len() == 0 && req.nfds == 1) || has_fd(
                self.reads(),
                (req.nfds - 1) as i32,
            ) || has_fd(self.writes(), (req.nfds - 1) as i32),
            req.timeout == request_timeval(timeout),
    {
        self.registry.selector.select_request(timeout)
    }

    /// Translates what the syscall reported into events.
    pub fn poll(&self, events: &mut Events, response: &SelectResponse) -> (r: Result<
        (),
        PollError,
    >)
        requires
            self.wf(),
        ensures
            response.ret < 0 ==> r == Err::<(), PollError>(PollError::Os(response.errno))
                && final(events)@ == old(events)@,
            response.ret >= 0 ==> r == Ok::<(), PollError>(()) && final(events)@
                == poll_events_spec(self.reads(), self.writes(), *response),
    {
        self.registry.selector.poll(events, response)
    }
}

} // verus!
