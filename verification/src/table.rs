use vstd::prelude::*;

use crate::errors::PollError;
use crate::events::{Event, Interest, Token};

verus! {

/// Capacity of the kernel readiness-set representation: a descriptor must be
/// strictly below this bound to be registrable. Mirrors the platform's
/// `FD_SETSIZE` for the `select` primitive.
pub const FD_SETSIZE: usize = 1024;

/// A descriptor that the readiness-set representation can hold safely.
pub open spec fn valid_fd(fd: i32) -> bool {
    0 <= fd < (FD_SETSIZE as i32)
}

/// Well-formedness of one direction of the registration table: every
/// descriptor fits the readiness-set representation and appears at most once.
pub open spec fn entries_wf(s: Seq<(i32, Token)>) -> bool {
    &&& forall|i: int| 0 <= i < s.len() ==> valid_fd(#[trigger] s[i].0)
    &&& forall|i: int, j: int| 0 <= i < j < s.len() ==> s[i].0 != s[j].0
}

/// The token a direction of the table holds for `fd`, if any.
pub open spec fn lookup(s: Seq<(i32, Token)>, fd: i32) -> Option<Token>
    decreases s.len(),
{
    if s.len() == 0 {
        None
    } else if s.last().0 == fd {
        Some(s.last().1)
    } else {
        lookup(s.drop_last(), fd)
    }
}

/// Is `fd` registered in this direction of the table?
pub open spec fn has_fd(s: Seq<(i32, Token)>, fd: i32) -> bool {
    lookup(s, fd) is Some
}

/// One direction of the table with every entry for `fd` removed, other
/// entries kept in order.
pub open spec fn remove_fd_spec(s: Seq<(i32, Token)>, fd: i32) -> Seq<(i32, Token)>
    decreases s.len(),
{
    if s.len() == 0 {
        Seq::empty()
    } else {
        let rest = remove_fd_spec(s.drop_last(), fd);
        if s.last().0 == fd {
            rest
        } else {
            rest.push(s.last())
        }
    }
}

/// The events one direction of the table contributes to a poll: one event per
/// entry whose descriptor the OS marked ready, in table order, carrying that
/// direction's token.
pub open spec fn ready_events(s: Seq<(i32, Token)>, ready: Seq<i32>) -> Seq<Event>
    decreases s.len(),
{
    if s.len() == 0 {
        Seq::empty()
    } else {
        let rest = ready_events(s.drop_last(), ready);
        let e = s.last();
        if ready.contains(e.0) {
            rest.push(Event { fd: e.0, token: e.1 })
        } else {
            rest
        }
    }
}

/// What `register` does: reject descriptors the readiness set cannot hold,
/// reject a duplicate in any requested direction, and otherwise append the
/// registration to each requested direction. First registration wins; a
/// duplicate is an error.
pub open spec fn spec_register(
    rd: Seq<(i32, Token)>,
    wr: Seq<(i32, Token)>,
    fd: i32,
    token: Token,
    interests: Interest,
) -> (Seq<(i32, Token)>, Seq<(i32, Token)>, Result<(), PollError>) {
    if !valid_fd(fd) {
        (rd, wr, Err(PollError::InvalidInput))
    } else if (interests.spec_readable() && has_fd(rd, fd)) || (interests.spec_writable()
        && has_fd(wr, fd)) {
        (rd, wr, Err(PollError::AlreadyExists))
    } else {
        (
            if interests.spec_readable() {
                rd.push((fd, token))
            } else {
                rd
            },
            if interests.spec_writable() {
                wr.push((fd, token))
            } else {
                wr
            },
            Ok(()),
        )
    }
}

/// What `reregister` does: the same descriptor bound as `register`, but an
/// unconditional upsert with no duplicate check.
pub open spec fn spec_reregister(
    rd: Seq<(i32, Token)>,
    wr: Seq<(i32, Token)>,
    fd: i32,
    token: Token,
    interests: Interest,
) -> (Seq<(i32, Token)>, Seq<(i32, Token)>, Result<(), PollError>) {
    if !valid_fd(fd) {
        (rd, wr, Err(PollError::InvalidInput))
    } else {
        (
            if interests.spec_readable() {
                remove_fd_spec(rd, fd).push((fd, token))
            } else {
                rd
            },
            if interests.spec_writable() {
                remove_fd_spec(wr, fd).push((fd, token))
            } else {
                wr
            },
            Ok(()),
        )
    }
}

/// What `deregister` does: remove the descriptor from both directions,
/// a no-op if it was never registered.
pub open spec fn spec_deregister(rd: Seq<(i32, Token)>, wr: Seq<(i32, Token)>, fd: i32) -> (
    Seq<(i32, Token)>,
    Seq<(i32, Token)>,
) {
    (remove_fd_spec(rd, fd), remove_fd_spec(wr, fd))
}

/// `fd` is absent from a direction exactly when no entry carries it.
pub proof fn lemma_lookup_absent(s: Seq<(i32, Token)>, fd: i32)
    ensures
        lookup(s, fd) is None <==> (forall|i: int| 0 <= i < s.len() ==> (#[trigger] s[i]).0 != fd),
    decreases s.len(),
{
    if s.len() > 0 {
        lemma_lookup_absent(s.drop_last(), fd);
        assert(forall|i: int|
            0 <= i < s.len() - 1 ==> (#[trigger] s[i]) == s.drop_last()[i]);
    }
}

/// Appending a fresh descriptor keeps the direction well formed, registers
/// exactly that descriptor, and leaves every other lookup unchanged.
pub proof fn lemma_push_entry(s: Seq<(i32, Token)>, fd: i32, token: Token)
    requires
        entries_wf(s),
        valid_fd(fd),
        !has_fd(s, fd),
    ensures
        entries_wf(s.push((fd, token))),
        lookup(s.push((fd, token)), fd) == Some(token),
        forall|x: i32| x != fd ==> lookup(s.push((fd, token)), x) == lookup(s, x),
{
    lemma_lookup_absent(s, fd);
    let p = s.push((fd, token));
    assert(p.drop_last() =~= s);
    assert(p.last() == (fd, token));
    assert forall|i: int, j: int| 0 <= i < j < p.len() implies p[i].0 != p[j].0 by {
        if j == p.len() - 1 {
            assert(p[i] == s[i]);
        }
    }
}

/// Removing a descriptor keeps the direction well formed, empties its
/// lookup, and leaves every other lookup unchanged.
pub proof fn lemma_remove_fd(s: Seq<(i32, Token)>, fd: i32)
    requires
        entries_wf(s),
    ensures
        entries_wf(remove_fd_spec(s, fd)),
        !has_fd(remove_fd_spec(s, fd), fd),
        forall|x: i32| x != fd ==> lookup(remove_fd_spec(s, fd), x) == lookup(s, x),
    decreases s.len(),
{
    if s.len() > 0 {
        let butlast = s.drop_last();
        let e = s.last();
        assert(entries_wf(butlast)) by {
            assert(forall|i: int|
                0 <= i < butlast.len() ==> (#[trigger] butlast[i]) == s[i]);
        }
        lemma_remove_fd(butlast, fd);
        let rest = remove_fd_spec(butlast, fd);
        if e.0 == fd {
            assert(remove_fd_spec(s, fd) == rest);
            assert forall|x: i32| x != fd implies lookup(rest, x) == lookup(s, x) by {
                assert(lookup(s, x) == lookup(butlast, x));
            }
        } else {
            // The last entry's descriptor occurs nowhere earlier, so pushing
            // it back preserves distinctness.
            lemma_lookup_absent(butlast, e.0);
            assert(lookup(butlast, e.0) is None);
            assert(lookup(rest, e.0) is None);
            lemma_lookup_absent(rest, e.0);
            let p = rest.push(e);
            assert(remove_fd_spec(s, fd) == p);
            assert(p.drop_last() =~= rest);
            assert(p.last() == e);
            assert forall|i: int, j: int| 0 <= i < j < p.len() implies p[i].0 != p[j].0 by {
                if j == p.len() - 1 {
                    assert(p[i] == rest[i]);
                }
            }
            assert forall|x: i32| x != fd implies lookup(p, x) == lookup(s, x) by {
                if x == e.0 {
                    assert(lookup(p, x) == Some(e.1));
                    assert(lookup(s, x) == Some(e.1));
                } else {
                    assert(lookup(p, x) == lookup(rest, x));
                    assert(lookup(rest, x) == lookup(butlast, x));
                    assert(lookup(s, x) == lookup(butlast, x));
                }
            }
        }
    }
}

/// Every entry of a well-formed direction is found by `lookup`, with its
/// own token.
pub proof fn lemma_lookup_index(s: Seq<(i32, Token)>, i: int)
    requires
        entries_wf(s),
        0 <= i < s.len(),
    ensures
        lookup(s, s[i].0) == Some(s[i].1),
    decreases s.len(),
{
    if i == s.len() - 1 {
    } else {
        let butlast = s.drop_last();
        assert(entries_wf(butlast)) by {
            assert(forall|k: int|
                0 <= k < butlast.len() ==> (#[trigger] butlast[k]) == s[k]);
        }
        assert(s.last().0 != s[i].0);
        assert(butlast[i] == s[i]);
        lemma_lookup_index(butlast, i);
    }
}

/// If no entry of a direction carries `fd`, no event it contributes carries
/// `fd` either.
pub proof fn lemma_ready_events_absent_fd(s: Seq<(i32, Token)>, ready: Seq<i32>, fd: i32)
    requires
        forall|i: int| 0 <= i < s.len() ==> (#[trigger] s[i]).0 != fd,
    ensures
        forall|k: int|
            0 <= k < ready_events(s, ready).len() ==> (#[trigger] ready_events(s, ready)[k]).fd
                != fd,
    decreases s.len(),
{
    if s.len() > 0 {
        let butlast = s.drop_last();
        assert(forall|i: int|
            0 <= i < butlast.len() ==> (#[trigger] butlast[i]) == s[i]);
        lemma_ready_events_absent_fd(butlast, ready, fd);
        let rest = ready_events(butlast, ready);
        let e = s.last();
        if ready.contains(e.0) {
            let p = rest.push(Event { fd: e.0, token: e.1 });
            assert(forall|k: int| 0 <= k < rest.len() ==> p[k] == rest[k]);
            assert(p.last().fd == e.0);
        }
    }
}

fn contains_fd(v: &Vec<(i32, Token)>, fd: i32) -> (r: bool)
    ensures
        r == has_fd(v@, fd),
{
    let found = find_token(v, fd);
    found.is_some()
}

fn find_token(v: &Vec<(i32, Token)>, fd: i32) -> (r: Option<Token>)
    ensures
        r == lookup(v@, fd),
{
    let mut r: Option<Token> = None;
    let mut i: usize = 0;
    while i < v.len()
        invariant
            i <= v.len(),
            r == lookup(v@.take(i as int), fd),
        decreases v.len() - i,
    {
        let e = v[i];
        proof {
            let pre = v@.take(i as int);
            let cur = v@.take(i as int + 1);
            assert(cur.drop_last() =~= pre);
            assert(cur.last() == v@[i as int]);
        }
        if e.0 == fd {
            r = Some(e.1);
        }
        i = i + 1;
    }
    proof {
        assert(v@.take(v@.len() as int) =~= v@);
    }
    r
}

fn remove_fd(v: &mut Vec<(i32, Token)>, fd: i32)
    ensures
        final(v)@ == remove_fd_spec(old(v)@, fd),
{
    let mut out: Vec<(i32, Token)> = Vec::new();
    let mut i: usize = 0;
    while i < v.len()
        invariant
            i <= v.len(),
            v@ == old(v)@,
            out@ == remove_fd_spec(v@.take(i as int), fd),
        decreases v.len() - i,
    {
        let e = v[i];
        proof {
            let pre = v@.take(i as int);
            let cur = v@.take(i as int + 1);
            assert(cur.drop_last() =~= pre);
            assert(cur.last() == v@[i as int]);
        }
        if e.0 != fd {
            out.push(e);
        }
        i = i + 1;
    }
    proof {
        assert(v@.take(v@.len() as int) =~= v@);
    }
    *v = out;
}

fn vec_contains_fd(v: &Vec<i32>, x: i32) -> (r: bool)
    ensures
        r == v@.contains(x),
{
    let mut i: usize = 0;
    while i < v.len()
        invariant
            i <= v.len(),
            forall|j: int| 0 <= j < i ==> v@[j] != x,
        decreases v.len() - i,
    {
        if v[i] == x {
            proof {
                assert(v@[i as int] == x);
            }
            return true;
        }
        i = i + 1;
    }
    false
}

pub(crate) fn push_ready_events(entries: &Vec<(i32, Token)>, ready: &Vec<i32>, events: &mut Vec<
    Event,
>)
    ensures
        final(events)@ == old(events)@ + ready_events(entries@, ready@),
{
    let mut i: usize = 0;
    while i < entries.len()
        invariant
            i <= entries.len(),
            events@ == old(events)@ + ready_events(entries@.take(i as int), ready@),
        decreases entries.len() - i,
    {
        let e = entries[i];
        proof {
            let pre = entries@.take(i as int);
            let cur = entries@.take(i as int + 1);
            assert(cur.drop_last() =~= pre);
            assert(cur.last() == entries@[i as int]);
        }
        if vec_contains_fd(ready, e.0) {
            events.push(Event { fd: e.0, token: e.1 });
            proof {
                let pre = entries@.take(i as int);
                assert(events@ =~= old(events)@ + ready_events(pre, ready@).push(
                    Event { fd: e.0, token: e.1 },
                ));
            }
        }
        i = i + 1;
    }
    proof {
        assert(entries@.take(entries@.len() as int) =~= entries@);
    }
}

/// The registration table behind a select-based poll: two parallel
/// direction maps, descriptor to token, one for read interest and one for
/// write interest. A descriptor may appear in both, one, or neither.
#[derive(Debug)]
pub struct PosixSelect {
    read_fds: Vec<(i32, Token)>,
    write_fds: Vec<(i32, Token)>,
}

impl PosixSelect {
    /// The read-interest direction of the table.
    pub closed spec fn reads(&self) -> Seq<(i32, Token)> {
        self.read_fds@
    }

    /// The write-interest direction of the table.
    pub closed spec fn writes(&self) -> Seq<(i32, Token)> {
        self.write_fds@
    }

    /// Both directions hold only registrable descriptors, each at most once.
    pub open spec fn wf(&self) -> bool {
        entries_wf(self.reads()) && entries_wf(self.writes())
    }

    /// Creates an empty registration table. No OS resource is involved, so
    /// construction always succeeds.
    pub fn new() -> (r: Result<PosixSelect, PollError>)
        ensures
            r is Ok,
            r matches Ok(t) ==> t.wf() && t.reads() == Seq::<(i32, Token)>::empty() && t.writes()
                == Seq::<(i32, Token)>::empty(),
    {
        Ok(PosixSelect { read_fds: Vec::new(), write_fds: Vec::new() })
    }

    /// Registers `fd` for the requested directions with `token`. Purely
    /// in-memory: no OS call occurs. Fails with `InvalidInput` for a
    /// descriptor the readiness set cannot hold, with `AlreadyExists` if any
    /// requested direction already has an entry for `fd`; on failure the
    /// table is unchanged.
    pub fn register(&mut self, fd: i32, token: Token, interests: Interest) -> (r: Result<
        (),
        PollError,
    >)
        requires
            old(self).wf(),
        ensures
            final(self).wf(),
            (final(self).reads(), final(self).writes(), r) == spec_register(
                old(self).reads(),
                old(self).writes(),
                fd,
                token,
                interests,
            ),
    {
        if fd < 0 || fd >= FD_SETSIZE as i32 {
            return Err(PollError::InvalidInput);
        }
        let want_read = interests.is_readable();
        let want_write = interests.is_writable();
        if (want_read && contains_fd(&self.read_fds, fd)) || (want_write && contains_fd(
            &self.write_fds,
            fd,
        )) {
            return Err(PollError::AlreadyExists);
        }
        if want_read {
            proof {
                lemma_push_entry(self.reads(), fd, token);
            }
            self.read_fds.push((fd, token));
        }
        if want_write {
            proof {
                lemma_push_entry(self.writes(), fd, token);
            }
            self.write_fds.push((fd, token));
        }
        Ok(())
    }

    /// Reregisters `fd`: the same descriptor bound as `register`, but an
    /// unconditional upsert. An existing entry for a requested direction is
    /// overwritten; no `AlreadyExists` is ever reported.
    pub fn reregister(&mut self, fd: i32, token: Token, interests: Interest) -> (r: Result<
        (),
        PollError,
    >)
        requires
            old(self).wf(),
        ensures
            final(self).wf(),
            (final(self).reads(), final(self).writes(), r) == spec_reregister(
                old(self).reads(),
                old(self).writes(),
                fd,
                token,
                interests,
            ),
    {
        if fd < 0 || fd >= FD_SETSIZE as i32 {
            return Err(PollError::InvalidInput);
        }
        if interests.is_readable() {
            proof {
                lemma_remove_fd(self.reads(), fd);
                lemma_push_entry(remove_fd_spec(self.reads(), fd), fd, token);
            }
            remove_fd(&mut self.read_fds, fd);
            self.read_fds.push((fd, token));
        }
        if interests.is_writable() {
            proof {
                lemma_remove_fd(self.writes(), fd);
                lemma_push_entry(remove_fd_spec(self.writes(), fd), fd, token);
            }
            remove_fd(&mut self.write_fds, fd);
            self.write_fds.push((fd, token));
        }
        Ok(())
    }

    /// Removes `fd` from both directions unconditionally; succeeds even if
    /// the descriptor was never registered.
    pub fn deregister(&mut self, fd: i32) -> (r: Result<(), PollError>)
        requires
            old(self).wf(),
        ensures
            final(self).wf(),
            r == Ok::<(), PollError>(()),
            (final(self).reads(), final(self).writes()) == spec_deregister(
                old(self).reads(),
                old(self).writes(),
                fd,
            ),
    {
        proof {
            lemma_remove_fd(self.reads(), fd);
            lemma_remove_fd(self.writes(), fd);
        }
        remove_fd(&mut self.read_fds, fd);
        remove_fd(&mut self.write_fds, fd);
        Ok(())
    }

    /// The token the read direction holds for `fd`, if any.
    pub fn read_token(&self, fd: i32) -> (r: Option<Token>)
        ensures
            r == lookup(self.reads(), fd),
    {
        find_token(&self.read_fds, fd)
    }

    /// The token the write direction holds for `fd`, if any.
    pub fn write_token(&self, fd: i32) -> (r: Option<Token>)
        ensures
            r == lookup(self.writes(), fd),
    {
        find_token(&self.write_fds, fd)
    }

    pub(crate) fn read_entries(&self) -> (r: &Vec<(i32, Token)>)
        ensures
            r@ == self.reads(),
    {
        &self.read_fds
    }

    pub(crate) fn write_entries(&self) -> (r: &Vec<(i32, Token)>)
        ensures
            r@ == self.writes(),
    {
        &self.write_fds
    }
}

} // verus!
