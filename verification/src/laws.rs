use vstd::prelude::*;

use crate::errors::PollError;
use crate::events::{Event, Interest, Token};
use crate::poller::{poll_events_spec, SelectResponse};
use crate::table::{
    entries_wf, has_fd, lemma_lookup_absent, lemma_lookup_index, lemma_push_entry,
    lemma_ready_events_absent_fd, lemma_remove_fd, lookup, ready_events, remove_fd_spec,
    spec_deregister, spec_register, spec_reregister, valid_fd,
};

verus! {

/// Law: registering a descriptor for read interest twice without an
/// intervening deregister fails the second call with `AlreadyExists`, and
/// the first registration's token remains in effect.
pub proof fn lemma_register_readable_twice(
    rd: Seq<(i32, Token)>,
    wr: Seq<(i32, Token)>,
    fd: i32,
    t1: Token,
    t2: Token,
)
    requires
        entries_wf(rd),
        valid_fd(fd),
        !has_fd(rd, fd),
    ensures
        ({
            let (rd1, wr1, out1) = spec_register(rd, wr, fd, t1, Interest::Readable);
            let (rd2, wr2, out2) = spec_register(rd1, wr1, fd, t2, Interest::Readable);
            &&& out1 == Ok::<(), PollError>(())
            &&& out2 == Err::<(), PollError>(PollError::AlreadyExists)
            &&& rd2 == rd1
            &&& wr2 == wr1
            &&& lookup(rd2, fd) == Some(t1)
        }),
{
    lemma_push_entry(rd, fd, t1);
}

/// Law: registering a descriptor at or beyond the readiness-set capacity —
/// or a negative one, which no readiness set can hold either — always fails
/// with `InvalidInput` and mutates no state.
pub proof fn lemma_register_over_capacity(
    rd: Seq<(i32, Token)>,
    wr: Seq<(i32, Token)>,
    fd: i32,
    token: Token,
    interests: Interest,
)
    requires
        !valid_fd(fd),
    ensures
        spec_register(rd, wr, fd, token, interests) == (rd, wr, Err::<(), PollError>(
            PollError::InvalidInput,
        )),
        spec_reregister(rd, wr, fd, token, interests) == (rd, wr, Err::<(), PollError>(
            PollError::InvalidInput,
        )),
{
}

/// Law: after registering descriptor `fd` with token `t` for read interest
/// in an empty table, a poll whose response marks `fd` read-ready produces
/// exactly one event, carrying `fd` and `t`.
pub proof fn lemma_poll_reports_ready_registration(fd: i32, t: Token, response: SelectResponse)
    requires
        valid_fd(fd),
        response.ret > 0,
        response.ready_read@.contains(fd),
    ensures
        ({
            let (rd1, wr1, out1) = spec_register(
                Seq::<(i32, Token)>::empty(),
                Seq::<(i32, Token)>::empty(),
                fd,
                t,
                Interest::Readable,
            );
            &&& out1 == Ok::<(), PollError>(())
            &&& poll_events_spec(rd1, wr1, response) =~= seq![Event { fd, token: t }]
        }),
{
    let empty = Seq::<(i32, Token)>::empty();
    lemma_push_entry(empty, fd, t);
    let rd1 = empty.push((fd, t));
    assert(rd1.drop_last() =~= empty);
    assert(ready_events(empty, response.ready_read@) =~= Seq::<Event>::empty());
    assert(ready_events(rd1, response.ready_read@) =~= seq![Event { fd, token: t }]);
    assert(ready_events(empty, response.ready_write@) =~= Seq::<Event>::empty());
}

/// Law: after a deregister of descriptor `fd`, no poll produces an event for
/// `fd`, whatever the OS reports as ready.
pub proof fn lemma_deregister_silences(
    rd: Seq<(i32, Token)>,
    wr: Seq<(i32, Token)>,
    fd: i32,
    response: SelectResponse,
)
    requires
        entries_wf(rd),
        entries_wf(wr),
    ensures
        ({
            let (rd1, wr1) = spec_deregister(rd, wr, fd);
            forall|k: int|
                0 <= k < poll_events_spec(rd1, wr1, response).len() ==> (
                #[trigger] poll_events_spec(rd1, wr1, response)[k]).fd != fd
        }),
{
    let (rd1, wr1) = spec_deregister(rd, wr, fd);
    lemma_remove_fd(rd, fd);
    lemma_remove_fd(wr, fd);
    lemma_lookup_absent(rd1, fd);
    lemma_lookup_absent(wr1, fd);
    lemma_ready_events_absent_fd(rd1, response.ready_read@, fd);
    lemma_ready_events_absent_fd(wr1, response.ready_write@, fd);
    if response.ret > 0 {
        let re = ready_events(rd1, response.ready_read@);
        let we = ready_events(wr1, response.ready_write@);
        assert forall|k: int| 0 <= k < (re + we).len() implies ((re + we)[k]).fd != fd by {
            if k < re.len() {
                assert((re + we)[k] == re[k]);
            } else {
                assert((re + we)[k] == we[k - re.len()]);
            }
        }
    }
}

/// Law: reregistering a read-registered descriptor with a new token
/// succeeds — no `AlreadyExists` — and a subsequent ready poll reports the
/// new token, not the old one. Stated from an empty table, where the first
/// registration is the only entry.
pub proof fn lemma_reregister_replaces_token(fd: i32, t1: Token, t2: Token, response: SelectResponse)
    requires
        valid_fd(fd),
        response.ret > 0,
        response.ready_read@.contains(fd),
    ensures
        ({
            let (rd1, wr1, out1) = spec_register(
                Seq::<(i32, Token)>::empty(),
                Seq::<(i32, Token)>::empty(),
                fd,
                t1,
                Interest::Readable,
            );
            let (rd2, wr2, out2) = spec_reregister(rd1, wr1, fd, t2, Interest::Readable);
            &&& out1 == Ok::<(), PollError>(())
            &&& out2 == Ok::<(), PollError>(())
            &&& lookup(rd2, fd) == Some(t2)
            &&& poll_events_spec(rd2, wr2, response) =~= seq![Event { fd, token: t2 }]
        }),
{
    let empty = Seq::<(i32, Token)>::empty();
    lemma_push_entry(empty, fd, t1);
    let rd1 = empty.push((fd, t1));
    lemma_remove_fd(rd1, fd);
    assert(rd1.drop_last() =~= empty);
    assert(remove_fd_spec(empty, fd) =~= empty);
    assert(remove_fd_spec(rd1, fd) =~= empty);
    let rd2 = remove_fd_spec(rd1, fd).push((fd, t2));
    assert(rd2.drop_last() =~= empty);
    assert(lookup(rd2, fd) == Some(t2));
    assert(ready_events(empty, response.ready_read@) =~= Seq::<Event>::empty());
    assert(ready_events(rd2, response.ready_read@) =~= seq![Event { fd, token: t2 }]);
    assert(ready_events(empty, response.ready_write@) =~= Seq::<Event>::empty());
}

/// Law: an event produced for the write direction carries the token the
/// write map holds for the descriptor, not the read map's. With `fd`
/// registered for read with `t_r` and for write with `t_w` in an otherwise
/// empty table, a poll marking `fd` ready both ways reports `(fd, t_r)` for
/// the read direction and `(fd, t_w)` — not `t_r` — for the write direction.
pub proof fn lemma_write_events_use_write_token(
    fd: i32,
    t_r: Token,
    t_w: Token,
    response: SelectResponse,
)
    requires
        valid_fd(fd),
        response.ret > 0,
        response.ready_read@.contains(fd),
        response.ready_write@.contains(fd),
    ensures
        ({
            let empty = Seq::<(i32, Token)>::empty();
            let (rd1, wr1, out1) = spec_register(empty, empty, fd, t_r, Interest::Readable);
            let (rd2, wr2, out2) = spec_register(rd1, wr1, fd, t_w, Interest::Writable);
            &&& out1 == Ok::<(), PollError>(())
            &&& out2 == Ok::<(), PollError>(())
            &&& poll_events_spec(rd2, wr2, response) =~= seq![
                Event { fd, token: t_r },
                Event { fd, token: t_w },
            ]
        }),
{
    let empty = Seq::<(i32, Token)>::empty();
    lemma_push_entry(empty, fd, t_r);
    lemma_push_entry(empty, fd, t_w);
    let rd1 = empty.push((fd, t_r));
    let wr2 = empty.push((fd, t_w));
    assert(rd1.drop_last() =~= empty);
    assert(wr2.drop_last() =~= empty);
    assert(ready_events(empty, response.ready_read@) =~= Seq::<Event>::empty());
    assert(ready_events(rd1, response.ready_read@) =~= seq![Event { fd, token: t_r }]);
    assert(ready_events(empty, response.ready_write@) =~= Seq::<Event>::empty());
    assert(ready_events(wr2, response.ready_write@) =~= seq![Event { fd, token: t_w }]);
}

/// Law: a poll over an empty registration table produces no events,
/// whatever the OS reports.
pub proof fn lemma_empty_table_no_events(response: SelectResponse)
    ensures
        poll_events_spec(
            Seq::<(i32, Token)>::empty(),
            Seq::<(i32, Token)>::empty(),
            response,
        ) =~= Seq::<Event>::empty(),
{
}

/// Law: registrations of distinct descriptors do not disturb one another —
/// registering two distinct fresh descriptors, each for both directions,
/// succeeds for both, and afterwards the table holds both entries. Mutual
/// exclusion makes any interleaving of registration calls equivalent to
/// some sequence of them, so no update is lost.
pub proof fn lemma_distinct_registrations_kept(
    rd: Seq<(i32, Token)>,
    wr: Seq<(i32, Token)>,
    fd1: i32,
    t1: Token,
    fd2: i32,
    t2: Token,
)
    requires
        entries_wf(rd),
        entries_wf(wr),
        valid_fd(fd1),
        valid_fd(fd2),
        fd1 != fd2,
        !has_fd(rd, fd1) && !has_fd(wr, fd1),
        !has_fd(rd, fd2) && !has_fd(wr, fd2),
    ensures
        ({
            let (rd1, wr1, out1) = spec_register(rd, wr, fd1, t1, Interest::Both);
            let (rd2, wr2, out2) = spec_register(rd1, wr1, fd2, t2, Interest::Both);
            &&& out1 == Ok::<(), PollError>(())
            &&& out2 == Ok::<(), PollError>(())
            &&& lookup(rd2, fd1) == Some(t1) && lookup(wr2, fd1) == Some(t1)
            &&& lookup(rd2, fd2) == Some(t2) && lookup(wr2, fd2) == Some(t2)
        }),
{
    lemma_push_entry(rd, fd1, t1);
    lemma_push_entry(wr, fd1, t1);
    let rd1 = rd.push((fd1, t1));
    let wr1 = wr.push((fd1, t1));
    lemma_push_entry(rd1, fd2, t2);
    lemma_push_entry(wr1, fd2, t2);
}

/// The table that a sequence of registrations builds when applied, in
/// order, to the given starting directions: each entry is registered for
/// both directions. The boolean records whether every single registration
/// returned `Ok`.
pub open spec fn register_each(
    rd: Seq<(i32, Token)>,
    wr: Seq<(i32, Token)>,
    regs: Seq<(i32, Token)>,
) -> (Seq<(i32, Token)>, Seq<(i32, Token)>, bool)
    decreases regs.len(),
{
    if regs.len() == 0 {
        (rd, wr, true)
    } else {
        let (rd1, wr1, ok1) = register_each(rd, wr, regs.drop_last());
        let e = regs.last();
        let (rd2, wr2, out) = spec_register(rd1, wr1, e.0, e.1, Interest::Both);
        (rd2, wr2, ok1 && out == Ok::<(), PollError>(()))
    }
}

/// Law: any number of registrations of distinct, registrable descriptors,
/// applied to an empty table in any order, all complete without error, and
/// afterwards the table holds exactly those entries — none is lost. It is
/// stated over the same transition, `spec_register`, that the `ensures` of
/// `Registry::register` and `PosixSelect::register` equate each call to, so
/// it applies to any sequence of such calls; since the table lock makes
/// concurrent registration calls equivalent to some sequence of them, this
/// is what concurrent registration of distinct descriptors leaves behind.
pub proof fn lemma_all_distinct_registrations_kept(regs: Seq<(i32, Token)>)
    requires
        entries_wf(regs),
    ensures
        ({
            let (rd, wr, ok) = register_each(
                Seq::<(i32, Token)>::empty(),
                Seq::<(i32, Token)>::empty(),
                regs,
            );
            &&& ok
            &&& rd == regs
            &&& wr == regs
            &&& forall|i: int|
                0 <= i < regs.len() ==> lookup(rd, (#[trigger] regs[i]).0) == Some(regs[i].1)
                    && lookup(wr, regs[i].0) == Some(regs[i].1)
        }),
    decreases regs.len(),
{
    let empty = Seq::<(i32, Token)>::empty();
    if regs.len() == 0 {
        assert(register_each(empty, empty, regs) == (empty, empty, true));
        assert(regs =~= empty);
    } else {
        let butlast = regs.drop_last();
        let e = regs.last();
        assert(entries_wf(butlast)) by {
            assert(forall|k: int|
                0 <= k < butlast.len() ==> (#[trigger] butlast[k]) == regs[k]);
        }
        lemma_all_distinct_registrations_kept(butlast);
        let (rd1, wr1, ok1) = register_each(empty, empty, butlast);
        // The last descriptor is fresh: it differs from every earlier one.
        assert(valid_fd(e.0));
        assert forall|k: int| 0 <= k < butlast.len() implies (#[trigger] butlast[k]).0 != e.0 by {
            assert(butlast[k] == regs[k]);
        }
        lemma_lookup_absent(butlast, e.0);
        assert(!has_fd(rd1, e.0));
        assert(!has_fd(wr1, e.0));
        assert(butlast.push(e) =~= regs);
        let (rd2, wr2, out) = spec_register(rd1, wr1, e.0, e.1, Interest::Both);
        assert(out == Ok::<(), PollError>(()));
        assert(rd2 == regs && wr2 == regs);
        assert forall|i: int| 0 <= i < regs.len() implies lookup(regs, (#[trigger] regs[i]).0)
            == Some(regs[i].1) by {
            lemma_lookup_index(regs, i);
        }
    }
}

} // verus!
