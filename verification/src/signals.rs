use vstd::prelude::*;

use crate::errors::PollError;
use mio::net::UnixStream;
use signal_hook::iterator::backend::{Handle, SignalDelivery};
use signal_hook::iterator::exfiltrator::SignalOnly;

verus! {

/// Number of the `SIGILL` signal.
pub const SIGILL: i32 = 4;

/// Number of the `SIGFPE` signal.
pub const SIGFPE: i32 = 8;

/// Number of the `SIGKILL` signal.
pub const SIGKILL: i32 = 9;

/// Number of the `SIGSEGV` signal.
pub const SIGSEGV: i32 = 11;

/// Number of the `SIGSTOP` signal.
pub const SIGSTOP: i32 = 19;

/// The highest signal number the bridge's handler table can hold, exclusive.
pub const MAX_SIGNAL: i32 = 128;

/// The signals a bridge can intercept: within the handler table's bounds and
/// not one of the signals the OS refuses to let a process catch (`SIGKILL`,
/// `SIGSTOP`) or whose default handling must stay in place for the handler
/// itself to be safe (`SIGILL`, `SIGFPE`, `SIGSEGV`). The constants above
/// are Linux's signal numbers; the first four are the same on the common
/// Unixes, but `SIGSTOP` varies by platform (it is 17 on the BSD family).
pub open spec fn signal_supported(signal: i32) -> bool {
    &&& 0 <= signal < MAX_SIGNAL
    &&& signal != SIGILL
    &&& signal != SIGFPE
    &&& signal != SIGKILL
    &&& signal != SIGSEGV
    &&& signal != SIGSTOP
}

/// Can a bridge intercept this signal?
pub fn signal_is_supported(signal: i32) -> (r: bool)
    ensures
        r == signal_supported(signal),
{
    0 <= signal && signal < MAX_SIGNAL && signal != SIGILL && signal != SIGFPE && signal != SIGKILL
        && signal != SIGSEGV && signal != SIGSTOP
}

#[verifier::external_type_specification]
#[verifier::external_body]
pub struct ExUnixStream(UnixStream);

#[verifier::external_type_specification]
#[verifier::external_body]
pub struct ExSignalOnly(SignalOnly);

#[verifier::external_type_specification]
#[verifier::external_body]
pub struct ExHandle(Handle);

/// The signal-to-readiness bridge: a self-pipe pair plus per-process
/// handlers for a growing set of signals. The handlers do nothing but write
/// a wake-up byte; all interpretation happens in `pending`. The read end of
/// the pipe is an ordinary descriptor that the embedding program can
/// register with the multiplexer.
///
/// The field is a signal_hook SignalDelivery, whose generic bounds Verus
/// cannot express; the struct is therefore opaque, and every operation on it
/// goes through one of the trusted wrappers below.
#[verifier::external_body]
pub struct Signals {
    delivery: SignalDelivery<UnixStream, SignalOnly>,
}

/// Relies on mio::net::UnixStream::pair: creates a connected, non-blocking
/// byte-stream pair; its only failure is the OS's, reported verbatim as the
/// `Os` variant.
#[verifier::external_body]
fn unix_stream_pair() -> (r: Result<(UnixStream, UnixStream), PollError>)
    ensures
        r matches Err(e) ==> e is Os,
{
    match UnixStream::pair() {
        Ok(p) => Ok(p),
        Err(e) => Err(PollError::Os(e.raw_os_error().unwrap_or(0))),
    }
}

/// Relies on signal_hook SignalOnly, the exfiltrator that records only the
/// signal number; it is a stateless unit value.
#[verifier::external_body]
fn signal_only() -> SignalOnly {
    SignalOnly::default()
}

/// Relies on SignalDelivery::with_pipe: installs, for each listed signal, a
/// handler that only writes a wake-up byte into the write end, and keeps the
/// read end for draining. Panics on signals outside the supported set, so
/// those are excluded here; its only failure is the OS's refusal to install
/// a handler, reported verbatim as the `Os` variant.
#[verifier::external_body]
fn bridge_with_pipe(
    read: UnixStream,
    write: UnixStream,
    exfiltrator: SignalOnly,
    signals: &Vec<i32>,
) -> (r: Result<Signals, PollError>)
    requires
        forall|i: int| 0 <= i < signals@.len() ==> signal_supported(#[trigger] signals@[i]),
    ensures
        r matches Err(e) ==> e is Os,
{
    match SignalDelivery::with_pipe(read, write, exfiltrator, signals.iter()) {
        Ok(delivery) => Ok(Signals { delivery }),
        Err(e) => Err(PollError::Os(e.raw_os_error().unwrap_or(0))),
    }
}

/// Relies on SignalDelivery::handle: returns a cloneable control handle for
/// the running handler set.
#[verifier::external_body]
fn delivery_handle(bridge: &Signals) -> Handle {
    bridge.delivery.handle()
}

/// Relies on Handle::add_signal: extends the intercepted set with one more
/// signal, a no-op if it is already intercepted. Panics on signals outside
/// the supported set, so those are excluded here; its only failure is the
/// OS's refusal to install the handler, reported verbatim as the `Os`
/// variant.
#[verifier::external_body]
fn handle_add_signal(handle: &Handle, signal: i32) -> (r: Result<(), PollError>)
    requires
        signal_supported(signal),
    ensures
        r matches Err(e) ==> e is Os,
{
    match handle.add_signal(signal) {
        Ok(()) => Ok(()),
        Err(e) => Err(PollError::Os(e.raw_os_error().unwrap_or(0))),
    }
}

/// Relies on SignalDelivery::pending: drains the self-pipe without blocking
/// and yields the number of each signal delivered since the last drain,
/// however often it arrived. The drain walks the handler table upward, so
/// every number indexes that table and the numbers come in non-decreasing
/// numeric order — not arrival order. (A signal arriving during the drain
/// can make its number appear again, so the order is not strictly
/// increasing.)
#[verifier::external_body]
fn delivery_pending(bridge: &mut Signals) -> (r: Vec<i32>)
    ensures
        forall|i: int| 0 <= i < r@.len() ==> 0 <= #[trigger] r@[i] < MAX_SIGNAL,
        forall|i: int, j: int| 0 <= i <= j < r@.len() ==> r@[i] <= r@[j],
{
    bridge.delivery.pending().collect()
}

/// Relies on SignalDelivery::get_read: the read end of the self-pipe, the
/// descriptor through which signal arrival becomes ordinary readiness.
#[verifier::external_body]
fn delivery_read(bridge: &Signals) -> &UnixStream {
    bridge.delivery.get_read()
}

impl Signals {
    /// Creates a bridge intercepting the given signals. Every failure is
    /// the OS's — the byte channel could not be created or a handler could
    /// not be installed — and is reported verbatim as the `Os` variant;
    /// no other error variant ever comes back.
    pub fn new(signals: &Vec<i32>) -> (r: Result<Signals, PollError>)
        requires
            forall|i: int| 0 <= i < signals@.len() ==> signal_supported(#[trigger] signals@[i]),
        ensures
            r matches Err(e) ==> e is Os,
    {
        match unix_stream_pair() {
            Err(e) => Err(e),
            Ok((read, write)) => bridge_with_pipe(read, write, signal_only(), signals),
        }
    }

    /// Extends the intercepted set with one more signal; the set only grows.
    /// Every failure is the OS's refusal to install the handler, reported
    /// verbatim as the `Os` variant; no other error variant ever comes back.
    pub fn add_signal(&self, signal: i32) -> (r: Result<(), PollError>)
        requires
            signal_supported(signal),
        ensures
            r matches Err(e) ==> e is Os,
    {
        let handle = delivery_handle(self);
        handle_add_signal(&handle, signal)
    }

    /// Drains the bridge and returns the number of each signal delivered
    /// since the last drain, in non-decreasing numeric order — not arrival
    /// order. Coalescing may make the count of reports lower than the count
    /// of deliveries, but a delivered signal is never dropped: it appears in
    /// this drain or, if it arrives during one, in the next. Never blocks.
    pub fn pending(&mut self) -> (r: Vec<i32>)
        ensures
            forall|i: int| 0 <= i < r@.len() ==> 0 <= #[trigger] r@[i] < MAX_SIGNAL,
            forall|i: int, j: int| 0 <= i <= j < r@.len() ==> r@[i] <= r@[j],
    {
        delivery_pending(self)
    }

    /// The read end of the self-pipe. The embedding program takes the OS
    /// descriptor from it and registers that with the multiplexer for read
    /// interest.
    pub fn read_stream(&self) -> &UnixStream {
        delivery_read(self)
    }
}

} // verus!
