//! What the two loops of the firmware report when they read or end.
use vstd::prelude::*;
use vstd::std_specs::convert::FromSpec;

verus! {

/// Why reading from the bus failed.
#[derive(Debug, Clone, Copy, PartialEq, Eq)]
pub enum ReadError<T> {
    /// A framing error, a break or an overrun: what was received so far is of
    /// no use, but reading can go on.
    RecoverableError,
    /// The hardware failed.
    UnrecoverableError(T),
}

/// Why the main loop ended.
#[derive(Debug)]
pub enum MainLoopError<A, B, C, D, E, F> {
    /// Reading from the bus failed.
    Read(A),
    /// Writing to the bus failed.
    Write(B),
    /// Setting the transmit-enable line failed.
    IoSend(C),
    /// Setting the outputs failed.
    Output(D),
    /// Reading the inputs failed.
    Input(E),
    /// Reading or writing the flash page failed.
    Nvm(F),
}

impl<A, B, C, D, E, F> MainLoopError<A, B, C, D, E, F> {
    /// The same error with each cause converted to another type.
    pub fn convert<G: From<A>, H: From<B>, I: From<C>, J: From<D>, K: From<E>, L: From<F>>(
        self,
    ) -> (r: MainLoopError<G, H, I, J, K, L>)
        ensures
            self is Read <==> r is Read,
            self is Write <==> r is Write,
            self is IoSend <==> r is IoSend,
            self is Output <==> r is Output,
            self is Input <==> r is Input,
            self is Nvm <==> r is Nvm,
            self is Read && G::obeys_from_spec() ==> r->Read_0 == G::from_spec(self->Read_0),
            self is Write && H::obeys_from_spec() ==> r->Write_0 == H::from_spec(self->Write_0),
            self is IoSend && I::obeys_from_spec() ==> r->IoSend_0 == I::from_spec(self->IoSend_0),
            self is Output && J::obeys_from_spec() ==> r->Output_0 == J::from_spec(self->Output_0),
            self is Input && K::obeys_from_spec() ==> r->Input_0 == K::from_spec(self->Input_0),
            self is Nvm && L::obeys_from_spec() ==> r->Nvm_0 == L::from_spec(self->Nvm_0),
    {
        match self {
            MainLoopError::Read(a) => MainLoopError::Read(G::from(a)),
            MainLoopError::Write(b) => MainLoopError::Write(H::from(b)),
            MainLoopError::IoSend(c) => MainLoopError::IoSend(I::from(c)),
            MainLoopError::Output(d) => MainLoopError::Output(J::from(d)),
            MainLoopError::Input(e) => MainLoopError::Input(K::from(e)),
            MainLoopError::Nvm(f) => MainLoopError::Nvm(L::from(f)),
        }
    }
}

/// What a raw read from the receiver gave.
#[derive(Debug, Clone, Copy, PartialEq, Eq, Structural)]
pub enum RawRead {
    /// This many bytes, without an error.
    Bytes(usize),
    /// Nothing yet.
    WouldBlock,
    /// An error on one byte, after this many good bytes.
    Error { received: usize },
}

/// What a read reports.
#[derive(Debug, Clone, Copy, PartialEq, Eq, Structural)]
pub enum ReadOutcome {
    /// This many bytes were read.
    Bytes(usize),
    /// Nothing yet.
    WouldBlock,
    /// A recoverable error.
    Recoverable,
}

/// A receiver error that came after good bytes is reported late: the read
/// that met it reports the good bytes, and the next read reports the error
/// without reading.
#[derive(Debug, Clone, Copy, PartialEq, Eq, Structural)]
pub struct DeferredError {
    /// Whether an error waits to be reported.
    pub pending: bool,
}

impl DeferredError {
    pub fn new() -> (deferred: DeferredError)
        ensures
            !deferred.pending,
    {
        DeferredError { pending: false }
    }

    /// Whether the read that begins is to report the error that waits, without
    /// reading. The error waits no longer.
    pub fn take(&mut self) -> (report: bool)
        ensures
            report == old(self).pending,
            !final(self).pending,
    {
        let report = self.pending;
        self.pending = false;
        report
    }

    /// What a read reports of what the receiver gave. An error after good bytes
    /// waits for the next read; an error without good bytes is reported at once.
    pub fn outcome(&mut self, raw: RawRead) -> (outcome: ReadOutcome)
        requires
            !old(self).pending,
        ensures
            outcome == (match raw {
                RawRead::Bytes(count) => ReadOutcome::Bytes(count),
                RawRead::WouldBlock => ReadOutcome::WouldBlock,
                RawRead::Error { received } => if received == 0 {
                    ReadOutcome::Recoverable
                } else {
                    ReadOutcome::Bytes(received)
                },
            }),
            final(self).pending == (raw matches RawRead::Error { received } && received > 0),
    {
        match raw {
            RawRead::Bytes(count) => ReadOutcome::Bytes(count),
            RawRead::WouldBlock => ReadOutcome::WouldBlock,
            RawRead::Error { received } => {
                if received == 0 {
                    ReadOutcome::Recoverable
                } else {
                    self.pending = true;
                    ReadOutcome::Bytes(received)
                }
            },
        }
    }
}

/// A task that gives way once: the first poll finds it pending, every later
/// poll finds it ready.
#[derive(Debug, Clone, Copy, PartialEq, Eq, Structural)]
pub struct YieldNow {
    pub yielded: bool,
}

impl YieldNow {
    pub fn new() -> (task: YieldNow)
        ensures
            !task.yielded,
    {
        YieldNow { yielded: false }
    }

    /// Polls the task: whether it is ready.
    pub fn poll(&mut self) -> (ready: bool)
        ensures
            ready == old(self).yielded,
            final(self).yielded,
    {
        let ready = self.yielded;
        self.yielded = true;
        ready
    }
}

/// The whole seconds between two times in microseconds, of which the low 32
/// bits are kept.
pub open spec fn uptime_seconds(started: u64, now: u64) -> u32 {
    (((now - started) / 1_000_000) % 0x1_0000_0000) as u32
}

/// The uptime that the device reports.
pub fn uptime(started: u64, now: u64) -> (seconds: u32)
    requires
        started <= now,
    ensures
        seconds == uptime_seconds(started, now),
{
    (((now - started) / 1_000_000) % 0x1_0000_0000) as u32
}

} // verus!
