//! The one-shot signal that carries a result-buffer map request from the
//! device's completion callback to the waiting search loop.
use vstd::prelude::*;
use crate::params::SearchError;

verus! {

/// Words in the result slot: one digest-sized input, a byte per word.
pub const RESULT_WORDS: usize = 32;

/// What the device reported for a map request.
#[derive(Clone, Copy, Debug, PartialEq, Eq)]
pub enum MapOutcome {
    /// The host-visible copy of the result slot, as read from the mapping.
    Mapped([u32; 32]),
    /// The device could not map the buffer.
    Failed,
}

/// Where the one map request of a readback stands.
#[derive(Clone, Copy, Debug, PartialEq, Eq)]
pub enum ReadbackState {
    /// No request outstanding.
    Idle,
    /// A map request was issued; its callback has not fired yet.
    Pending,
    /// The callback fired with this outcome; nobody has taken it yet.
    Signalled(MapOutcome),
}

/// A single in-flight map request: at most one is outstanding at a time, and
/// its outcome is handed over exactly once.
pub struct Readback {
    state: ReadbackState,
}

/// A map request: taken only when nothing is outstanding.
pub open spec fn request_step(s: ReadbackState) -> (ReadbackState, Result<(), SearchError>) {
    if s == ReadbackState::Idle {
        (ReadbackState::Pending, Ok(()))
    } else {
        (s, Err(SearchError::ProtocolViolation))
    }
}

/// The completion callback: resolves a pending request only.
pub open spec fn signal_step(s: ReadbackState, outcome: MapOutcome) -> (
    ReadbackState,
    Result<(), SearchError>,
) {
    if s == ReadbackState::Pending {
        (ReadbackState::Signalled(outcome), Ok(()))
    } else {
        (s, Err(SearchError::ProtocolViolation))
    }
}

/// The wait: hands over a signalled outcome; a pending request lost its
/// signal; with no request there is nothing to wait for. The slot is free
/// afterwards in every case.
pub open spec fn take_step(s: ReadbackState) -> (ReadbackState, Result<MapOutcome, SearchError>) {
    match s {
        ReadbackState::Signalled(o) => (ReadbackState::Idle, Ok(o)),
        ReadbackState::Pending => (ReadbackState::Idle, Err(SearchError::ReadbackChannelClosed)),
        ReadbackState::Idle => (ReadbackState::Idle, Err(SearchError::ProtocolViolation)),
    }
}

impl View for Readback {
    type V = ReadbackState;

    closed spec fn view(&self) -> ReadbackState {
        self.state
    }
}

impl Readback {
    /// A readback with nothing outstanding.
    pub fn new() -> (r: Readback)
        ensures
            r@ == ReadbackState::Idle,
    {
        Readback { state: ReadbackState::Idle }
    }

    /// Where the request stands.
    pub fn state(&self) -> (r: ReadbackState)
        ensures
            r == self@,
    {
        self.state
    }

    /// Registers a map request. Fails with `ProtocolViolation`, changing
    /// nothing, while an earlier request is still outstanding or untaken.
    pub fn request(&mut self) -> (r: Result<(), SearchError>)
        ensures
            (final(self)@, r) == request_step(old(self)@),
    {
        match self.state {
            ReadbackState::Idle => {
                self.state = ReadbackState::Pending;
                Ok(())
            },
            _ => Err(SearchError::ProtocolViolation),
        }
    }

    /// The device's completion callback: resolves the pending request with
    /// `outcome`. Fails with `ProtocolViolation`, changing nothing, when no
    /// request is pending.
    pub fn signal(&mut self, outcome: MapOutcome) -> (r: Result<(), SearchError>)
        ensures
            (final(self)@, r) == signal_step(old(self)@, outcome),
    {
        match self.state {
            ReadbackState::Pending => {
                self.state = ReadbackState::Signalled(outcome);
                Ok(())
            },
            _ => Err(SearchError::ProtocolViolation),
        }
    }

    /// The wait, called once the device has been polled to completion: hands
    /// over the outcome and frees the slot for the next request. A request
    /// still pending at that point lost its signal (`ReadbackChannelClosed`);
    /// with no request there is nothing to wait for (`ProtocolViolation`).
    pub fn take(&mut self) -> (r: Result<MapOutcome, SearchError>)
        ensures
            (final(self)@, r) == take_step(old(self)@),
    {
        let r = match self.state {
            ReadbackState::Signalled(o) => Ok(o),
            ReadbackState::Pending => Err(SearchError::ReadbackChannelClosed),
            ReadbackState::Idle => Err(SearchError::ProtocolViolation),
        };
        self.state = ReadbackState::Idle;
        r
    }
}

/// While a map request is outstanding, a second request fails with
/// `ProtocolViolation` and leaves the first in place, before and after its
/// callback fires; the wait then hands over the first request's outcome.
pub proof fn lemma_one_outstanding_request(outcome: MapOutcome)
    ensures
        ({
            let pending = request_step(ReadbackState::Idle).0;
            let signalled = signal_step(pending, outcome).0;
            &&& request_step(pending) == (pending, Err::<(), SearchError>(
                SearchError::ProtocolViolation,
            ))
            &&& request_step(signalled) == (signalled, Err::<(), SearchError>(
                SearchError::ProtocolViolation,
            ))
            &&& take_step(signalled) == (ReadbackState::Idle, Ok::<MapOutcome, SearchError>(
                outcome,
            ))
        }),
{
}

} // verus!
