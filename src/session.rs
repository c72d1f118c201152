//! The dispatch loop's decisions: what to dispatch next, and what a readback
//! of the result slot means. The caller performs each step on the device and
//! reports back; the session decides.
use vstd::prelude::*;
use crate::nonce::{add_big_int, nonce_after, NONCE_BYTES};
use crate::params::{SearchError, SearchParameters};
use crate::readback::{
    request_step, signal_step, take_step, MapOutcome, Readback, ReadbackState, RESULT_WORDS,
};

verus! {

/// Where the loop stands.
#[derive(Clone, Copy, Debug, PartialEq, Eq)]
pub enum Phase {
    /// Between iterations: the next dispatch has not been ordered.
    Idle,
    /// A dispatch was ordered and is being submitted.
    Dispatching,
    /// The result slot's copy is being mapped for reading.
    AwaitingReadback,
    /// A winning input was read back; the search is over.
    Found,
    /// The caller stopped the search between iterations.
    Cancelled,
    /// The device failed; the session is unusable.
    Failed(SearchError),
}

/// The work of one dispatch: write `input` to the device's input buffer and
/// run the kernel over `workgroups` workgroups, then copy the result slot out.
#[derive(Clone, Copy, Debug, PartialEq, Eq)]
pub struct DispatchOrder {
    pub input: [u8; 32],
    pub workgroups: u32,
}

/// What one readback decided.
#[derive(Clone, Copy, Debug, PartialEq, Eq)]
pub enum Inspection {
    /// The slot was all zero: the input moved on, go on with the next dispatch.
    Continue,
    /// The slot held this winning input.
    Found([u8; 32]),
}

/// The session as numbers and states.
pub ghost struct SearchModel {
    pub params: SearchParameters,
    pub input: Seq<u8>,
    pub dispatch_count: nat,
    pub total_hashes: nat,
    pub phase: Phase,
    pub readback: ReadbackState,
}

/// `a + b`, held at `u64::MAX`.
pub open spec fn saturating(a: nat, b: nat) -> nat {
    if a + b > u64::MAX {
        u64::MAX as nat
    } else {
        a + b
    }
}

/// Whether every word of a result slot is zero: no winner in that dispatch.
pub open spec fn all_zero(words: Seq<u32>) -> bool {
    forall|i: int| 0 <= i < words.len() ==> words[i] == 0
}

/// The input that a result slot holds: the low byte of each word.
pub open spec fn slot_bytes(words: Seq<u32>) -> Seq<u8> {
    words.map_values(|w: u32| w as u8)
}

/// A well-formed model: valid parameters, a full-width input, and a map
/// request outstanding exactly while the loop awaits a readback.
pub open spec fn model_wf(m: SearchModel) -> bool {
    &&& m.params.valid()
    &&& m.input.len() == NONCE_BYTES
    &&& m.dispatch_count <= u64::MAX
    &&& m.total_hashes <= u64::MAX
    &&& (m.phase == Phase::AwaitingReadback) == (m.readback != ReadbackState::Idle)
}

/// A fresh session on `params`, starting from `seed`.
pub open spec fn initial_model(params: SearchParameters, seed: Seq<u8>) -> SearchModel {
    SearchModel {
        params,
        input: seed,
        dispatch_count: 0,
        total_hashes: 0,
        phase: Phase::Idle,
        readback: ReadbackState::Idle,
    }
}

/// The top of an iteration: stop if asked to, else order a dispatch.
pub open spec fn begin_step(m: SearchModel, stop: bool) -> SearchModel {
    if stop {
        SearchModel { phase: Phase::Cancelled, ..m }
    } else {
        SearchModel { phase: Phase::Dispatching, ..m }
    }
}

/// The dispatch was submitted (`ok`) or the device refused it.
pub open spec fn submit_step(m: SearchModel, ok: bool) -> SearchModel {
    if ok {
        SearchModel {
            phase: Phase::AwaitingReadback,
            readback: request_step(m.readback).0,
            ..m
        }
    } else {
        SearchModel { phase: Phase::Failed(SearchError::DeviceFailure), ..m }
    }
}

/// The map callback fired with `outcome`.
pub open spec fn map_step(m: SearchModel, outcome: MapOutcome) -> SearchModel {
    SearchModel { readback: signal_step(m.readback, outcome).0, ..m }
}

/// What the readback decides: `Ok(None)` to go on, `Ok(Some(winner))` when
/// the slot holds a winner, or the error that ends the session.
pub open spec fn inspect_result(m: SearchModel) -> Result<Option<Seq<u8>>, SearchError> {
    match take_step(m.readback).1 {
        Ok(MapOutcome::Mapped(words)) => if all_zero(words@) {
            Ok(None)
        } else {
            Ok(Some(slot_bytes(words@)))
        },
        Ok(MapOutcome::Failed) => Err(SearchError::DeviceFailure),
        Err(e) => Err(e),
    }
}

/// The session after the readback: on an all-zero slot the input advances by
/// the inputs tried per dispatch, which are added to the hash count, and the
/// dispatch is counted; a winner ends the search; an error fails it.
pub open spec fn inspect_step(m: SearchModel) -> SearchModel {
    let per = m.params.spec_hashes_per_dispatch();
    let rb = take_step(m.readback).0;
    match inspect_result(m) {
        Ok(None) => SearchModel {
            input: nonce_after(m.input, per),
            total_hashes: saturating(m.total_hashes, per),
            dispatch_count: saturating(m.dispatch_count, 1),
            phase: Phase::Idle,
            readback: rb,
            ..m
        },
        Ok(Some(_)) => SearchModel { phase: Phase::Found, readback: rb, ..m },
        Err(e) => SearchModel { phase: Phase::Failed(e), readback: rb, ..m },
    }
}

/// One full iteration: order a dispatch, submit it, and read back `words`.
pub open spec fn round(m: SearchModel, words: [u32; 32]) -> SearchModel {
    inspect_step(map_step(submit_step(begin_step(m, false), true), MapOutcome::Mapped(words)))
}

/// `n` iterations that all read back `words`.
pub open spec fn rounds(m: SearchModel, words: [u32; 32], n: nat) -> SearchModel
    decreases n,
{
    if n == 0 {
        m
    } else {
        round(rounds(m, words, (n - 1) as nat), words)
    }
}

/// An iteration whose readback is all zero leaves the loop between
/// iterations with the base input advanced by exactly
/// `dispatch_width * workgroup_size * iterations_per_thread`.
pub proof fn lemma_zero_round_advances_input(m: SearchModel, words: [u32; 32])
    requires
        model_wf(m),
        m.phase == Phase::Idle,
        all_zero(words@),
    ensures
        round(m, words).input == nonce_after(
            m.input,
            m.params.dispatch_width as nat * m.params.workgroup_size as nat
                * m.params.iterations_per_thread as nat,
        ),
        round(m, words).phase == Phase::Idle,
        round(m, words).params == m.params,
        round(m, words).total_hashes == saturating(
            m.total_hashes,
            m.params.spec_hashes_per_dispatch(),
        ),
        round(m, words).dispatch_count == saturating(m.dispatch_count, 1),
        model_wf(round(m, words)),
{
    let s = map_step(submit_step(begin_step(m, false), true), MapOutcome::Mapped(words));
    assert(s.readback == ReadbackState::Signalled(MapOutcome::Mapped(words)));
    assert(inspect_result(s) == Ok::<Option<Seq<u8>>, SearchError>(None));
    crate::nonce::lemma_le_bytes_value(
        (crate::nonce::le_value(m.input) + m.params.spec_hashes_per_dispatch()) as nat,
        NONCE_BYTES as nat,
    );
}

/// A search whose every readback is all zero, stopped after `n` iterations,
/// ends `Cancelled` without finding anything, having tried exactly `n` times
/// the inputs of one dispatch, and with its input advanced by that many.
pub proof fn lemma_cancel_after_rounds(
    params: SearchParameters,
    seed: Seq<u8>,
    words: [u32; 32],
    n: nat,
)
    requires
        params.valid(),
        seed.len() == NONCE_BYTES,
        all_zero(words@),
        n * params.spec_hashes_per_dispatch() <= u64::MAX,
    ensures
        rounds(initial_model(params, seed), words, n).phase == Phase::Idle,
        rounds(initial_model(params, seed), words, n).params == params,
        rounds(initial_model(params, seed), words, n).dispatch_count == n,
        rounds(initial_model(params, seed), words, n).total_hashes == n
            * params.spec_hashes_per_dispatch(),
        rounds(initial_model(params, seed), words, n).input == nonce_after(
            seed,
            n * params.spec_hashes_per_dispatch(),
        ),
        model_wf(rounds(initial_model(params, seed), words, n)),
        begin_step(rounds(initial_model(params, seed), words, n), true).phase == Phase::Cancelled,
        begin_step(rounds(initial_model(params, seed), words, n), true).total_hashes == n
            * params.spec_hashes_per_dispatch(),
    decreases n,
{
    let per = params.spec_hashes_per_dispatch();
    let m0 = initial_model(params, seed);
    let (w, d, i) = (
        params.workgroup_size as nat,
        params.dispatch_width as nat,
        params.iterations_per_thread as nat,
    );
    assert(d * w * i >= 1) by (nonlinear_arith)
        requires
            w >= 1,
            d >= 1,
            i >= 1,
    ;
    if n == 0 {
        assert(n * per == 0) by (nonlinear_arith)
            requires
                n == 0,
        ;
        crate::nonce::lemma_le_bytes_of_value(seed);
    } else {
        let k = (n - 1) as nat;
        assert(k * per <= n * per) by (nonlinear_arith)
            requires
                k <= n,
        ;
        lemma_cancel_after_rounds(params, seed, words, k);
        let prev = rounds(m0, words, k);
        lemma_zero_round_advances_input(prev, words);
        assert(k * per + per == n * per) by (nonlinear_arith)
            requires
                k + 1 == n,
        ;
        assert(k <= u64::MAX) by (nonlinear_arith)
            requires
                k * per <= u64::MAX,
                per >= 1,
        ;
        assert(n <= u64::MAX) by (nonlinear_arith)
            requires
                n * per <= u64::MAX,
                per >= 1,
        ;
        crate::nonce::lemma_add_twice(seed, k * per, per);
    }
}

/// With one thread, one workgroup, one iteration and no difficulty, the very
/// first dispatch is ordered on the all-zero input, and a slot that the
/// kernel filled ends the search `Found` on that first dispatch, with the
/// base input still all zero.
pub proof fn lemma_trivial_search_finds_first(words: [u32; 32])
    requires
        !all_zero(words@),
    ensures
        ({
            let params = SearchParameters {
                workgroup_size: 1,
                dispatch_width: 1,
                iterations_per_thread: 1,
                difficulty_bits: 0,
            };
            let m0 = initial_model(params, Seq::new(32, |i: int| 0u8));
            let m1 = map_step(submit_step(begin_step(m0, false), true), MapOutcome::Mapped(words));
            &&& params.valid()
            &&& inspect_result(m1) == Ok::<Option<Seq<u8>>, SearchError>(Some(slot_bytes(words@)))
            &&& inspect_step(m1).phase == Phase::Found
            &&& inspect_step(m1).input == Seq::new(32, |i: int| 0u8)
            &&& inspect_step(m1).dispatch_count == 0
        }),
{
}

/// The low byte of each word of a result slot.
pub fn convert_fat_buf(buf: &[u32; 32]) -> (r: [u8; 32])
    ensures
        r@ == slot_bytes(buf@),
{
    let mut out: [u8; 32] = [0u8; 32];
    let mut i: usize = 0;
    while i < RESULT_WORDS
        invariant
            i <= RESULT_WORDS,
            out@.len() == RESULT_WORDS,
            forall|j: int| 0 <= j < i ==> out@[j] == buf@[j] as u8,
        decreases RESULT_WORDS - i,
    {
        out[i] = buf[i] as u8;
        i = i + 1;
    }
    proof {
        assert(out@ =~= slot_bytes(buf@));
    }
    out
}

/// The input buffer's contents for a base input: each byte widened to a word,
/// as the kernel reads it.
pub fn input_words(input: &[u8; 32]) -> (r: [u32; 32])
    ensures
        forall|i: int| 0 <= i < 32 ==> r@[i] == input@[i] as u32,
{
    let mut out: [u32; 32] = [0u32; 32];
    let mut i: usize = 0;
    while i < NONCE_BYTES
        invariant
            i <= NONCE_BYTES,
            out@.len() == NONCE_BYTES,
            input@.len() == NONCE_BYTES,
            forall|j: int| 0 <= j < i ==> out@[j] == input@[j] as u32,
        decreases NONCE_BYTES - i,
    {
        out[i] = input[i] as u32;
        i = i + 1;
    }
    out
}

/// Whether every word of the slot is zero.
pub fn slot_is_empty(words: &[u32; 32]) -> (r: bool)
    ensures
        r == all_zero(words@),
{
    let mut i: usize = 0;
    while i < RESULT_WORDS
        invariant
            i <= RESULT_WORDS,
            words@.len() == RESULT_WORDS,
            forall|j: int| 0 <= j < i ==> words@[j] == 0,
        decreases RESULT_WORDS - i,
    {
        if words[i] != 0 {
            return false;
        }
        i = i + 1;
    }
    true
}

/// One search session: its parameters, the evolving base input and the
/// counters, and the phase of the dispatch loop.
pub struct SearchSession {
    params: SearchParameters,
    input: [u8; 32],
    dispatch_count: u64,
    total_hashes: u64,
    phase: Phase,
    readback: Readback,
}

impl View for SearchSession {
    type V = SearchModel;

    closed spec fn view(&self) -> SearchModel {
        SearchModel {
            params: self.params,
            input: self.input@,
            dispatch_count: self.dispatch_count as nat,
            total_hashes: self.total_hashes as nat,
            phase: self.phase,
            readback: self.readback@,
        }
    }
}

impl SearchSession {
    /// A session on valid `params` whose first dispatch tries `seed`.
    pub fn new(params: SearchParameters, seed: [u8; 32]) -> (r: SearchSession)
        requires
            params.valid(),
        ensures
            r@ == initial_model(params, seed@),
            model_wf(r@),
    {
        SearchSession {
            params,
            input: seed,
            dispatch_count: 0,
            total_hashes: 0,
            phase: Phase::Idle,
            readback: Readback::new(),
        }
    }

    /// Checks the four numbers (failing with `InvalidParameters`) and opens a
    /// session that starts from the all-zero input.
    pub fn start(
        workgroup_size: u32,
        dispatch_width: u32,
        iterations_per_thread: u32,
        difficulty_bits: u32,
    ) -> (r: Result<SearchSession, SearchError>)
        ensures
            r is Ok <==> crate::params::parameters_valid(
                workgroup_size as nat,
                dispatch_width as nat,
                iterations_per_thread as nat,
                difficulty_bits as nat,
            ),
            r is Ok ==> r->Ok_0@ == initial_model(
                SearchParameters {
                    workgroup_size,
                    dispatch_width,
                    iterations_per_thread,
                    difficulty_bits,
                },
                Seq::new(32, |i: int| 0u8),
            ) && model_wf(r->Ok_0@),
            r is Err ==> r->Err_0 == SearchError::InvalidParameters,
    {
        match SearchParameters::new(
            workgroup_size,
            dispatch_width,
            iterations_per_thread,
            difficulty_bits,
        ) {
            Ok(p) => {
                let seed: [u8; 32] = [0u8; 32];
                proof {
                    assert(seed@ =~= Seq::new(32, |i: int| 0u8));
                }
                Ok(SearchSession::new(p, seed))
            },
            Err(e) => Err(e),
        }
    }

    pub fn params(&self) -> (r: SearchParameters)
        ensures
            r == self@.params,
    {
        self.params
    }

    /// The base input of the next (or current) dispatch.
    pub fn input(&self) -> (r: [u8; 32])
        ensures
            r@ == self@.input,
    {
        self.input
    }

    /// Dispatches that came back without a winner.
    pub fn dispatch_count(&self) -> (r: u64)
        ensures
            r == self@.dispatch_count,
    {
        self.dispatch_count
    }

    /// Inputs tried in those dispatches.
    pub fn total_hashes(&self) -> (r: u64)
        ensures
            r == self@.total_hashes,
    {
        self.total_hashes
    }

    pub fn phase(&self) -> (r: Phase)
        ensures
            r == self@.phase,
    {
        self.phase
    }

    /// The top of an iteration, where the stop signal is observed: with `stop`
    /// the session ends `Cancelled` and nothing is ordered; otherwise the
    /// order for the next dispatch comes back.
    pub fn next_dispatch(&mut self, stop: bool) -> (r: Option<DispatchOrder>)
        requires
            model_wf(old(self)@),
            old(self)@.phase == Phase::Idle,
        ensures
            final(self)@ == begin_step(old(self)@, stop),
            model_wf(final(self)@),
            r is None <==> stop,
            r is Some ==> r->Some_0.input@ == old(self)@.input && r->Some_0.workgroups
                == old(self)@.params.dispatch_width,
    {
        if stop {
            self.phase = Phase::Cancelled;
            None
        } else {
            self.phase = Phase::Dispatching;
            Some(DispatchOrder { input: self.input, workgroups: self.params.dispatch_width })
        }
    }

    /// The caller reports whether the ordered dispatch was submitted. On
    /// success the map request of its readback is registered; a device error
    /// ends the session with `DeviceFailure`.
    pub fn dispatch_submitted(&mut self, ok: bool) -> (r: Result<(), SearchError>)
        requires
            model_wf(old(self)@),
            old(self)@.phase == Phase::Dispatching,
        ensures
            final(self)@ == submit_step(old(self)@, ok),
            model_wf(final(self)@),
            r is Ok <==> ok,
            r is Err ==> r->Err_0 == SearchError::DeviceFailure,
    {
        if ok {
            let _ = self.readback.request();
            self.phase = Phase::AwaitingReadback;
            Ok(())
        } else {
            self.phase = Phase::Failed(SearchError::DeviceFailure);
            Err(SearchError::DeviceFailure)
        }
    }

    /// The map callback: resolves the outstanding request with `outcome`, or
    /// fails with `ProtocolViolation`, changing nothing, when none is pending.
    pub fn map_completed(&mut self, outcome: MapOutcome) -> (r: Result<(), SearchError>)
        requires
            model_wf(old(self)@),
        ensures
            final(self)@ == map_step(old(self)@, outcome),
            r == signal_step(old(self)@.readback, outcome).1,
            model_wf(final(self)@),
    {
        self.readback.signal(outcome)
    }

    /// After the device was polled: takes the readback and decides. An
    /// all-zero slot advances the input by the inputs tried per dispatch and
    /// goes on; a non-zero slot is the winner; a failed or lost readback ends
    /// the session with that error.
    pub fn inspect(&mut self) -> (r: Result<Inspection, SearchError>)
        requires
            model_wf(old(self)@),
            old(self)@.phase == Phase::AwaitingReadback,
        ensures
            final(self)@ == inspect_step(old(self)@),
            model_wf(final(self)@),
            (r == Ok::<Inspection, SearchError>(Inspection::Continue)) <==> inspect_result(
                old(self)@,
            ) == Ok::<Option<Seq<u8>>, SearchError>(None),
            r is Ok && r->Ok_0 is Found ==> inspect_result(old(self)@) == Ok::<
                Option<Seq<u8>>,
                SearchError,
            >(Some(r->Ok_0->Found_0@)),
            r is Err <==> inspect_result(old(self)@) is Err,
            r is Err ==> inspect_result(old(self)@) == Err::<Option<Seq<u8>>, SearchError>(
                r->Err_0,
            ),
    {
        match self.readback.take() {
            Ok(MapOutcome::Mapped(words)) => {
                if slot_is_empty(&words) {
                    let per = self.params.hashes_per_dispatch();
                    add_big_int(&mut self.input, per);
                    self.total_hashes = self.total_hashes.saturating_add(per as u64);
                    self.dispatch_count = self.dispatch_count.saturating_add(1);
                    self.phase = Phase::Idle;
                    Ok(Inspection::Continue)
                } else {
                    self.phase = Phase::Found;
                    Ok(Inspection::Found(convert_fat_buf(&words)))
                }
            },
            Ok(MapOutcome::Failed) => {
                self.phase = Phase::Failed(SearchError::DeviceFailure);
                Err(SearchError::DeviceFailure)
            },
            Err(e) => {
                self.phase = Phase::Failed(e);
                Err(e)
            },
        }
    }
}

} // verus!
