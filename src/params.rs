//! The fixed parameters of one search and the errors a search can end in.
use vstd::prelude::*;
use crate::difficulty::DIGEST_BITS;

verus! {

/// Why a search, or one step of it, failed.
#[derive(Clone, Copy, Debug, PartialEq, Eq, Structural)]
pub enum SearchError {
    /// A parameter is zero or out of range; found before any device call.
    InvalidParameters,
    /// The device failed to submit work or to map the result buffer.
    DeviceFailure,
    /// The readback signal was dropped without being resolved.
    ReadbackChannelClosed,
    /// A readback step came out of order, such as a second map request while
    /// one is still outstanding.
    ProtocolViolation,
}

/// The shape of the search, fixed for one session: `workgroup_size` threads
/// in each of `dispatch_width` workgroups per dispatch, each thread trying
/// `iterations_per_thread` inputs, and a digest accepted when it starts with
/// `difficulty_bits` zero bits.
#[derive(Clone, Copy, Debug, PartialEq, Eq, Structural)]
pub struct SearchParameters {
    pub workgroup_size: u32,
    pub dispatch_width: u32,
    pub iterations_per_thread: u32,
    pub difficulty_bits: u32,
}

/// Whether the four numbers make a usable search: sizes positive, the
/// difficulty within the digest, and the inputs tried per dispatch within `u32`.
pub open spec fn parameters_valid(
    workgroup_size: nat,
    dispatch_width: nat,
    iterations_per_thread: nat,
    difficulty_bits: nat,
) -> bool {
    &&& workgroup_size > 0
    &&& dispatch_width > 0
    &&& iterations_per_thread > 0
    &&& difficulty_bits <= DIGEST_BITS
    &&& workgroup_size * dispatch_width * iterations_per_thread <= u32::MAX
}

impl SearchParameters {
    pub open spec fn valid(&self) -> bool {
        parameters_valid(
            self.workgroup_size as nat,
            self.dispatch_width as nat,
            self.iterations_per_thread as nat,
            self.difficulty_bits as nat,
        )
    }

    /// Logical threads in one dispatch.
    pub open spec fn spec_runs_per_dispatch(&self) -> nat {
        self.dispatch_width as nat * self.workgroup_size as nat
    }

    /// Inputs tried in one dispatch.
    pub open spec fn spec_hashes_per_dispatch(&self) -> nat {
        self.spec_runs_per_dispatch() * self.iterations_per_thread as nat
    }

    /// Checks the four numbers and fails with `InvalidParameters` when they do
    /// not make a usable search.
    pub fn new(
        workgroup_size: u32,
        dispatch_width: u32,
        iterations_per_thread: u32,
        difficulty_bits: u32,
    ) -> (r: Result<SearchParameters, SearchError>)
        ensures
            r is Ok <==> parameters_valid(
                workgroup_size as nat,
                dispatch_width as nat,
                iterations_per_thread as nat,
                difficulty_bits as nat,
            ),
            r is Ok ==> r->Ok_0 == (SearchParameters {
                workgroup_size,
                dispatch_width,
                iterations_per_thread,
                difficulty_bits,
            }),
            r is Err ==> r->Err_0 == SearchError::InvalidParameters,
    {
        if workgroup_size == 0 || dispatch_width == 0 || iterations_per_thread == 0
            || difficulty_bits > DIGEST_BITS {
            return Err(SearchError::InvalidParameters);
        }
        proof {
            let w = workgroup_size as nat;
            let d = dispatch_width as nat;
            assert(w * d <= 0xffff_ffffnat * 0xffff_ffffnat) by (nonlinear_arith)
                requires
                    w <= 0xffff_ffff,
                    d <= 0xffff_ffff,
            ;
        }
        let runs: u64 = workgroup_size as u64 * dispatch_width as u64;
        if runs > u32::MAX as u64 {
            proof {
                let w = workgroup_size as nat;
                let d = dispatch_width as nat;
                let i = iterations_per_thread as nat;
                assert(w * d * i >= w * d) by (nonlinear_arith)
                    requires
                        i >= 1,
                ;
            }
            return Err(SearchError::InvalidParameters);
        }
        proof {
            let r = runs as nat;
            let i = iterations_per_thread as nat;
            assert(r * i <= 0xffff_ffffnat * 0xffff_ffffnat) by (nonlinear_arith)
                requires
                    r <= 0xffff_ffff,
                    i <= 0xffff_ffff,
            ;
        }
        let total: u64 = runs * iterations_per_thread as u64;
        if total > u32::MAX as u64 {
            return Err(SearchError::InvalidParameters);
        }
        Ok(SearchParameters { workgroup_size, dispatch_width, iterations_per_thread, difficulty_bits })
    }

    /// Logical threads in one dispatch: `dispatch_width * workgroup_size`.
    pub fn runs_per_dispatch(&self) -> (r: u32)
        requires
            self.valid(),
        ensures
            r == self.spec_runs_per_dispatch(),
    {
        proof {
            let w = self.workgroup_size as nat;
            let d = self.dispatch_width as nat;
            let i = self.iterations_per_thread as nat;
            assert(d * w <= w * d * i) by (nonlinear_arith)
                requires
                    i >= 1,
            ;
        }
        self.dispatch_width * self.workgroup_size
    }

    /// Inputs tried in one dispatch: `runs_per_dispatch * iterations_per_thread`.
    pub fn hashes_per_dispatch(&self) -> (r: u32)
        requires
            self.valid(),
        ensures
            r == self.spec_hashes_per_dispatch(),
            r > 0,
    {
        let runs = self.runs_per_dispatch();
        proof {
            let w = self.workgroup_size as nat;
            let d = self.dispatch_width as nat;
            let i = self.iterations_per_thread as nat;
            assert(d * w * i == w * d * i) by (nonlinear_arith);
            assert(d * w * i > 0) by (nonlinear_arith)
                requires
                    d > 0,
                    w > 0,
                    i > 0,
            ;
        }
        runs * self.iterations_per_thread
    }
}

} // verus!
