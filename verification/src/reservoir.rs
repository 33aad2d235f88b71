//! The reservoir: its buffers, its step and its convergence flag.

use crate::binary64::{lemma_order_of_magnitudes, magnitude};
use crate::convergence::{lemma_settles_iff_every_change_is_small, settled, settles, TOLERANCE};
use crate::matrix::{Matrix, MatrixView};
use vstd::prelude::*;

verus! {

/// What a reservoir is made of, as mathematical values.
pub struct ReservoirView {
    /// The latent state `r`.
    pub state: Seq<u64>,
    /// The exogenous input `x`.
    pub input: Seq<u64>,
    /// The additive bias `d`.
    pub bias: Seq<u64>,
    /// The state-to-state coupling `A`.
    pub recurrent_matrix: MatrixView,
    /// The input-to-state coupling `B`.
    pub input_matrix: MatrixView,
    /// The state-to-output projection `W`.
    pub readout_matrix: MatrixView,
    /// Whether a step has changed the state by less than the tolerance.
    pub converged: bool,
}

/// What the numeric kernel hands back for one step: the state it computed
/// and, component by component, its difference from the state before.
pub struct Update {
    /// The state that the step computed.
    pub next_state: Seq<u64>,
    /// The differences between that state and the one before.
    pub changes: Seq<u64>,
}

impl ReservoirView {
    /// The length `n` of the latent state.
    pub open spec fn latent_dim(self) -> nat {
        self.state.len()
    }

    /// The length `k` of the input.
    pub open spec fn input_dim(self) -> nat {
        self.input.len()
    }

    /// The length `m` of the output, which is the height of `W`.
    pub open spec fn output_dim(self) -> nat {
        self.readout_matrix.rows
    }

    /// The shapes agree: `A r + B x + d` and `W r` are defined, and the first
    /// has the length of `r`.
    pub open spec fn wf(self) -> bool {
        &&& self.bias.len() == self.latent_dim()
        &&& self.recurrent_matrix.wf()
        &&& self.recurrent_matrix.rows == self.latent_dim()
        &&& self.recurrent_matrix.cols == self.latent_dim()
        &&& self.input_matrix.wf()
        &&& self.input_matrix.rows == self.latent_dim()
        &&& self.input_matrix.cols == self.input_dim()
        &&& self.readout_matrix.wf()
        &&& self.readout_matrix.cols == self.latent_dim()
    }

    /// The unconverged reservoir with input length `k`, output length `m` and
    /// latent length `n` whose numbers all encode `+0`.
    pub open spec fn zeroed(k: nat, m: nat, n: nat) -> ReservoirView {
        ReservoirView {
            state: Seq::new(n, |i: int| 0u64),
            input: Seq::new(k, |i: int| 0u64),
            bias: Seq::new(n, |i: int| 0u64),
            recurrent_matrix: MatrixView::zeros(n, n),
            input_matrix: MatrixView::zeros(n, k),
            readout_matrix: MatrixView::zeros(m, n),
            converged: false,
        }
    }

    /// Whether the two vectors of an update have the latent length.
    pub open spec fn fits(self, next_state: Seq<u64>, changes: Seq<u64>) -> bool {
        next_state.len() == self.latent_dim() && changes.len() == self.latent_dim()
    }

    /// The reservoir after one step that computed `next_state`, which differs
    /// from the state before by `changes`.
    ///
    /// The state is replaced as a whole, and the flag is raised when the
    /// largest absolute change is below the tolerance; a flag that is up
    /// stays up. An update that does not fit is not taken: the reservoir
    /// stays as it is.
    pub open spec fn step(self, next_state: Seq<u64>, changes: Seq<u64>) -> ReservoirView {
        if self.fits(next_state, changes) {
            ReservoirView {
                state: next_state,
                converged: self.converged || settles(changes),
                ..self
            }
        } else {
            self
        }
    }

    /// The reservoir after the given steps, taken in order.
    pub open spec fn after(self, updates: Seq<Update>) -> ReservoirView
        decreases updates.len(),
    {
        if updates.len() == 0 {
            self
        } else {
            let last = updates.last();
            self.after(updates.drop_last()).step(last.next_state, last.changes)
        }
    }
}

/// The zeroed reservoir has the shapes it was asked for, they agree, and it
/// is not converged.
pub proof fn lemma_zeroed_shapes(k: nat, m: nat, n: nat)
    ensures
        ReservoirView::zeroed(k, m, n).latent_dim() == n,
        ReservoirView::zeroed(k, m, n).input_dim() == k,
        ReservoirView::zeroed(k, m, n).output_dim() == m,
        ReservoirView::zeroed(k, m, n).wf(),
        !ReservoirView::zeroed(k, m, n).converged,
{
}

/// Once the flag is up, no sequence of further steps takes it down.
pub proof fn lemma_converged_is_absorbing(reservoir: ReservoirView, updates: Seq<Update>)
    requires
        reservoir.converged,
    ensures
        reservoir.after(updates).converged,
    decreases updates.len(),
{
    if updates.len() > 0 {
        lemma_converged_is_absorbing(reservoir, updates.drop_last());
    }
}

/// No sequence of steps changes a shape: the state keeps its length, the
/// input, the bias and the three matrices stay as they are, and shapes that
/// agreed before agree after.
pub proof fn lemma_shapes_are_preserved(reservoir: ReservoirView, updates: Seq<Update>)
    ensures
        reservoir.after(updates).latent_dim() == reservoir.latent_dim(),
        reservoir.after(updates).input_dim() == reservoir.input_dim(),
        reservoir.after(updates).output_dim() == reservoir.output_dim(),
        reservoir.after(updates).input == reservoir.input,
        reservoir.after(updates).bias == reservoir.bias,
        reservoir.after(updates).recurrent_matrix == reservoir.recurrent_matrix,
        reservoir.after(updates).input_matrix == reservoir.input_matrix,
        reservoir.after(updates).readout_matrix == reservoir.readout_matrix,
        reservoir.wf() ==> reservoir.after(updates).wf(),
    decreases updates.len(),
{
    if updates.len() > 0 {
        lemma_shapes_are_preserved(reservoir, updates.drop_last());
    }
}

/// A step that changed no component, so that every difference is a zero,
/// takes the state it computed and raises the flag.
pub proof fn lemma_no_change_converges(
    reservoir: ReservoirView,
    next_state: Seq<u64>,
    changes: Seq<u64>,
)
    requires
        reservoir.fits(next_state, changes),
        forall|i: int| 0 <= i < changes.len() ==> magnitude(#[trigger] changes[i]) == 0,
    ensures
        reservoir.step(next_state, changes).state == next_state,
        reservoir.step(next_state, changes).converged,
{
    lemma_settles_iff_every_change_is_small(changes);
    lemma_order_of_magnitudes(0, TOLERANCE);
}

/// A vector handed to [`Reservoir::run`] did not have the latent length.
#[derive(Clone, Copy, Debug, PartialEq, Eq)]
pub struct DimensionMismatch {
    /// The latent length of the reservoir.
    pub expected: usize,
    /// The length of the vector that was handed in.
    pub found: usize,
}

/// A recurrent reservoir `r <- tanh(A r + B x + d)` with readout `W r`.
///
/// Every number is the pattern of a binary64 encoding. The shapes are set
/// when the reservoir is made and never change.
pub struct Reservoir {
    state: Vec<u64>,
    input: Vec<u64>,
    bias: Vec<u64>,
    recurrent_matrix: Matrix,
    input_matrix: Matrix,
    readout_matrix: Matrix,
    converged: bool,
}

impl View for Reservoir {
    type V = ReservoirView;

    closed spec fn view(&self) -> ReservoirView {
        ReservoirView {
            state: self.state@,
            input: self.input@,
            bias: self.bias@,
            recurrent_matrix: self.recurrent_matrix@,
            input_matrix: self.input_matrix@,
            readout_matrix: self.readout_matrix@,
            converged: self.converged,
        }
    }
}

impl Reservoir {
    #[verifier::type_invariant]
    spec fn shapes_agree(&self) -> bool {
        self@.wf()
    }

    /// The reservoir with input length `k`, output length `m` and latent
    /// length `n`, all numbers `+0`, not converged.
    ///
    /// Any of the three may be 0, which gives empty vectors and matrices.
    pub fn new(k: usize, m: usize, n: usize) -> (reservoir: Reservoir)
        requires
            n * n <= usize::MAX,
            n * k <= usize::MAX,
            m * n <= usize::MAX,
        ensures
            reservoir@ == ReservoirView::zeroed(k as nat, m as nat, n as nat),
            reservoir@.wf(),
    {
        let state: Vec<u64> = vec![0u64; n];
        let input: Vec<u64> = vec![0u64; k];
        let bias: Vec<u64> = vec![0u64; n];
        assert(state@ =~= Seq::new(n as nat, |i: int| 0u64));
        assert(input@ =~= Seq::new(k as nat, |i: int| 0u64));
        assert(bias@ =~= Seq::new(n as nat, |i: int| 0u64));
        Reservoir {
            state,
            input,
            bias,
            recurrent_matrix: Matrix::zeros(n, n),
            input_matrix: Matrix::zeros(n, k),
            readout_matrix: Matrix::zeros(m, n),
            converged: false,
        }
    }

    /// Takes one step: `next_state` is `tanh(A r + B x + d)` as the numeric
    /// kernel computed it from this reservoir, and `changes` is its
    /// difference from `r`, component by component, in either direction.
    ///
    /// The state becomes `next_state`, and the flag is raised when the
    /// largest absolute change is below the tolerance. A vector of the wrong
    /// length is refused, `next_state` first, and changes nothing.
    pub fn run(&mut self, next_state: Vec<u64>, changes: &Vec<u64>) -> (outcome: Result<
        (),
        DimensionMismatch,
    >)
        ensures
            final(self)@ == old(self)@.step(next_state@, changes@),
            final(self)@.wf(),
            old(self)@.converged ==> final(self)@.converged,
            outcome == Self::outcome_of(old(self)@.latent_dim(), next_state@.len(), changes@.len()),
    {
        proof {
            use_type_invariant(&*self);
        }
        let expected: usize = self.state.len();
        if next_state.len() != expected {
            return Err(DimensionMismatch { expected, found: next_state.len() });
        }
        if changes.len() != expected {
            return Err(DimensionMismatch { expected, found: changes.len() });
        }
        if settled(changes) {
            self.converged = true;
        }
        self.state = next_state;
        Ok(())
    }

    /// What [`Reservoir::run`] returns for a latent length and the lengths of
    /// the two vectors handed in.
    pub open spec fn outcome_of(latent_dim: nat, next_state: nat, changes: nat) -> Result<
        (),
        DimensionMismatch,
    > {
        if next_state != latent_dim {
            Err(DimensionMismatch { expected: latent_dim as usize, found: next_state as usize })
        } else if changes != latent_dim {
            Err(DimensionMismatch { expected: latent_dim as usize, found: changes as usize })
        } else {
            Ok(())
        }
    }

    /// Whether a step has changed the state by less than the tolerance.
    pub fn converged(&self) -> (converged: bool)
        ensures
            converged == self@.converged,
    {
        self.converged
    }

    /// The latent state `r`.
    pub fn state(&self) -> (state: &Vec<u64>)
        ensures
            state@ == self@.state,
            self@.wf(),
    {
        proof {
            use_type_invariant(self);
        }
        &self.state
    }

    /// The exogenous input `x`.
    pub fn input(&self) -> (input: &Vec<u64>)
        ensures
            input@ == self@.input,
            self@.wf(),
    {
        proof {
            use_type_invariant(self);
        }
        &self.input
    }

    /// The additive bias `d`.
    pub fn bias(&self) -> (bias: &Vec<u64>)
        ensures
            bias@ == self@.bias,
            self@.wf(),
    {
        proof {
            use_type_invariant(self);
        }
        &self.bias
    }

    /// The state-to-state coupling `A`.
    pub fn recurrent_matrix(&self) -> (matrix: &Matrix)
        ensures
            matrix@ == self@.recurrent_matrix,
            self@.wf(),
    {
        proof {
            use_type_invariant(self);
        }
        &self.recurrent_matrix
    }

    /// The input-to-state coupling `B`.
    pub fn input_matrix(&self) -> (matrix: &Matrix)
        ensures
            matrix@ == self@.input_matrix,
            self@.wf(),
    {
        proof {
            use_type_invariant(self);
        }
        &self.input_matrix
    }

    /// The state-to-output projection `W`.
    pub fn readout_matrix(&self) -> (matrix: &Matrix)
        ensures
            matrix@ == self@.readout_matrix,
            self@.wf(),
    {
        proof {
            use_type_invariant(self);
        }
        &self.readout_matrix
    }
}

impl Clone for Reservoir {
    fn clone(&self) -> (copy: Self)
        ensures
            copy@ == self@,
    {
        proof {
            use_type_invariant(self);
        }
        let state: Vec<u64> = self.state.clone();
        let input: Vec<u64> = self.input.clone();
        let bias: Vec<u64> = self.bias.clone();
        assert(state@ =~= self.state@);
        assert(input@ =~= self.input@);
        assert(bias@ =~= self.bias@);
        Reservoir {
            state,
            input,
            bias,
            recurrent_matrix: self.recurrent_matrix.clone(),
            input_matrix: self.input_matrix.clone(),
            readout_matrix: self.readout_matrix.clone(),
            converged: self.converged,
        }
    }
}

} // verus!
