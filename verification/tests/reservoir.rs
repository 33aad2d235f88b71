//! The reservoir, driven by a numeric kernel built on nalgebra.

use nalgebra::{DMatrix, DVector};
use reservoir::{DimensionMismatch, Matrix, Reservoir};

fn to_vector(patterns: &Vec<u64>) -> DVector<f64> {
    DVector::from_iterator(patterns.len(), patterns.iter().map(|bits| f64::from_bits(*bits)))
}

fn to_matrix(matrix: &Matrix) -> DMatrix<f64> {
    DMatrix::from_iterator(
        matrix.rows(),
        matrix.cols(),
        matrix.entries().iter().map(|bits| f64::from_bits(*bits)),
    )
}

fn to_patterns(vector: &DVector<f64>) -> Vec<u64> {
    vector.iter().map(|value| value.to_bits()).collect()
}

/// `tanh(A r + B x + d)` and its difference from `r`.
fn compute_step(reservoir: &Reservoir) -> (Vec<u64>, Vec<u64>) {
    let previous = to_vector(reservoir.state());
    let next = (to_matrix(reservoir.recurrent_matrix()) * &previous
        + to_matrix(reservoir.input_matrix()) * to_vector(reservoir.input())
        + to_vector(reservoir.bias()))
    .map(|value| value.tanh());
    let changes = previous - &next;
    (to_patterns(&next), to_patterns(&changes))
}

/// `W r`.
fn compute_readout(reservoir: &Reservoir) -> DVector<f64> {
    to_matrix(reservoir.readout_matrix()) * to_vector(reservoir.state())
}

fn assert_shapes(reservoir: &Reservoir, k: usize, m: usize, n: usize) {
    assert_eq!(reservoir.state().len(), n);
    assert_eq!(reservoir.input().len(), k);
    assert_eq!(reservoir.bias().len(), n);
    assert_eq!(reservoir.recurrent_matrix().rows(), n);
    assert_eq!(reservoir.recurrent_matrix().cols(), n);
    assert_eq!(reservoir.recurrent_matrix().entries().len(), n * n);
    assert_eq!(reservoir.input_matrix().rows(), n);
    assert_eq!(reservoir.input_matrix().cols(), k);
    assert_eq!(reservoir.input_matrix().entries().len(), n * k);
    assert_eq!(reservoir.readout_matrix().rows(), m);
    assert_eq!(reservoir.readout_matrix().cols(), n);
    assert_eq!(reservoir.readout_matrix().entries().len(), m * n);
}

fn assert_all_zero(reservoir: &Reservoir) {
    assert!(reservoir.state().iter().all(|bits| *bits == 0));
    assert!(reservoir.input().iter().all(|bits| *bits == 0));
    assert!(reservoir.bias().iter().all(|bits| *bits == 0));
    assert!(reservoir.recurrent_matrix().entries().iter().all(|bits| *bits == 0));
    assert!(reservoir.input_matrix().entries().iter().all(|bits| *bits == 0));
    assert!(reservoir.readout_matrix().entries().iter().all(|bits| *bits == 0));
}

#[test]
fn new_fills_every_buffer_with_zeros() {
    let reservoir = Reservoir::new(5, 3, 4);
    assert_shapes(&reservoir, 5, 3, 4);
    assert_all_zero(&reservoir);
    assert!(!reservoir.converged());
    assert_eq!(to_vector(reservoir.state()), DVector::<f64>::zeros(4));
    assert_eq!(to_matrix(reservoir.input_matrix()), DMatrix::<f64>::zeros(4, 5));
    assert_eq!(to_matrix(reservoir.readout_matrix()), DMatrix::<f64>::zeros(3, 4));
}

#[test]
fn new_takes_the_dimensions_in_the_order_input_output_latent() {
    let reservoir = Reservoir::new(2, 7, 3);
    assert_eq!(reservoir.input().len(), 2);
    assert_eq!(reservoir.readout_matrix().rows(), 7);
    assert_eq!(reservoir.state().len(), 3);
    assert_shapes(&reservoir, 2, 7, 3);
}

#[test]
fn new_allows_empty_dimensions() {
    for (k, m, n) in [(0, 0, 0), (0, 3, 4), (5, 0, 4), (5, 3, 0), (0, 0, 1)] {
        let reservoir = Reservoir::new(k, m, n);
        assert_shapes(&reservoir, k, m, n);
        assert!(!reservoir.converged());
    }
}

#[test]
fn matrix_of_zeros_has_its_shape() {
    let matrix = Matrix::zeros(3, 4);
    assert_eq!(matrix.rows(), 3);
    assert_eq!(matrix.cols(), 4);
    assert_eq!(matrix.entries(), &vec![0u64; 12]);
    let empty = Matrix::zeros(0, 9);
    assert_eq!(empty.rows(), 0);
    assert_eq!(empty.cols(), 9);
    assert!(empty.entries().is_empty());
    let copy = matrix.clone();
    assert_eq!(copy.rows(), 3);
    assert_eq!(copy.cols(), 4);
    assert_eq!(copy.entries(), matrix.entries());
}

#[test]
fn one_step_settles_the_zeroed_reservoir() {
    let mut reservoir = Reservoir::new(5, 3, 4);
    let (next_state, changes) = compute_step(&reservoir);
    assert_eq!(next_state, vec![0u64; 4]);
    assert_eq!(reservoir.run(next_state, &changes), Ok(()));
    assert_all_zero(&reservoir);
    assert_shapes(&reservoir, 5, 3, 4);
    assert!(reservoir.converged());
    let output = compute_readout(&reservoir);
    assert_eq!(output.len(), 3);
    assert_eq!(output, DVector::<f64>::zeros(3));
}

#[test]
fn the_driving_loop_ends_after_one_step() {
    let mut reservoir = Reservoir::new(5, 3, 4);
    let mut steps: u32 = 0;
    while !reservoir.converged() {
        let (next_state, changes) = compute_step(&reservoir);
        assert_eq!(reservoir.run(next_state, &changes), Ok(()));
        steps += 1;
        assert!(steps < 10);
    }
    assert_eq!(steps, 1);
}

#[test]
fn the_empty_reservoir_settles_at_once() {
    let mut reservoir = Reservoir::new(0, 0, 0);
    let (next_state, changes) = compute_step(&reservoir);
    assert!(next_state.is_empty());
    assert_eq!(reservoir.run(next_state, &changes), Ok(()));
    assert!(reservoir.converged());
    assert_eq!(compute_readout(&reservoir).len(), 0);
}

#[test]
fn run_takes_the_new_state_whole() {
    let mut reservoir = Reservoir::new(5, 3, 4);
    let next_state = vec![0.5f64.to_bits(), (-0.25f64).to_bits(), 0, 0.125f64.to_bits()];
    let changes = vec![(-0.5f64).to_bits(), 0.25f64.to_bits(), 0, (-0.125f64).to_bits()];
    assert_eq!(reservoir.run(next_state.clone(), &changes), Ok(()));
    assert_eq!(reservoir.state(), &next_state);
    assert!(!reservoir.converged());
    assert_shapes(&reservoir, 5, 3, 4);
    assert!(reservoir.input().iter().all(|bits| *bits == 0));
    assert!(reservoir.bias().iter().all(|bits| *bits == 0));
    assert!(reservoir.recurrent_matrix().entries().iter().all(|bits| *bits == 0));
}

#[test]
fn run_raises_the_flag_below_the_tolerance_only() {
    let mut reservoir = Reservoir::new(1, 1, 2);
    let at_tolerance = vec![0, 1e-5f64.to_bits()];
    assert_eq!(reservoir.run(vec![0, 0], &at_tolerance), Ok(()));
    assert!(!reservoir.converged());
    let above = vec![(-0.5f64).to_bits(), 0];
    assert_eq!(reservoir.run(vec![0, 0], &above), Ok(()));
    assert!(!reservoir.converged());
    let below = vec![9.999999999999999e-6f64.to_bits(), (-3e-6f64).to_bits()];
    assert_eq!(reservoir.run(vec![7, 9], &below), Ok(()));
    assert!(reservoir.converged());
    assert_eq!(reservoir.state(), &vec![7u64, 9]);
}

#[test]
fn the_flag_stays_up() {
    let mut reservoir = Reservoir::new(5, 3, 4);
    assert_eq!(reservoir.run(vec![0; 4], &vec![0; 4]), Ok(()));
    assert!(reservoir.converged());
    let large = vec![1.0f64.to_bits(); 4];
    let nan = vec![f64::NAN.to_bits(); 4];
    let infinite = vec![f64::INFINITY.to_bits(); 4];
    for changes in [&large, &nan, &infinite, &large] {
        assert_eq!(reservoir.run(vec![0.75f64.to_bits(); 4], changes), Ok(()));
        assert!(reservoir.converged());
    }
    assert_eq!(reservoir.run(vec![0; 3], &large), Err(DimensionMismatch { expected: 4, found: 3 }));
    assert!(reservoir.converged());
    assert_eq!(reservoir.state(), &vec![0.75f64.to_bits(); 4]);
}

#[test]
fn run_refuses_a_state_of_the_wrong_length() {
    let mut reservoir = Reservoir::new(5, 3, 4);
    let outcome = reservoir.run(vec![1, 2, 3], &vec![0; 4]);
    assert_eq!(outcome, Err(DimensionMismatch { expected: 4, found: 3 }));
    assert_all_zero(&reservoir);
    assert_shapes(&reservoir, 5, 3, 4);
    assert!(!reservoir.converged());
    let outcome = reservoir.run(vec![1, 2, 3, 4, 5], &vec![0; 4]);
    assert_eq!(outcome, Err(DimensionMismatch { expected: 4, found: 5 }));
    assert_all_zero(&reservoir);
    assert!(!reservoir.converged());
}

#[test]
fn run_refuses_changes_of_the_wrong_length() {
    let mut reservoir = Reservoir::new(5, 3, 4);
    let outcome = reservoir.run(vec![1, 2, 3, 4], &vec![0; 5]);
    assert_eq!(outcome, Err(DimensionMismatch { expected: 4, found: 5 }));
    assert_all_zero(&reservoir);
    assert!(!reservoir.converged());
    let outcome = reservoir.run(vec![1, 2, 3, 4], &Vec::new());
    assert_eq!(outcome, Err(DimensionMismatch { expected: 4, found: 0 }));
    assert_all_zero(&reservoir);
    assert!(!reservoir.converged());
}

#[test]
fn run_names_the_state_when_both_lengths_are_wrong() {
    let mut reservoir = Reservoir::new(5, 3, 4);
    let outcome = reservoir.run(vec![1, 2], &vec![0; 7]);
    assert_eq!(outcome, Err(DimensionMismatch { expected: 4, found: 2 }));
}

#[test]
fn shapes_survive_any_number_of_steps() {
    let mut reservoir = Reservoir::new(3, 2, 6);
    for round in 0..50u64 {
        let next_state: Vec<u64> = (0..6).map(|i| ((round + i) as f64 / 100.0).to_bits()).collect();
        let changes: Vec<u64> = vec![0.01f64.to_bits(); 6];
        assert_eq!(reservoir.run(next_state, &changes), Ok(()));
        assert_shapes(&reservoir, 3, 2, 6);
        assert_eq!(compute_readout(&reservoir).len(), 2);
        assert!(reservoir.input().iter().all(|bits| *bits == 0));
    }
    assert!(!reservoir.converged());
}

#[test]
fn a_clone_holds_the_same_numbers_and_goes_its_own_way() {
    let mut source = Reservoir::new(2, 2, 3);
    let first = vec![0.5f64.to_bits(), 0.25f64.to_bits(), 0.125f64.to_bits()];
    assert_eq!(source.run(first.clone(), &first), Ok(()));
    let mut copy = source.clone();
    assert_eq!(copy.state(), source.state());
    assert_eq!(copy.input(), source.input());
    assert_eq!(copy.bias(), source.bias());
    assert_eq!(copy.recurrent_matrix().entries(), source.recurrent_matrix().entries());
    assert_eq!(copy.input_matrix().entries(), source.input_matrix().entries());
    assert_eq!(copy.readout_matrix().entries(), source.readout_matrix().entries());
    assert_eq!(copy.converged(), source.converged());
    assert_shapes(&copy, 2, 2, 3);
    assert_eq!(copy.run(vec![0; 3], &vec![0; 3]), Ok(()));
    assert!(copy.converged());
    assert!(!source.converged());
    assert_eq!(source.state(), &first);
}

#[test]
fn two_clones_step_alike() {
    let mut start = Reservoir::new(5, 3, 4);
    let state = vec![0.3f64.to_bits(), (-0.9f64).to_bits(), 0.0f64.to_bits(), 1e-7f64.to_bits()];
    assert_eq!(start.run(state.clone(), &state), Ok(()));
    let mut left = start.clone();
    let mut right = start.clone();
    let (left_next, left_changes) = compute_step(&left);
    let (right_next, right_changes) = compute_step(&right);
    assert_eq!(left_next, right_next);
    assert_eq!(left_changes, right_changes);
    assert_eq!(left.run(left_next, &left_changes), right.run(right_next, &right_changes));
    assert_eq!(left.state(), right.state());
    assert_eq!(left.converged(), right.converged());
    assert_eq!(left.state(), &vec![0u64; 4]);
    assert!(!left.converged());
}

#[test]
fn a_state_that_leaves_zero_slowly_settles_in_two_steps() {
    let mut reservoir = Reservoir::new(5, 3, 4);
    let state = vec![0.3f64.to_bits(); 4];
    assert_eq!(reservoir.run(state.clone(), &state), Ok(()));
    assert!(!reservoir.converged());
    let (next_state, changes) = compute_step(&reservoir);
    assert_eq!(reservoir.run(next_state, &changes), Ok(()));
    assert!(!reservoir.converged());
    let (next_state, changes) = compute_step(&reservoir);
    assert_eq!(reservoir.run(next_state, &changes), Ok(()));
    assert!(reservoir.converged());
    assert_all_zero(&reservoir);
}

#[test]
fn readout_of_a_zero_matrix_is_zero() {
    let mut reservoir = Reservoir::new(5, 3, 4);
    let state = vec![0.3f64.to_bits(), (-0.9f64).to_bits(), 0.5f64.to_bits(), 1e-7f64.to_bits()];
    assert_eq!(reservoir.run(state.clone(), &state), Ok(()));
    let output = compute_readout(&reservoir);
    assert_eq!(output.len(), 3);
    assert!(output.iter().all(|value| value.to_bits() == 0));
}

#[test]
fn a_computed_state_lies_between_minus_one_and_one() {
    let mut reservoir = Reservoir::new(3, 2, 4);
    let far = vec![40.0f64.to_bits(), (-40.0f64).to_bits(), 0.5f64.to_bits(), 0];
    assert_eq!(reservoir.run(far.clone(), &far), Ok(()));
    let (next_state, changes) = compute_step(&reservoir);
    assert!(next_state.iter().all(|bits| f64::from_bits(*bits).abs() < 1.0));
    assert_eq!(reservoir.run(next_state, &changes), Ok(()));
    assert!(reservoir.state().iter().all(|bits| f64::from_bits(*bits).abs() < 1.0));
    assert!(!reservoir.converged());
}
