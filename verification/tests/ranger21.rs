use acyclib::optimiser::ranger21::{
    Ranger21, Ranger21Action, Ranger21Buffer, Ranger21Params, Ranger21Shapes, Ratio,
};
use acyclib::optimiser::{MatrixShape, OptimiserState};

fn value(ratio: Ratio) -> f32 {
    ratio.numerator as f32 / ratio.denominator as f32
}

fn default_params() -> Ranger21Params<f32> {
    let params: Ranger21Params<Ratio> = Default::default();
    Ranger21Params {
        decay: value(params.decay),
        beta1: value(params.beta1),
        beta2: value(params.beta2),
        eps: value(params.eps),
        alpha: value(params.alpha),
        lookahead_mergetime: params.lookahead_mergetime,
        clip: params.clip.map(|(min, max)| (value(min), value(max))),
    }
}

fn new_state<F: Copy>(size: usize, params: Ranger21Params<F>) -> Ranger21<F> {
    let allocated: Result<(), ()> = Ok(());
    Ranger21::new(size, params, allocated).ok().unwrap()
}

/// A state together with its buffers in memory.
struct Cpu {
    state: Ranger21<f32>,
    momentum: Vec<f32>,
    neg_momentum: Vec<f32>,
    velocity: Vec<f32>,
    slow: Vec<f32>,
}

impl Cpu {
    fn new(size: usize, params: Ranger21Params<f32>) -> Self {
        Cpu {
            state: new_state(size, params),
            momentum: vec![0.0; size],
            neg_momentum: vec![0.0; size],
            velocity: vec![0.0; size],
            slow: vec![0.0; size],
        }
    }

    fn update(&mut self, weights: &mut Vec<f32>, grads: &[f32], factor: f32, rate: f32) {
        let shape = |values: &Vec<f32>| MatrixShape { size: values.len(), batch_size: None };
        let shapes = Ranger21Shapes {
            weights: shape(weights),
            momentum: shape(&self.momentum),
            neg_momentum: shape(&self.neg_momentum),
            velocity: shape(&self.velocity),
        };
        assert!(shapes.check());
        assert_eq!(shapes.weights.size, self.state.size);
        let mut action = self.state.update(&shapes);
        while action != Ranger21Action::Finished {
            self.perform(action, weights, grads, factor, rate);
            let outcome: Result<(), ()> = Ok(());
            action = self.state.resume(action, outcome).unwrap();
        }
    }

    fn perform(
        &mut self,
        action: Ranger21Action,
        weights: &mut Vec<f32>,
        grads: &[f32],
        factor: f32,
        rate: f32,
    ) {
        match action {
            Ranger21Action::SeedSlow | Ranger21Action::StoreSlow => self.slow = weights.clone(),
            Ranger21Action::Adam { step, momentum } => {
                let params = self.state.params;
                let step = step as f32;
                let correction1 = 1.0 - params.beta1.powf(step);
                let correction2 = 1.0 - params.beta2.powf(step);
                let norm = ((1.0 + params.beta2).powi(2) + params.beta2.powi(2)).sqrt();
                let rate = rate * correction2.sqrt() / (correction1 * norm);
                let eps = params.eps * correction2.sqrt();
                let beta1 = params.beta1 * params.beta1;
                let decay = 1.0 - params.decay * rate;
                let momentum = match momentum {
                    Ranger21Buffer::Momentum => &mut self.momentum,
                    Ranger21Buffer::NegMomentum => &mut self.neg_momentum,
                    other => panic!("no momentum: {other:?}"),
                };
                for i in 0..weights.len() {
                    let grad = factor * grads[i];
                    momentum[i] = beta1 * momentum[i] + (1.0 - beta1) * grad;
                    self.velocity[i] =
                        params.beta2 * self.velocity[i] + (1.0 - params.beta2) * grad * grad;
                    weights[i] = weights[i] * decay
                        - rate * momentum[i] / (self.velocity[i].sqrt() + eps);
                    if let Some((min, max)) = params.clip {
                        weights[i] = weights[i].clamp(min, max);
                    }
                }
            }
            Ranger21Action::Blend => {
                let alpha = 1.0 - self.state.params.alpha;
                for i in 0..weights.len() {
                    weights[i] = (1.0 - alpha) * weights[i] + alpha * self.slow[i];
                }
            }
            Ranger21Action::Finished => {}
        }
    }
}

fn reference_ranger21_update(
    weight: f32,
    grad: f32,
    step: usize,
    learning_rate: f32,
    params: Ranger21Params<f32>,
) -> f32 {
    let beta1_sq = params.beta1 * params.beta1;
    let momentum = (1.0 - beta1_sq) * grad;
    let velocity = (1.0 - params.beta2) * grad * grad;
    let bias_correction1 = 1.0 - params.beta1.powi(step as i32);
    let bias_correction2 = 1.0 - params.beta2.powi(step as i32);
    let noise_norm = ((1.0f32 + params.beta2).powi(2) + params.beta2.powi(2)).sqrt();
    let denom = (velocity / bias_correction2).sqrt() + params.eps;
    weight - learning_rate * momentum / (bias_correction1 * noise_norm * denom)
}

fn reference_ranger21_pnm_zero_update(
    weight: f32,
    grad: f32,
    step: usize,
    learning_rate: f32,
    params: Ranger21Params<f32>,
    momentum: &mut f32,
    velocity: &mut f32,
) -> f32 {
    let beta1_sq = params.beta1 * params.beta1;
    *momentum = beta1_sq * *momentum + (1.0 - beta1_sq) * grad;
    *velocity = params.beta2 * *velocity + (1.0 - params.beta2) * grad * grad;

    let bias_correction1 = 1.0 - params.beta1.powi(step as i32);
    let bias_correction2 = 1.0 - params.beta2.powi(step as i32);
    let noise_norm = ((1.0f32 + params.beta2).powi(2) + params.beta2.powi(2)).sqrt();
    let denom = (*velocity / bias_correction2).sqrt() + params.eps;
    weight - learning_rate * *momentum / (bias_correction1 * noise_norm * denom)
}

#[test]
fn ranger21_first_step_matches_nnue_pytorch_adamw_pnm_zero() {
    let mut weights = vec![1.0, -2.0];
    let grads = [0.5, -0.25];

    let params = Ranger21Params { clip: None, ..default_params() };
    let mut optimiser = Cpu::new(2, params);
    optimiser.update(&mut weights, &grads, 1.0, 0.001);

    let expected = [
        reference_ranger21_update(1.0, 0.5, 1, 0.001, params),
        reference_ranger21_update(-2.0, -0.25, 1, 0.001, params),
    ];

    for (actual, expected) in weights.iter().zip(expected) {
        assert!((actual - expected).abs() < 1.0e-7, "{actual} != {expected}");
    }
}

#[test]
fn ranger21_lookahead_cache_starts_from_initial_weights() {
    let mut weights = vec![1.0, -2.0];
    let grads = [0.0, 0.0];

    let params = Ranger21Params { clip: None, ..default_params() };
    let mut optimiser = Cpu::new(2, params);
    for _ in 0..params.lookahead_mergetime {
        optimiser.update(&mut weights, &grads, 1.0, 0.001);
    }

    assert_eq!(weights, vec![1.0, -2.0]);
}

#[test]
fn ranger21_second_step_uses_alternating_pnm_buffers() {
    let mut weights = vec![1.0];
    let grads = [0.5];

    let params = Ranger21Params { clip: None, ..default_params() };
    let mut optimiser = Cpu::new(1, params);
    optimiser.update(&mut weights, &grads, 1.0, 0.001);
    optimiser.update(&mut weights, &grads, 1.0, 0.001);

    let mut pos_momentum = 0.0;
    let mut neg_momentum = 0.0;
    let mut velocity = 0.0;
    let weight_after_step1 = reference_ranger21_pnm_zero_update(
        1.0,
        0.5,
        1,
        0.001,
        params,
        &mut pos_momentum,
        &mut velocity,
    );
    let expected = reference_ranger21_pnm_zero_update(
        weight_after_step1,
        0.5,
        2,
        0.001,
        params,
        &mut neg_momentum,
        &mut velocity,
    );
    let actual = weights[0];

    assert!((actual - expected).abs() < 1.0e-7, "{actual} != {expected}");
}

#[test]
fn default_parameters() {
    let params = default_params();
    assert_eq!(params.decay, 0.0);
    assert_eq!(params.beta1, 0.9);
    assert_eq!(params.beta2, 0.999);
    assert_eq!(params.eps, 1.0e-7);
    assert_eq!(params.alpha, 0.5);
    assert_eq!(params.lookahead_mergetime, 5);
    assert_eq!(params.clip, None);
}

fn plain(lookahead_mergetime: usize) -> Ranger21Params<u8> {
    Ranger21Params {
        decay: 0,
        beta1: 1,
        beta2: 2,
        eps: 3,
        alpha: 4,
        lookahead_mergetime,
        clip: None,
    }
}

fn even_shapes(size: usize) -> Ranger21Shapes {
    let shape = MatrixShape { size, batch_size: None };
    Ranger21Shapes { weights: shape, momentum: shape, neg_momentum: shape, velocity: shape }
}

fn work_of_update(state: &mut Ranger21<u8>) -> Vec<Ranger21Action> {
    let mut work = vec![];
    let mut action = state.update(&even_shapes(state.size));
    while action != Ranger21Action::Finished {
        work.push(action);
        let outcome: Result<(), ()> = Ok(());
        action = state.resume(action, outcome).unwrap();
    }
    work
}

#[test]
fn updates_take_turns_and_merge_when_a_round_is_full() {
    let mut state = new_state(4, plain(3));
    let pos = Ranger21Buffer::Momentum;
    let neg = Ranger21Buffer::NegMomentum;
    assert_eq!(
        work_of_update(&mut state),
        vec![Ranger21Action::SeedSlow, Ranger21Action::Adam { step: 1, momentum: pos }]
    );
    assert_eq!(
        work_of_update(&mut state),
        vec![Ranger21Action::Adam { step: 2, momentum: neg }]
    );
    assert_eq!((state.step, state.lookahead_step), (2, 2));
    assert_eq!(
        work_of_update(&mut state),
        vec![
            Ranger21Action::Adam { step: 3, momentum: pos },
            Ranger21Action::Blend,
            Ranger21Action::StoreSlow,
        ]
    );
    assert_eq!((state.step, state.lookahead_step), (3, 0));
    assert_eq!(
        work_of_update(&mut state),
        vec![Ranger21Action::Adam { step: 4, momentum: neg }]
    );
}

#[test]
fn each_update_merges_where_a_round_has_no_updates() {
    let mut state = new_state(4, plain(0));
    for _ in 0..3 {
        let work = work_of_update(&mut state);
        assert!(work.contains(&Ranger21Action::Blend));
        assert_eq!(state.lookahead_step, 0);
    }
}

#[test]
fn a_state_without_buffers_is_not_made() {
    assert!(matches!(Ranger21::new(4, plain(1), Err("full")), Err("full")));
    let state = new_state(4, plain(1));
    assert_eq!((state.size, state.step, state.lookahead_step), (4, 0, 0));
    assert!(!state.slow_initialised);
    assert_eq!(state.params.eps, 3);
}

#[test]
fn an_error_ends_an_update_where_it_is() {
    let mut state = new_state(4, plain(1));
    let action = state.update(&even_shapes(4));
    assert_eq!(action, Ranger21Action::SeedSlow);
    assert_eq!(state.resume(action, Err("copy")), Err("copy"));
    assert_eq!((state.step, state.lookahead_step, state.slow_initialised), (0, 0, false));

    let action = state.update(&even_shapes(4));
    let action = state.resume(action, Ok::<(), &str>(())).unwrap();
    assert_eq!(state.resume(action, Err("adam")), Err("adam"));
    assert_eq!((state.step, state.lookahead_step, state.slow_initialised), (1, 0, true));

    let action = state.update(&even_shapes(4));
    assert_eq!(
        action,
        Ranger21Action::Adam { step: 2, momentum: Ranger21Buffer::NegMomentum }
    );
    let action = state.resume(action, Ok::<(), &str>(())).unwrap();
    assert_eq!(state.resume(action, Err("lerp")), Err("lerp"));
    assert_eq!((state.step, state.lookahead_step), (2, 0));
}

#[test]
fn a_reset_state_is_as_good_as_new() {
    let mut state = new_state(4, plain(2));
    work_of_update(&mut state);
    assert_eq!(
        state.reset(),
        vec![
            Ranger21Buffer::Momentum,
            Ranger21Buffer::NegMomentum,
            Ranger21Buffer::Velocity,
            Ranger21Buffer::Slow,
        ]
    );
    assert_eq!((state.size, state.step, state.lookahead_step), (4, 0, 0));
    assert!(!state.slow_initialised);
    assert_eq!(work_of_update(&mut state)[0], Ranger21Action::SeedSlow);
}

#[test]
fn new_parameters_count_from_the_next_update_on() {
    let mut state = new_state(4, plain(5));
    work_of_update(&mut state);
    state.set_params(plain(2));
    assert_eq!(state.step, 1);
    assert!(work_of_update(&mut state).contains(&Ranger21Action::Blend));
}

#[test]
fn shapes_have_to_agree() {
    assert!(even_shapes(3).check());
    let other = MatrixShape { size: 4, batch_size: None };
    let batched = MatrixShape { size: 3, batch_size: Some(1) };
    for shape in [other, batched] {
        assert!(!Ranger21Shapes { weights: shape, ..even_shapes(3) }.check());
        assert!(!Ranger21Shapes { momentum: shape, ..even_shapes(3) }.check());
        assert!(!Ranger21Shapes { neg_momentum: shape, ..even_shapes(3) }.check());
        assert!(!Ranger21Shapes { velocity: shape, ..even_shapes(3) }.check());
    }
}
