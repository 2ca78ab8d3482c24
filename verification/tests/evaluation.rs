use msom::{Action, LatticeError, MSOM};

fn bits(values: &[f32]) -> Vec<u32> {
    values.iter().map(|value| value.to_bits()).collect()
}

fn floats(patterns: &[u32]) -> Vec<f32> {
    patterns.iter().map(|&pattern| f32::from_bits(pattern)).collect()
}

fn squared_distance(target: &[f32], weights: &[f32]) -> f32 {
    target.iter().zip(weights.iter()).map(|(t, w)| (t - w) * (t - w)).sum()
}

fn evaluate(map: &MSOM, sample: &[f32], a: f32, b: f32, gamma: f32) -> (usize, usize) {
    let d = map.map_input_size();
    let som = floats(map.som());
    let context = floats(map.context());
    let mut walk = map.evaluate(sample.len());
    let mut a = a;
    while let Action::Score { start, .. } = walk.action() {
        a *= 0.99;
        let previous_w = floats(walk.previous_w());
        let previous_c = floats(walk.previous_c());
        let target: Vec<f32> = previous_w
            .iter()
            .zip(previous_c.iter())
            .map(|(w, c)| gamma * w + (1.0 - gamma) * c)
            .collect();
        let scores: Vec<f32> = (0..map.n() * map.m())
            .map(|unit| {
                let lane = unit * d..unit * d + d;
                a * squared_distance(&sample[start..start + d], &som[lane.clone()])
                    + b * squared_distance(&target, &context[lane])
            })
            .collect();
        walk.step(&bits(&scores)).unwrap();
    }
    walk.unit()
}

fn lattice() -> MSOM {
    let mut map = MSOM::new(2, 2, 1).unwrap();
    map.store(bits(&[0.0, 1.0, 2.0, 3.0]), bits(&[0.0, 10.0, 20.0, 30.0])).unwrap();
    map
}

#[test]
fn evaluation_asks_for_each_whole_chunk() {
    let map = MSOM::new(2, 2, 2).unwrap();
    let mut walk = map.evaluate(5);
    assert_eq!(walk.action(), Action::Score { epoch: 0, sample: 0, chunk: 0, start: 0 });
    assert_eq!(
        walk.step(&bits(&[1.0, 1.0, 0.0, 1.0])),
        Ok(Action::Score { epoch: 0, sample: 0, chunk: 1, start: 2 })
    );
    assert_eq!(walk.unit(), (1, 0));
    assert_eq!(walk.step(&bits(&[1.0, 0.5, 2.0, 0.5])), Ok(Action::Done));
    assert_eq!(walk.unit(), (0, 1));
    assert_eq!(walk.action(), Action::Done);
}

#[test]
fn evaluation_of_a_sample_without_a_chunk() {
    let map = lattice();
    let walk = map.evaluate(0);
    assert_eq!(walk.action(), Action::Done);
    assert_eq!(walk.unit(), (0, 0));
    assert_eq!(evaluate(&map, &[], 1.0, 1.0, 0.5), (0, 0));
    let wide = MSOM::new(2, 2, 3).unwrap();
    assert_eq!(wide.evaluate(2).action(), Action::Done);
    assert_eq!(evaluate(&wide, &[1.0, 2.0], 1.0, 1.0, 0.5), (0, 0));
}

#[test]
fn evaluation_carries_the_weights_of_the_winner() {
    let map = lattice();
    let mut walk = map.evaluate(3);
    assert_eq!(walk.previous_w(), &bits(&[0.0]));
    assert_eq!(walk.previous_c(), &bits(&[0.0]));
    walk.step(&bits(&[5.0, 4.0, 3.0, 3.0])).unwrap();
    assert_eq!(walk.unit(), (1, 0));
    assert_eq!(walk.previous_w(), &bits(&[2.0]));
    assert_eq!(walk.previous_c(), &bits(&[20.0]));
    walk.step(&bits(&[5.0, 0.0, 3.0, 3.0])).unwrap();
    assert_eq!(walk.unit(), (0, 1));
    assert_eq!(walk.previous_w(), &bits(&[1.0]));
    assert_eq!(walk.previous_c(), &bits(&[10.0]));
}

#[test]
fn evaluation_returns_the_winner_of_the_last_chunk() {
    let map = lattice();
    assert_eq!(evaluate(&map, &[3.0], 1.0, 0.0, 0.0), (1, 1));
    assert_eq!(evaluate(&map, &[3.0, 0.9], 1.0, 0.0, 0.0), (0, 1));
    assert_eq!(evaluate(&map, &[3.0, 0.9, 2.2], 1.0, 0.0, 0.0), (1, 0));
    assert_eq!(evaluate(&map, &[0.9, 2.2, 3.0], 1.0, 0.0, 0.0), (1, 1));
}

#[test]
fn evaluation_weighs_the_context_of_earlier_chunks() {
    let mut map = MSOM::new(2, 2, 1).unwrap();
    map.store(bits(&[0.0, 1.0, 2.0, 3.0]), bits(&[3.0, 0.0, 0.0, 1.0])).unwrap();
    // The first chunk falls on unit (1, 0), whose current weight is 2 and whose context
    // weight is 0.
    assert_eq!(evaluate(&map, &[3.0], 1.0, 1.0, 1.0), (1, 0));
    // With gamma 1 the second chunk is held against the context target 2, which only
    // unit (0, 0) is near; with gamma 0 against the target 0, where unit (0, 1) sits.
    assert_eq!(evaluate(&map, &[3.0, 1.0], 1.0, 1.0, 1.0), (0, 0));
    assert_eq!(evaluate(&map, &[3.0, 1.0], 1.0, 1.0, 0.0), (0, 1));
    // Without the context term the second chunk alone decides.
    assert_eq!(evaluate(&map, &[3.0, 1.0], 1.0, 0.0, 1.0), (0, 1));
    assert_eq!(evaluate(&map, &[3.0, 0.0], 1.0, 0.0, 1.0), (0, 0));
}

#[test]
fn evaluating_twice_gives_the_same_unit() {
    let map = lattice();
    let som = map.som().clone();
    let context = map.context().clone();
    let sample = [2.6, 0.1, 1.4, 2.9, 0.6];
    let first = evaluate(&map, &sample, 1.0, 0.5, 0.5);
    let second = evaluate(&map, &sample, 1.0, 0.5, 0.5);
    assert_eq!(first, second);
    assert_eq!(map.som(), &som);
    assert_eq!(map.context(), &context);
}

#[test]
fn evaluation_turns_down_what_it_cannot_take() {
    let map = lattice();
    let mut walk = map.evaluate(1);
    assert_eq!(walk.step(&bits(&[1.0, 2.0, 3.0])), Err(LatticeError::ShapeMismatch));
    assert_eq!(walk.step(&bits(&[1.0, 2.0, f32::NAN, 0.0])), Err(LatticeError::UndefinedOrder));
    assert_eq!(walk.action(), Action::Score { epoch: 0, sample: 0, chunk: 0, start: 0 });
    assert_eq!(walk.unit(), (0, 0));
    assert_eq!(walk.previous_w(), &bits(&[0.0]));
    assert_eq!(walk.step(&bits(&[1.0, 2.0, 0.5, 0.5])), Ok(Action::Done));
    assert_eq!(walk.unit(), (1, 0));
    assert_eq!(walk.step(&bits(&[0.0, 2.0, 0.5, 0.5])), Err(LatticeError::OutOfTurn));
    assert_eq!(walk.unit(), (1, 0));
}

/// Evaluation written out as a loop over the chunks, with the winner found by a plain
/// scan.
fn plain_loop(map: &MSOM, sample: &[f32], a: f32, b: f32, gamma: f32) -> (usize, usize) {
    let d = map.map_input_size();
    let som = floats(map.som());
    let context = floats(map.context());
    let mut previous_w = vec![0.0f32; d];
    let mut previous_c = vec![0.0f32; d];
    let mut a = a;
    let mut winner = 0;
    for chunk in sample.chunks_exact(d) {
        a *= 0.99;
        let target: Vec<f32> = previous_w
            .iter()
            .zip(previous_c.iter())
            .map(|(w, c)| gamma * w + (1.0 - gamma) * c)
            .collect();
        let mut least = f32::INFINITY;
        for unit in 0..map.n() * map.m() {
            let lane = unit * d..unit * d + d;
            let err = a * squared_distance(chunk, &som[lane.clone()])
                + b * squared_distance(&target, &context[lane]);
            if unit == 0 || err < least {
                least = err;
                winner = unit;
            }
        }
        previous_w = som[winner * d..winner * d + d].to_vec();
        previous_c = context[winner * d..winner * d + d].to_vec();
    }
    (winner / map.m(), winner % map.m())
}

#[test]
fn the_evaluation_does_what_a_plain_loop_does() {
    let mut map = MSOM::new(3, 2, 2).unwrap();
    let som = [0.0, 0.5, 1.0, -1.0, 2.0, 2.0, -0.5, 0.25, 3.0, 1.0, 0.75, -2.0];
    let context = [1.0, 1.0, 0.0, 0.5, -1.0, 2.0, 0.5, 0.5, 2.0, -2.0, 0.0, 0.0];
    map.store(bits(&som), bits(&context)).unwrap();
    let mut seed: u32 = 7;
    for round in 0..200 {
        let mut sample = Vec::new();
        for _ in 0..round % 9 {
            seed = seed.wrapping_mul(1664525).wrapping_add(1013904223);
            sample.push(((seed >> 20) % 13) as f32 * 0.5 - 3.0);
        }
        for &(a, b, gamma) in [(1.0, 1.0, 0.5), (1.0, 0.0, 0.0), (0.5, 2.0, 1.0)].iter() {
            assert_eq!(evaluate(&map, &sample, a, b, gamma), plain_loop(&map, &sample, a, b, gamma));
        }
    }
}
