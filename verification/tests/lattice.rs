use meshgridrs::{meshgrid, Indexing};
use msom::{argmin, key_of, ConfigError, LatticeError, MSOM};
use ndarray::{Array, Array1, Array2, Axis};
use ndarray_stats::QuantileExt;

fn bits(values: &[f32]) -> Vec<u32> {
    values.iter().map(|value| value.to_bits()).collect()
}

#[test]
fn new_lattice_is_all_zero() {
    let map = MSOM::new(3, 4, 5).unwrap();
    assert_eq!(map.n(), 3);
    assert_eq!(map.m(), 4);
    assert_eq!(map.map_input_size(), 5);
    assert_eq!(map.som().len(), 60);
    assert_eq!(map.context().len(), 60);
    assert!(map.som().iter().all(|&pattern| pattern == 0 && f32::from_bits(pattern) == 0.0));
    assert!(map.context().iter().all(|&pattern| pattern == 0));
}

#[test]
fn new_lattice_of_one_unit() {
    let map = MSOM::new(1, 1, 1).unwrap();
    assert_eq!(map.som(), &vec![0u32]);
    assert_eq!(map.context(), &vec![0u32]);
}

#[test]
fn new_rejects_empty_dimensions() {
    assert_eq!(MSOM::new(0, 4, 5).err(), Some(ConfigError::ZeroRows));
    assert_eq!(MSOM::new(3, 0, 5).err(), Some(ConfigError::ZeroColumns));
    assert_eq!(MSOM::new(3, 4, 0).err(), Some(ConfigError::ZeroWidth));
    assert_eq!(MSOM::new(0, 0, 0).err(), Some(ConfigError::ZeroRows));
    assert_eq!(MSOM::new(2, 0, 0).err(), Some(ConfigError::ZeroColumns));
}

#[test]
fn new_rejects_what_no_array_can_hold() {
    assert_eq!(MSOM::new(usize::MAX, 2, 1).err(), Some(ConfigError::TooLarge));
    assert_eq!(MSOM::new(usize::MAX / 2, 1, 3).err(), Some(ConfigError::TooLarge));
    assert_eq!(MSOM::new(1, 1, usize::MAX).err(), Some(ConfigError::TooLarge));
    assert_eq!(MSOM::new(1, isize::MAX as usize + 1, 1).err(), Some(ConfigError::TooLarge));
}

#[test]
fn key_follows_the_numeric_order() {
    let values = [
        f32::NEG_INFINITY,
        f32::MIN,
        -1.5e10,
        -2.0,
        -1.0,
        -f32::MIN_POSITIVE,
        -1.0e-45,
        -0.0,
        0.0,
        1.0e-45,
        f32::MIN_POSITIVE,
        0.5,
        1.0,
        25.0,
        3.0e38,
        f32::MAX,
        f32::INFINITY,
    ];
    for &a in values.iter() {
        for &b in values.iter() {
            let ka = key_of(a.to_bits()).unwrap();
            let kb = key_of(b.to_bits()).unwrap();
            assert_eq!(ka.partial_cmp(&kb), a.partial_cmp(&b), "{} against {}", a, b);
        }
    }
}

#[test]
fn key_of_exact_values() {
    assert_eq!(key_of(0), Some(0));
    assert_eq!(key_of(0x8000_0000), Some(0));
    assert_eq!(key_of(1.0f32.to_bits()), Some(0x3f80_0000));
    assert_eq!(key_of((-1.0f32).to_bits()), Some(-0x3f80_0000));
    assert_eq!(key_of(f32::INFINITY.to_bits()), Some(0x7f80_0000));
    assert_eq!(key_of(f32::NEG_INFINITY.to_bits()), Some(-0x7f80_0000));
}

#[test]
fn key_of_what_is_no_number() {
    assert_eq!(key_of(f32::NAN.to_bits()), None);
    assert_eq!(key_of(0x7f80_0001), None);
    assert_eq!(key_of(0xffff_ffff), None);
    assert_eq!(key_of(0xff80_0001), None);
}

#[test]
fn argmin_takes_the_first_of_the_least() {
    assert_eq!(argmin(&bits(&[3.0, 1.0, 2.0, 1.0])), Some(1));
    assert_eq!(argmin(&bits(&[0.0, -0.0, 0.0])), Some(0));
    assert_eq!(argmin(&bits(&[-0.0, 0.0])), Some(0));
    assert_eq!(argmin(&bits(&[7.0])), Some(0));
    assert_eq!(argmin(&bits(&[2.0, -3.0, f32::NEG_INFINITY, -3.0])), Some(2));
    assert_eq!(argmin(&bits(&[f32::INFINITY, f32::INFINITY])), Some(0));
}

#[test]
fn argmin_has_no_answer() {
    assert_eq!(argmin(&Vec::new()), None);
    assert_eq!(argmin(&bits(&[1.0, f32::NAN, 0.0])), None);
    assert_eq!(argmin(&bits(&[f32::NAN])), None);
    assert_eq!(argmin(&bits(&[0.0, 1.0, f32::NAN])), None);
}

#[test]
fn winner_is_first_in_row_major_order() {
    let map = MSOM::new(2, 3, 1).unwrap();
    assert_eq!(map.winner(&bits(&[4.0, 2.0, 9.0, 2.0, 5.0, 2.0])), Ok((0, 1)));
    assert_eq!(map.winner(&bits(&[4.0, 3.0, 9.0, 2.0, 5.0, 2.0])), Ok((1, 0)));
    assert_eq!(map.winner(&bits(&[4.0, 3.0, 9.0, 7.0, 5.0, 2.0])), Ok((1, 2)));
}

#[test]
fn winner_of_equal_errors_is_the_first_unit() {
    let map = MSOM::new(4, 5, 3).unwrap();
    assert_eq!(map.winner(&bits(&[0.0; 20])), Ok((0, 0)));
    assert_eq!(map.winner(&bits(&[25.0; 20])), Ok((0, 0)));
    let mut zeros = vec![0.0f32; 20];
    zeros[0] = -0.0;
    zeros[7] = -0.0;
    assert_eq!(map.winner(&bits(&zeros)), Ok((0, 0)));
}

#[test]
fn winner_turns_down_a_wrong_number_of_errors() {
    let map = MSOM::new(2, 3, 1).unwrap();
    assert_eq!(map.winner(&bits(&[1.0; 5])), Err(LatticeError::ShapeMismatch));
    assert_eq!(map.winner(&bits(&[1.0; 7])), Err(LatticeError::ShapeMismatch));
    assert_eq!(map.winner(&Vec::new()), Err(LatticeError::ShapeMismatch));
    assert_eq!(map.winner(&bits(&[f32::NAN; 5])), Err(LatticeError::ShapeMismatch));
}

#[test]
fn winner_turns_down_what_is_no_number() {
    let map = MSOM::new(2, 3, 1).unwrap();
    assert_eq!(
        map.winner(&bits(&[1.0, 2.0, 3.0, 4.0, 5.0, f32::NAN])),
        Err(LatticeError::UndefinedOrder)
    );
    assert_eq!(
        map.winner(&bits(&[f32::NAN, 2.0, 3.0, 4.0, 5.0, 0.0])),
        Err(LatticeError::UndefinedOrder)
    );
}

#[test]
fn winner_agrees_with_the_array_library() {
    let n = 5;
    let m = 7;
    let map = MSOM::new(n, m, 2).unwrap();
    let mut seed: u32 = 12345;
    for round in 0..200 {
        let mut errors = Vec::new();
        for _ in 0..n * m {
            seed = seed.wrapping_mul(1664525).wrapping_add(1013904223);
            let coarse = ((seed >> 24) % 6) as f32;
            errors.push(if round % 2 == 0 { coarse } else { coarse - 2.5 });
        }
        let grid = Array2::from_shape_vec((n, m), errors.clone()).unwrap();
        assert_eq!(map.winner(&bits(&errors)).unwrap(), grid.argmin().unwrap());
    }
}

#[test]
fn neighbourhood_holds_squared_grid_distances() {
    let map = MSOM::new(2, 3, 1).unwrap();
    assert_eq!(map.neighbourhood(0, 0), Ok(vec![0, 1, 4, 1, 2, 5]));
    assert_eq!(map.neighbourhood(1, 2), Ok(vec![5, 2, 1, 4, 1, 0]));
    assert_eq!(map.neighbourhood(0, 1), Ok(vec![1, 0, 1, 2, 1, 2]));
}

#[test]
fn neighbourhood_of_a_unit_outside() {
    let map = MSOM::new(2, 3, 1).unwrap();
    assert_eq!(map.neighbourhood(2, 0), Err(LatticeError::UnitOutOfRange));
    assert_eq!(map.neighbourhood(0, 3), Err(LatticeError::UnitOutOfRange));
    assert_eq!(map.neighbourhood(5, 5), Err(LatticeError::UnitOutOfRange));
}

#[test]
fn neighbourhood_agrees_with_a_coordinate_grid() {
    let n = 6;
    let m = 4;
    let map = MSOM::new(n, m, 1).unwrap();
    let axes: Vec<Array1<f32>> =
        vec![Array::range(0.0, m as f32, 1.0), Array::range(0.0, n as f32, 1.0)];
    let grids = meshgrid(&axes, Indexing::Xy).unwrap();
    let grid = ndarray::stack(Axis(2), &[grids[1].view(), grids[0].view()]).unwrap();
    for row in 0..n {
        for col in 0..m {
            let unit = Array1::from_vec(vec![row as f32, col as f32]);
            let shifted = &grid - &unit;
            let distances = (&shifted * &shifted).sum_axis(Axis(2));
            let expected: Vec<f32> = distances.iter().copied().collect();
            let found: Vec<f32> =
                map.neighbourhood(row, col).unwrap().iter().map(|&d| d as f32).collect();
            assert_eq!(found, expected);
        }
    }
}

#[test]
fn store_replaces_both_arrays() {
    let mut map = MSOM::new(2, 1, 2).unwrap();
    let som = bits(&[1.0, 2.0, 3.0, 4.0]);
    let context = bits(&[-1.0, -2.0, -3.0, -4.0]);
    assert_eq!(map.store(som.clone(), context.clone()), Ok(()));
    assert_eq!(map.som(), &som);
    assert_eq!(map.context(), &context);
    assert_eq!(map.n(), 2);
    assert_eq!(map.m(), 1);
    assert_eq!(map.map_input_size(), 2);
}

#[test]
fn store_turns_down_another_shape() {
    let mut map = MSOM::new(2, 1, 2).unwrap();
    let som = bits(&[1.0, 2.0, 3.0, 4.0]);
    assert_eq!(map.store(som.clone(), bits(&[0.0; 4])), Ok(()));
    assert_eq!(map.store(bits(&[9.0; 3]), bits(&[9.0; 4])), Err(LatticeError::ShapeMismatch));
    assert_eq!(map.store(bits(&[9.0; 4]), bits(&[9.0; 5])), Err(LatticeError::ShapeMismatch));
    assert_eq!(map.store(Vec::new(), Vec::new()), Err(LatticeError::ShapeMismatch));
    assert_eq!(map.som(), &som);
    assert_eq!(map.context(), &bits(&[0.0; 4]));
}

#[test]
fn unit_weights_are_read_in_row_major_order() {
    let mut map = MSOM::new(2, 3, 2).unwrap();
    let som: Vec<u32> = (0..12).collect();
    let context: Vec<u32> = (100..112).collect();
    map.store(som, context).unwrap();
    assert_eq!(map.unit_weights(0, 0), Ok((vec![0, 1], vec![100, 101])));
    assert_eq!(map.unit_weights(0, 2), Ok((vec![4, 5], vec![104, 105])));
    assert_eq!(map.unit_weights(1, 0), Ok((vec![6, 7], vec![106, 107])));
    assert_eq!(map.unit_weights(1, 2), Ok((vec![10, 11], vec![110, 111])));
    assert_eq!(map.unit_weights(2, 0), Err(LatticeError::UnitOutOfRange));
    assert_eq!(map.unit_weights(0, 3), Err(LatticeError::UnitOutOfRange));
}

#[test]
fn key_agrees_with_the_numbers_on_scattered_patterns() {
    let mut seed: u32 = 2024;
    let mut patterns: Vec<u32> = Vec::new();
    for _ in 0..300 {
        seed = seed.wrapping_mul(1664525).wrapping_add(1013904223);
        patterns.push(seed);
        patterns.push(seed >> 9);
        patterns.push(seed | 0x7f80_0000);
    }
    for &a in patterns.iter() {
        assert_eq!(key_of(a).is_none(), f32::from_bits(a).is_nan());
        for &b in patterns.iter().take(60) {
            if let (Some(ka), Some(kb)) = (key_of(a), key_of(b)) {
                assert_eq!(ka.partial_cmp(&kb), f32::from_bits(a).partial_cmp(&f32::from_bits(b)));
            }
        }
    }
}

#[test]
fn a_copy_has_the_same_shape_and_weights() {
    let mut map = MSOM::new(2, 2, 3).unwrap();
    let som: Vec<u32> = (1..13).collect();
    let context: Vec<u32> = (21..33).collect();
    map.store(som.clone(), context.clone()).unwrap();
    let copy = map.clone();
    map.store(vec![0; 12], vec![0; 12]).unwrap();
    assert_eq!((copy.n(), copy.m(), copy.map_input_size()), (2, 2, 3));
    assert_eq!(copy.som(), &som);
    assert_eq!(copy.context(), &context);
}
