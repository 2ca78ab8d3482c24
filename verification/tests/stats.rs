use msom::{chunk_count, divisor, padded_len, padding, LatticeError, MSOM};

#[test]
fn counts_fill_a_grid_of_the_shape_of_the_lattice() {
    let map = MSOM::new(2, 3, 4).unwrap();
    let assignments = vec![(0, 1), (1, 2), (0, 1), (0, 0), (1, 2), (0, 1)];
    let grid = map.reception_field_count(&assignments).unwrap();
    assert_eq!(grid.shape(), (2, 3));
    let found: Vec<Vec<usize>> =
        (0..2).map(|row| (0..3).map(|col| grid.get(row, col).unwrap()).collect()).collect();
    assert_eq!(found, vec![vec![1, 3, 0], vec![0, 0, 2]]);
    assert_eq!(grid.get(2, 0), None);
    assert_eq!(grid.get(0, 3), None);
}

#[test]
fn counts_add_up_to_the_number_of_samples() {
    let map = MSOM::new(3, 5, 1).unwrap();
    let mut seed: u32 = 99;
    let mut assignments = Vec::new();
    for size in 0..40 {
        let grid = map.reception_field_count(&assignments).unwrap();
        let mut total = 0;
        for row in 0..3 {
            for col in 0..5 {
                total += grid.get(row, col).unwrap();
            }
        }
        assert_eq!(total, size);
        seed = seed.wrapping_mul(1664525).wrapping_add(1013904223);
        assignments.push((((seed >> 16) % 3) as usize, ((seed >> 8) % 5) as usize));
    }
}

#[test]
fn counts_of_no_samples_are_zero() {
    let map = MSOM::new(2, 2, 1).unwrap();
    let grid = map.reception_field_count(&Vec::new()).unwrap();
    assert_eq!(grid.shape(), (2, 2));
    for row in 0..2 {
        for col in 0..2 {
            assert_eq!(grid.get(row, col), Some(0));
        }
    }
}

#[test]
fn counts_turn_down_a_unit_outside_the_lattice() {
    let map = MSOM::new(2, 3, 4).unwrap();
    assert_eq!(
        map.reception_field_count(&vec![(0, 0), (2, 0)]).err(),
        Some(LatticeError::UnitOutOfRange)
    );
    assert_eq!(
        map.reception_field_count(&vec![(0, 3)]).err(),
        Some(LatticeError::UnitOutOfRange)
    );
}

#[test]
fn members_list_the_samples_of_each_unit_in_order() {
    let map = MSOM::new(2, 3, 4).unwrap();
    let assignments = vec![(0, 1), (1, 2), (0, 1), (0, 0), (1, 2), (0, 1)];
    assert_eq!(
        map.members(&assignments),
        Ok(vec![vec![3], vec![0, 2, 5], vec![], vec![], vec![], vec![1, 4]])
    );
    assert_eq!(map.members(&Vec::new()), Ok(vec![Vec::new(); 6]));
}

#[test]
fn members_turn_down_a_unit_outside_the_lattice() {
    let map = MSOM::new(2, 3, 4).unwrap();
    assert_eq!(map.members(&vec![(1, 1), (1, 3)]), Err(LatticeError::UnitOutOfRange));
    assert_eq!(map.members(&vec![(2, 2)]), Err(LatticeError::UnitOutOfRange));
}

#[test]
fn members_and_counts_agree() {
    let map = MSOM::new(2, 2, 1).unwrap();
    let assignments = vec![(1, 1), (0, 0), (1, 1), (1, 0), (1, 1)];
    let grid = map.reception_field_count(&assignments).unwrap();
    let groups = map.members(&assignments).unwrap();
    for row in 0..2 {
        for col in 0..2 {
            assert_eq!(grid.get(row, col), Some(groups[row * 2 + col].len()));
        }
    }
}

#[test]
fn chunks_are_whole_windows() {
    assert_eq!(chunk_count(0, 3), 0);
    assert_eq!(chunk_count(2, 3), 0);
    assert_eq!(chunk_count(3, 3), 1);
    assert_eq!(chunk_count(8, 3), 2);
    assert_eq!(chunk_count(9, 3), 3);
    assert_eq!(chunk_count(5, 1), 5);
    assert_eq!(chunk_count(5, 0), 0);
}

#[test]
fn vectors_are_padded_to_the_longest() {
    assert_eq!(padded_len(&vec![3, 7, 2, 7, 5]), 7);
    assert_eq!(padded_len(&vec![4]), 4);
    assert_eq!(padded_len(&vec![0, 0]), 0);
    assert_eq!(padded_len(&Vec::new()), 0);
}

#[test]
fn the_shorter_vector_grows() {
    assert_eq!(padding(0, 5), (5, 0));
    assert_eq!(padding(5, 3), (0, 2));
    assert_eq!(padding(4, 4), (0, 0));
    assert_eq!(padding(0, 0), (0, 0));
}

#[test]
fn an_empty_unit_divides_by_one() {
    assert_eq!(divisor(0), 1);
    assert_eq!(divisor(1), 1);
    assert_eq!(divisor(2), 2);
    assert_eq!(divisor(usize::MAX), usize::MAX);
}

#[test]
fn places_run_row_by_row() {
    let map = MSOM::new(2, 3, 4).unwrap();
    assert_eq!(map.place(0, 0), Ok(0));
    assert_eq!(map.place(0, 2), Ok(2));
    assert_eq!(map.place(1, 0), Ok(3));
    assert_eq!(map.place(1, 2), Ok(5));
    assert_eq!(map.place(2, 0), Err(LatticeError::UnitOutOfRange));
    assert_eq!(map.place(1, 3), Err(LatticeError::UnitOutOfRange));
}
