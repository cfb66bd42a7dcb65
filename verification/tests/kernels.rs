use bullet::kernels::{
    can_pair, concat_rows, pairwise_partners, place_of, slice_rows, spread_rows,
};

#[test]
fn concat_rows_stacks_each_column() {
    // Two columns: upper has 2 rows, lower has 3.
    let upper = [1.0f32, 2.0, 10.0, 20.0];
    let lower = [3.0f32, 4.0, 5.0, 30.0, 40.0, 50.0];
    assert_eq!(
        concat_rows(&upper, 2, &lower, 3, 2),
        vec![1.0, 2.0, 3.0, 4.0, 5.0, 10.0, 20.0, 30.0, 40.0, 50.0]
    );
}

#[test]
fn concat_rows_of_one_column_appends() {
    let upper = [1u8, 2, 3];
    let lower = [4u8];
    assert_eq!(concat_rows(&upper, 3, &lower, 1, 1), vec![1, 2, 3, 4]);
}

#[test]
fn concat_rows_with_an_empty_operand() {
    let upper: [f32; 0] = [];
    let lower = [7.0f32, 8.0];
    assert_eq!(concat_rows(&upper, 0, &lower, 1, 2), vec![7.0, 8.0]);
    assert_eq!(concat_rows(&lower, 1, &upper, 0, 2), vec![7.0, 8.0]);
    assert_eq!(concat_rows(&upper, 5, &upper, 9, 0), Vec::<f32>::new());
}

#[test]
fn slice_rows_keeps_the_range_of_each_column() {
    // Three columns of four rows.
    let input = [0, 1, 2, 3, 10, 11, 12, 13, 20, 21, 22, 23];
    assert_eq!(slice_rows(&input, 4, 1, 3, 3), vec![1, 2, 11, 12, 21, 22]);
    assert_eq!(slice_rows(&input, 4, 0, 4, 3), input.to_vec());
    assert_eq!(slice_rows(&input, 4, 3, 4, 3), vec![3, 13, 23]);
    assert_eq!(slice_rows(&input, 4, 2, 2, 3), Vec::<i32>::new());
}

#[test]
fn slice_rows_of_concat_rows_recovers_the_operands() {
    let a = [1.5f32, -2.0, 0.25, 8.0, 9.0, 10.0];
    let b = [100.0f32, 200.0];
    let joined = concat_rows(&a, 3, &b, 1, 2);
    assert_eq!(joined, vec![1.5, -2.0, 0.25, 100.0, 8.0, 9.0, 10.0, 200.0]);
    assert_eq!(slice_rows(&joined, 4, 0, 3, 2), a.to_vec());
    assert_eq!(slice_rows(&joined, 4, 3, 4, 2), b.to_vec());
}

#[test]
fn spread_rows_fills_the_rows_outside_the_range() {
    let part = [1.0f32, 2.0, 3.0, 4.0];
    assert_eq!(
        spread_rows(&part, 5, 1, 3, 2, 0.0),
        vec![0.0, 1.0, 2.0, 0.0, 0.0, 0.0, 3.0, 4.0, 0.0, 0.0]
    );
    assert_eq!(spread_rows(&part, 2, 0, 2, 2, 0.0), part.to_vec());
    let nothing: [f32; 0] = [];
    assert_eq!(spread_rows(&nothing, 2, 1, 1, 2, 9.0), vec![9.0, 9.0, 9.0, 9.0]);
}

#[test]
fn slice_rows_of_spread_rows_recovers_the_part() {
    let part = [5, 6, 7, 8, 9, 10];
    let spread = spread_rows(&part, 7, 2, 5, 2, -1);
    assert_eq!(spread, vec![-1, -1, 5, 6, 7, -1, -1, -1, -1, 8, 9, 10, -1, -1]);
    assert_eq!(slice_rows(&spread, 7, 2, 5, 2), part.to_vec());
}

#[test]
fn plain_pairing_multiplies_the_upper_half_with_the_lower_half() {
    let partners: Vec<(usize, usize)> = (0..4).map(|i| pairwise_partners(8, false, i)).collect();
    assert_eq!(partners, vec![(0, 4), (1, 5), (2, 6), (3, 7)]);
    assert_eq!(pairwise_partners(2, false, 0), (0, 1));
    assert_eq!(pairwise_partners(6, false, 2), (2, 5));
}

#[test]
fn pairing_after_a_dual_affine_map_stays_within_each_accumulator() {
    let partners: Vec<(usize, usize)> = (0..4).map(|i| pairwise_partners(8, true, i)).collect();
    assert_eq!(partners, vec![(0, 2), (1, 3), (4, 6), (5, 7)]);
    assert_eq!(pairwise_partners(4, true, 0), (0, 1));
    assert_eq!(pairwise_partners(4, true, 1), (2, 3));
    let partners: Vec<(usize, usize)> = (0..6).map(|i| pairwise_partners(12, true, i)).collect();
    assert_eq!(partners, vec![(0, 3), (1, 4), (2, 5), (6, 9), (7, 10), (8, 11)]);
}

#[test]
fn every_row_has_exactly_one_partner() {
    for post_dual in [false, true] {
        for rows in [0usize, 4, 8, 12, 16] {
            let mut used = vec![0; rows];
            for i in 0..rows / 2 {
                let (first, second) = pairwise_partners(rows, post_dual, i);
                assert!(first < second && second < rows);
                used[first] += 1;
                used[second] += 1;
            }
            assert!(used.iter().all(|n| *n == 1));
        }
    }
}

#[test]
fn pairing_needs_even_halves() {
    assert!(can_pair(0, false));
    assert!(can_pair(6, false));
    assert!(!can_pair(7, false));
    assert!(can_pair(0, true));
    assert!(can_pair(8, true));
    assert!(!can_pair(6, true));
    assert!(!can_pair(9, true));
}

#[test]
fn place_of_counts_column_after_column() {
    assert_eq!(place_of(3, 4, 0, 0), 0);
    assert_eq!(place_of(3, 4, 2, 0), 2);
    assert_eq!(place_of(3, 4, 0, 1), 3);
    assert_eq!(place_of(3, 4, 2, 3), 11);
    assert_eq!(place_of(1, usize::MAX, 0, usize::MAX - 1), usize::MAX - 1);
}
