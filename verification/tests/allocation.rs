use bulls_n_cows::allocation::{allocate_kids, Input};

#[test]
fn serves_cheapest_homes_first() {
    // ratios: 10/1 = 10, 4/2 = 2, 9/3 = 3; order is 2 kids, 3 kids, 1 kid
    let input = Input { kids: vec![1, 2, 3], weight: vec![10, 4, 9], capacity: 13 };
    let out = allocate_kids(&input);
    assert_eq!(out.kids, 5);
}

#[test]
fn skips_empty_homes_and_ties_keep_list_order() {
    // both full homes have ratio 2; the stable sort keeps the lighter first
    let input = Input { kids: vec![2, 0, 2], weight: vec![4, 7, 5], capacity: 6 };
    let out = allocate_kids(&input);
    assert_eq!(out.kids, 2);
}

#[test]
fn nothing_fits_nothing_served() {
    let input = Input { kids: vec![3], weight: vec![5], capacity: 4 };
    assert_eq!(allocate_kids(&input).kids, 0);
}

#[test]
fn everything_fits_everyone_served() {
    let input = Input { kids: vec![1, 2, 3], weight: vec![1, 1, 1], capacity: 100 };
    assert_eq!(allocate_kids(&input).kids, 6);
}
