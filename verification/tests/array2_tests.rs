use rpeg::array2::Array2;

#[test]
fn col_iter_test() {
    let arr = Array2::from((1..=6).collect(), 2, 3);
    let iter: Vec<_> = arr.iter_col_maj();
    let ans: Vec<(usize, usize, i32)> = vec![
        (0, 0, 1),
        (1, 0, 4),
        (0, 1, 2),
        (1, 1, 5),
        (0, 2, 3),
        (1, 2, 6),
    ];
    assert_eq!(iter, ans);
}

#[test]
fn row_iter_test() {
    let arr = Array2::from((1..=6).collect(), 2, 3);
    let iter: Vec<_> = arr.iter_row_maj();
    let ans: Vec<(usize, usize, i32)> = vec![
        (0, 0, 1),
        (0, 1, 2),
        (0, 2, 3),
        (1, 0, 4),
        (1, 1, 5),
        (1, 2, 6),
    ];
    assert_eq!(iter, ans);
}

#[test]
fn get_test() {
    let arr = Array2::from(vec![1, 2, 3, 4, 5, 6, 7, 8, 9], 3, 3);
    let four = arr.get(1, 0);
    assert_eq!(four, &4);
}

#[test]
fn empty_array_has_empty_traversals() {
    let arr: Array2<u8> = Array2::from(Vec::new(), 0, 5);
    assert_eq!(arr.iter_row_maj(), Vec::new());
    assert_eq!(arr.iter_col_maj(), Vec::new());
}

#[test]
fn single_column_traversals_agree() {
    let arr = Array2::from(vec![10, 20, 30], 3, 1);
    let expected: Vec<(usize, usize, i32)> = vec![(0, 0, 10), (1, 0, 20), (2, 0, 30)];
    assert_eq!(arr.iter_row_maj(), expected);
    assert_eq!(arr.iter_col_maj(), expected);
}
