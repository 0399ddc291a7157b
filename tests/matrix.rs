use ray_tracer::matrix::{cofactor_sign, submatrix3, submatrix4, transposed4};

#[test]
fn transpose_a_4x4_matrix() {
    let mut m = [
        [1.0, 2.0, 3.0, 4.0],
        [2.0, 4.0, 4.0, 2.0],
        [8.0, 6.0, 4.0, 1.0],
        [0.0, 0.0, 0.0, 1.0],
    ];

    m = transposed4(&m);

    let expected_result = [
        [1.0, 2.0, 8.0, 0.0],
        [2.0, 4.0, 6.0, 0.0],
        [3.0, 4.0, 4.0, 0.0],
        [4.0, 2.0, 1.0, 1.0],
    ];
    assert_eq!(m, expected_result)
}

#[test]
fn transposed_mirror_a_4x4_matrix() {
    let m = [
        [1.0, 2.0, 3.0, 4.0],
        [2.0, 4.0, 4.0, 2.0],
        [8.0, 6.0, 4.0, 1.0],
        [0.0, 0.0, 0.0, 1.0],
    ];

    let result = transposed4(&m);
    let expected_result = [
        [1.0, 2.0, 8.0, 0.0],
        [2.0, 4.0, 6.0, 0.0],
        [3.0, 4.0, 4.0, 0.0],
        [4.0, 2.0, 1.0, 1.0],
    ];

    assert_eq!(result, expected_result)
}

#[test]
fn submatrix_of_4x4_matrix_is_a_3x3_matrix() {
    let m = [
        [1.0, 2.0, 3.0, 4.0],
        [2.0, 4.0, 4.0, 2.0],
        [8.0, 6.0, 4.0, 1.0],
        [0.0, 0.0, 0.0, 1.0],
    ];

    let result = submatrix4(&m, 0, 3);
    let expected_result = [[2.0, 4.0, 4.0], [8.0, 6.0, 4.0], [0.0, 0.0, 0.0]];

    assert_eq!(result, expected_result)
}

#[test]
fn submatrix_of_3x3_matrix_is_a_2x2_matrix() {
    let m = [[1.0, 5.0, 0.0], [-3.0, 2.0, 7.0], [0.0, 6.0, 3.0]];

    let result = submatrix3(&m, 0, 2);
    let expected_result = [[-3.0, 2.0], [0.0, 6.0]];

    assert_eq!(result, expected_result)
}

#[test]
fn submatrix_keeps_order_when_an_inner_row_and_column_go() {
    let m = [
        [-6.0, 1.0, 1.0, 6.0],
        [-8.0, 5.0, 8.0, 6.0],
        [-1.0, 0.0, 8.0, 2.0],
        [-7.0, 1.0, -1.0, 1.0],
    ];
    let result = submatrix4(&m, 2, 1);
    assert_eq!(result, [[-6.0, 1.0, 6.0], [-8.0, 8.0, 6.0], [-7.0, -1.0, 1.0]]);
}

#[test]
fn submatrix_of_integer_matrix_takes_out_last_row_and_column() {
    let m = [[1, 2, 3], [4, 5, 6], [7, 8, 9]];
    assert_eq!(submatrix3(&m, 2, 2), [[1, 2], [4, 5]]);
    assert_eq!(submatrix3(&m, 1, 0), [[2, 3], [8, 9]]);
}

#[test]
fn cofactor_signs_alternate() {
    assert_eq!(cofactor_sign(0, 0), 1);
    assert_eq!(cofactor_sign(0, 1), -1);
    assert_eq!(cofactor_sign(1, 0), -1);
    assert_eq!(cofactor_sign(2, 3), -1);
    assert_eq!(cofactor_sign(3, 3), 1);
}
