use nn_layers::FCLayer;
use nn_layers::Layer;
use nn_layers::LayerError;
use nn_layers::Matrix;
use nn_layers::Relu;
use nn_layers::Sigmoid;

fn m(rows: Vec<Vec<i64>>) -> Matrix {
    Matrix::from_rows(rows).unwrap()
}

fn entries(mat: &Matrix) -> Vec<Vec<i64>> {
    let mut out = Vec::new();
    for i in 0..mat.rows() {
        let mut row = Vec::new();
        for j in 0..mat.cols() {
            row.push(mat.get(i, j));
        }
        out.push(row);
    }
    out
}

#[test]
fn test_fc_forward() {
    let expected = vec![36, 52];

    let mut fc = FCLayer::new(2, 2);
    fc.weights = m(vec![vec![1, 2], vec![3, 4]]);
    fc.bias = m(vec![vec![5, 6]]);
    let input = m(vec![vec![7, 8]]);

    let actual = fc.forward(&input).unwrap();

    assert_eq!(entries(&actual), vec![expected]);
}

#[test]
fn test_fc_backward() {
    let dx_expected = vec![vec![11, 25], vec![17, 39]];
    let dw_expected = vec![vec![18, 22], vec![26, 32]];
    let db_expected = vec![8, 10];

    let mut fc = FCLayer::new(2, 2);
    fc.weights = m(vec![vec![1, 2], vec![3, 4]]);
    fc.bias = m(vec![vec![5, 6]]);
    let input = m(vec![vec![1, 2], vec![3, 4]]);
    fc.x = Some(input.duplicate());
    let dout = m(vec![vec![3, 4], vec![5, 6]]);
    let dx_actual = fc.backward(&dout).unwrap();

    assert_eq!(entries(&dx_actual), dx_expected);
    assert_eq!(entries(fc.d_weights.as_ref().unwrap()), dw_expected);
    assert_eq!(fc.d_bias.as_ref().unwrap(), &db_expected);
}

#[test]
fn test_relu_forward() {
    let expected = vec![vec![0, 0, 0], vec![0, 1, 2]];

    let mut relu = Relu::new();
    let input = m(vec![vec![-2, -1, 0], vec![0, 1, 2]]);

    let actual = relu.forward(&input).unwrap();

    assert_eq!(entries(&actual), expected);
}

#[test]
fn test_relu_backward() {
    let expected = vec![vec![0, 0, 0], vec![1, 1, 1]];

    let mut relu = Relu::new();
    let input = m(vec![vec![-2, -1, 0], vec![1, 1, 2]]);

    let actual = relu.backward(&input).unwrap();

    assert_eq!(entries(&actual), expected);
}

#[test]
fn test_sigmoid_forward() {
    let expected = vec![vec![0.269, 0.5], vec![0.731, 0.881]];
    let input: Vec<Vec<f64>> = vec![vec![-1.0, 0.0], vec![1.0, 2.0]];

    // The elementwise sigmoid map is evaluated here, at a fixed scale of a
    // thousand units per one, the way a caller of the library does it.
    let mapped: Vec<Vec<i64>> = input
        .iter()
        .map(|r| {
            r.iter()
                .map(|x| ((1.0 / (1.0 + (-x).exp())) * 1000.0).round() as i64)
                .collect()
        })
        .collect();

    let mut sigmoid = Sigmoid::new();
    let actual = sigmoid.forward_mapped(m(mapped));

    for i in 0..2 {
        for j in 0..2 {
            let a = actual.get(i, j) as f64 / 1000.0;
            assert!((a - expected[i][j]).abs() <= 1e-3);
            let cached = sigmoid.out.as_ref().unwrap().get(i, j) as f64 / 1000.0;
            assert!((cached - expected[i][j]).abs() <= 1e-3);
        }
    }
}

#[test]
fn test_sigmoid_backward() {
    let expected = vec![vec![0, -12], vec![-42, -96]];

    let mut sigmoid = Sigmoid::new();
    sigmoid.out = Some(m(vec![vec![1, 2], vec![3, 4]]));
    let input = m(vec![vec![5, 6], vec![7, 8]]);
    let actual = sigmoid.backward(&input).unwrap();

    assert_eq!(entries(&actual), expected);
}

#[test]
fn test_sigmoid_forward_mapped_caches() {
    let mut sigmoid = Sigmoid::new();
    let mapped = m(vec![vec![3, 7], vec![-4, 9]]);
    let returned = sigmoid.forward_mapped(mapped);

    assert_eq!(entries(&returned), vec![vec![3, 7], vec![-4, 9]]);
    assert_eq!(
        entries(sigmoid.out.as_ref().unwrap()),
        vec![vec![3, 7], vec![-4, 9]]
    );
}

#[test]
fn test_fc_forward_shape_mismatch() {
    let mut fc = FCLayer::new(2, 2);
    fc.weights = m(vec![vec![1, 2], vec![3, 4]]);
    fc.bias = m(vec![vec![5, 6]]);
    let input = m(vec![vec![7, 8, 9]]);

    assert!(matches!(fc.forward(&input), Err(LayerError::ShapeMismatch)));
}

#[test]
fn test_fc_backward_uninitialized() {
    let mut fc = FCLayer::new(2, 2);
    fc.weights = m(vec![vec![1, 2], vec![3, 4]]);
    fc.bias = m(vec![vec![5, 6]]);
    let dout = m(vec![vec![3, 4]]);

    assert!(matches!(fc.backward(&dout), Err(LayerError::UninitializedState)));
}

#[test]
fn test_fc_backward_shape_mismatch() {
    let mut fc = FCLayer::new(2, 2);
    fc.weights = m(vec![vec![1, 2], vec![3, 4]]);
    fc.bias = m(vec![vec![5, 6]]);
    fc.x = Some(m(vec![vec![1, 2], vec![3, 4]]));
    let dout = m(vec![vec![3, 4]]);

    assert!(matches!(fc.backward(&dout), Err(LayerError::ShapeMismatch)));
}

#[test]
fn test_sigmoid_backward_uninitialized() {
    let sigmoid = Sigmoid::new();
    let dout = m(vec![vec![1, 2]]);

    assert!(matches!(sigmoid.backward(&dout), Err(LayerError::UninitializedState)));
}

#[test]
fn test_sigmoid_backward_shape_mismatch() {
    let mut sigmoid = Sigmoid::new();
    sigmoid.out = Some(m(vec![vec![1, 2], vec![3, 4]]));
    let dout = m(vec![vec![5, 6]]);

    assert!(matches!(sigmoid.backward(&dout), Err(LayerError::ShapeMismatch)));
}

#[test]
fn test_fc_forward_idempotent() {
    let mut fc = FCLayer::new(2, 2);
    fc.weights = m(vec![vec![1, 2], vec![3, 4]]);
    fc.bias = m(vec![vec![5, 6]]);
    let input = m(vec![vec![7, 8], vec![-3, 2]]);

    let first = fc.forward(&input).unwrap();
    let second = fc.forward(&input).unwrap();

    assert_eq!(entries(&first), entries(&second));
}

#[test]
fn test_relu_forward_idempotent() {
    let mut relu = Relu::new();
    let input = m(vec![vec![-7, 0, 5], vec![2, -1, 8]]);

    let first = relu.forward(&input).unwrap();
    let second = relu.forward(&input).unwrap();

    assert_eq!(entries(&first), entries(&second));
}

#[test]
fn test_fc_new_random_init() {
    let fc = FCLayer::new(3, 4);

    assert_eq!(fc.weights.rows(), 3);
    assert_eq!(fc.weights.cols(), 4);
    assert_eq!(fc.bias.rows(), 1);
    assert_eq!(fc.bias.cols(), 4);
    assert!(fc.x.is_none());
    assert!(fc.d_weights.is_none());
    assert!(fc.d_bias.is_none());
    for row in entries(&fc.weights) {
        for v in row {
            assert!((-1_000_000..=1_000_000).contains(&v));
        }
    }
    for v in &entries(&fc.bias)[0] {
        assert!((-1_000_000..=1_000_000).contains(v));
    }
}

#[test]
fn test_from_rows_rejects_ragged() {
    assert!(Matrix::from_rows(vec![vec![1], vec![1, 2]]).is_none());
    assert!(Matrix::from_rows(vec![vec![1, 2], vec![3, 4]]).is_some());
}

#[test]
fn test_matrix_product_and_transpose() {
    let a = m(vec![vec![7, 8]]);
    let b = m(vec![vec![1, 2], vec![3, 4]]);

    let product = a.mat_mul(&b);
    assert_eq!(entries(&product), vec![vec![31, 46]]);

    let t = b.transpose();
    assert_eq!(entries(&t), vec![vec![1, 3], vec![2, 4]]);

    let sums = b.col_sums();
    assert_eq!(sums, vec![4, 6]);
}
