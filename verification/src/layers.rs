use vstd::prelude::*;

use ndarray_rand::RandomExt;

use crate::matrix::col_s;
use crate::matrix::col_sum;
use crate::matrix::dot;
use crate::matrix::entries_bounded;
use crate::matrix::row_s;
use crate::matrix::Matrix;
use crate::matrix::DIM_LIMIT;
use crate::matrix::ENTRY_LIMIT;

verus! {

/// How a layer operation fails. Dimension mismatches are reported to the
/// caller instead of corrupting state, and a backward pass before any forward
/// pass is reported rather than served from a meaningless cache.
#[derive(Clone, Copy, Debug, PartialEq, Eq)]
pub enum LayerError {
    /// An operand's dimensions are incompatible with the operation.
    ShapeMismatch,
    /// `backward` was called before any `forward` had populated the cache.
    UninitializedState,
}

/// The value of a rectified-linear unit: the input where it is positive,
/// otherwise zero.
pub open spec fn relu_val(v: i64) -> i64 {
    if v > 0 {
        v
    } else {
        0
    }
}

/// The derivative mask of a rectified-linear unit: one where the argument is
/// positive, otherwise zero.
pub open spec fn relu_mask(v: i64) -> i64 {
    if v > 0 {
        1
    } else {
        0
    }
}

/// A layer of a network: a forward pass that maps an input matrix to an
/// output matrix and may cache state, and a backward pass that maps an
/// upstream gradient to the gradient with respect to the layer's input.
///
/// Each implementation fixes, through its spec functions, which inputs its
/// passes accept, what they return, and how they change the layer's state.
pub trait Layer: Sized {
    /// What every caller of `forward` must establish: the numeric limits that
    /// keep the pass free of overflow.
    spec fn fwd_pre(&self, x: &Matrix) -> bool;

    /// The inputs on which `forward` succeeds.
    spec fn fwd_ok(&self, x: &Matrix) -> bool;

    /// The error `forward` reports when it does not.
    spec fn fwd_err(&self, x: &Matrix) -> LayerError;

    /// How a successful forward output and the layer's next state relate to
    /// the input and the state before the call.
    spec fn fwd_rel(&self, x: &Matrix, out: Matrix, next: Self) -> bool;

    /// What every caller of `backward` must establish.
    spec fn bwd_pre(&self, dout: &Matrix) -> bool;

    /// The upstream gradients on which `backward` succeeds.
    spec fn bwd_ok(&self, dout: &Matrix) -> bool;

    /// The error `backward` reports when it does not.
    spec fn bwd_err(&self, dout: &Matrix) -> LayerError;

    /// How the returned input gradient and the layer's next state relate to
    /// the upstream gradient and the state before the call.
    spec fn bwd_rel(&self, dout: &Matrix, dx: Matrix, next: Self) -> bool;

    /// The forward pass.
    fn forward(&mut self, input: &Matrix) -> (r: Result<Matrix, LayerError>)
        requires
            old(self).fwd_pre(input),
        ensures
            r is Ok <==> old(self).fwd_ok(input),
            r matches Ok(out) ==> old(self).fwd_rel(input, out, *final(self)),
            r matches Err(e) ==> e == old(self).fwd_err(input) && *final(self) == *old(self),
    ;

    /// The backward pass.
    fn backward(&mut self, dout: &Matrix) -> (r: Result<Matrix, LayerError>)
        requires
            old(self).bwd_pre(dout),
        ensures
            r is Ok <==> old(self).bwd_ok(dout),
            r matches Ok(dx) ==> old(self).bwd_rel(dout, dx, *final(self)),
            r matches Err(e) ==> e == old(self).bwd_err(dout) && *final(self) == *old(self),
    ;
}

/// Relies on ndarray-rand's `RandomExt::random` with rand's
/// `Uniform::new_inclusive(low, high)`: the array holds `n` samples, each
/// drawn from the closed range `[low, high]`. `Uniform::new_inclusive` fails
/// only when `low > high` or a bound is non-finite, so the construction here
/// cannot fail.
#[verifier::external_body]
fn random_entries(n: usize, low: i64, high: i64) -> (r: Vec<i64>)
    requires
        1 <= n,
        low <= high,
    ensures
        r@.len() == n,
        forall|k: int| 0 <= k < n ==> low <= #[trigger] r@[k] <= high,
{
    let dist = ndarray_rand::rand_distr::Uniform::new_inclusive(low, high).unwrap();
    ndarray::Array1::<i64>::random(n, dist).to_vec()
}

/// A fully-connected (dense) layer: an affine transform with learnable
/// weights and bias. The forward pass caches its input; the backward pass
/// overwrites the gradient buffers. Neither cache holds a meaningful value
/// before the first pass that fills it, and each is `None` until then.
pub struct FCLayer {
    /// The learnable weights, `features_in × features_out`.
    pub weights: Matrix,
    /// The learnable bias, `1 × features_out`, broadcast over input rows.
    pub bias: Matrix,
    /// The input cached by the most recent forward pass.
    pub x: Option<Matrix>,
    /// The weight gradient written by the most recent backward pass.
    pub d_weights: Option<Matrix>,
    /// The bias gradient written by the most recent backward pass, one entry
    /// per output feature.
    pub d_bias: Option<Vec<i64>>,
}

impl FCLayer {
    /// A dense layer with `input_size × output_size` weights and a
    /// `1 × output_size` bias, both drawn uniformly at random from
    /// `[-ENTRY_LIMIT, ENTRY_LIMIT]`, and empty caches.
    #[verifier::loop_isolation(false)]
    pub fn new(input_size: usize, output_size: usize) -> (r: Box<FCLayer>)
        requires
            1 <= input_size,
            1 <= output_size,
        ensures
            r.weights.nrows() == input_size,
            r.weights.ncols() == output_size,
            r.bias.nrows() == 1,
            r.bias.ncols() == output_size,
            entries_bounded(r.weights),
            entries_bounded(r.bias),
            r.x is None,
            r.d_weights is None,
            r.d_bias is None,
    {
        let mut wdata: Vec<Vec<i64>> = Vec::new();
        let mut i: usize = 0;
        while i < input_size
            invariant
                i <= input_size,
                wdata@.len() == i,
                forall|k: int| 0 <= k < i ==> (#[trigger] wdata@[k])@.len() == output_size,
                forall|k: int, j: int|
                    0 <= k < i && 0 <= j < output_size ==> -(ENTRY_LIMIT as int) <= (
                    #[trigger] wdata@[k]@[j]) as int <= ENTRY_LIMIT as int,
            decreases input_size - i,
        {
            wdata.push(random_entries(output_size, -ENTRY_LIMIT, ENTRY_LIMIT));
            i += 1;
        }
        let weights = Matrix::from_rows_exact(input_size, output_size, wdata);
        let mut bdata: Vec<Vec<i64>> = Vec::new();
        bdata.push(random_entries(output_size, -ENTRY_LIMIT, ENTRY_LIMIT));
        let bias = Matrix::from_rows_exact(1, output_size, bdata);
        Box::new(
            FCLayer { weights, bias, x: None::<Matrix>, d_weights: None, d_bias: None },
        )
    }
}

impl Layer for FCLayer {
    open spec fn fwd_pre(&self, x: &Matrix) -> bool {
        &&& entries_bounded(self.weights)
        &&& entries_bounded(self.bias)
        &&& entries_bounded(*x)
        &&& x.ncols() <= DIM_LIMIT as int
    }

    open spec fn fwd_ok(&self, x: &Matrix) -> bool {
        &&& x.ncols() == self.weights.nrows()
        &&& self.bias.nrows() == 1
        &&& self.bias.ncols() == self.weights.ncols()
    }

    open spec fn fwd_err(&self, x: &Matrix) -> LayerError {
        LayerError::ShapeMismatch
    }

    open spec fn fwd_rel(&self, x: &Matrix, out: Matrix, next: Self) -> bool {
        &&& out.nrows() == x.nrows()
        &&& out.ncols() == self.weights.ncols()
        &&& forall|i: int, j: int|
            0 <= i < out.nrows() && 0 <= j < out.ncols() ==> (#[trigger] out.ent(i, j)) as int
                == dot(row_s(*x, i), col_s(self.weights, j)) + self.bias.ent(0, j)
        &&& next.weights == self.weights
        &&& next.bias == self.bias
        &&& next.d_weights == self.d_weights
        &&& next.d_bias == self.d_bias
        &&& next.x matches Some(c) && c.eqv(*x)
    }

    open spec fn bwd_pre(&self, dout: &Matrix) -> bool {
        &&& entries_bounded(self.weights)
        &&& entries_bounded(*dout)
        &&& dout.nrows() <= DIM_LIMIT as int
        &&& dout.ncols() <= DIM_LIMIT as int
        &&& self.x matches Some(c) ==> entries_bounded(c)
    }

    open spec fn bwd_ok(&self, dout: &Matrix) -> bool {
        &&& self.x matches Some(c) && dout.nrows() == c.nrows()
        &&& dout.ncols() == self.weights.ncols()
    }

    open spec fn bwd_err(&self, dout: &Matrix) -> LayerError {
        if self.x is None {
            LayerError::UninitializedState
        } else {
            LayerError::ShapeMismatch
        }
    }

    open spec fn bwd_rel(&self, dout: &Matrix, dx: Matrix, next: Self) -> bool {
        &&& dx.nrows() == dout.nrows()
        &&& dx.ncols() == self.weights.nrows()
        &&& forall|i: int, j: int|
            0 <= i < dx.nrows() && 0 <= j < dx.ncols() ==> (#[trigger] dx.ent(i, j)) as int == dot(
                row_s(*dout, i),
                row_s(self.weights, j),
            )
        &&& self.x matches Some(c) && (next.d_weights matches Some(dw) && {
            &&& dw.nrows() == c.ncols()
            &&& dw.ncols() == dout.ncols()
            &&& forall|i: int, j: int|
                0 <= i < dw.nrows() && 0 <= j < dw.ncols() ==> (#[trigger] dw.ent(i, j)) as int
                    == dot(col_s(c, i), col_s(*dout, j))
        })
        &&& next.d_bias matches Some(db) && {
            &&& db@.len() == dout.ncols()
            &&& forall|j: int|
                0 <= j < dout.ncols() ==> (#[trigger] db@[j]) as int == col_sum(*dout, j)
        }
        &&& next.weights == self.weights
        &&& next.bias == self.bias
        &&& next.x == self.x
    }

    /// Caches the input and returns `input · weights + bias`, the bias
    /// broadcast across all rows.
    fn forward(&mut self, input: &Matrix) -> (r: Result<Matrix, LayerError>) {
        if input.cols() != self.weights.rows() {
            return Err(LayerError::ShapeMismatch);
        }
        if self.bias.rows() != 1 || self.bias.cols() != self.weights.cols() {
            return Err(LayerError::ShapeMismatch);
        }
        self.x = Some(input.duplicate());
        let prod = input.mat_mul(&self.weights);
        let out = prod.add_broadcast_row(&self.bias);
        Ok(out)
    }

    /// Returns `dout · weightsᵀ`, and overwrites the gradient buffers:
    /// `d_weights` with `xᵀ · dout` for the cached input `x`, and `d_bias`
    /// with the column sums of `dout`.
    fn backward(&mut self, dout: &Matrix) -> (r: Result<Matrix, LayerError>) {
        let xc = match &self.x {
            None => {
                return Err(LayerError::UninitializedState);
            },
            Some(c) => c,
        };
        if dout.rows() != xc.rows() || dout.cols() != self.weights.cols() {
            return Err(LayerError::ShapeMismatch);
        }
        let wt = self.weights.transpose();
        proof {
            assert forall|i: int, j: int|
                0 <= i < wt.nrows() && 0 <= j < wt.ncols() implies -(ENTRY_LIMIT as int) <= (
            #[trigger] wt.ent(i, j)) as int <= ENTRY_LIMIT as int by {
                assert(wt.ent(i, j) == self.weights.ent(j, i));
            }
        }
        let dx = dout.mat_mul(&wt);
        proof {
            assert forall|i: int, j: int|
                0 <= i < dx.nrows() && 0 <= j < dx.ncols() implies (#[trigger] dx.ent(i, j)) as int
                == dot(row_s(*dout, i), row_s(self.weights, j)) by {
                assert(col_s(wt, j) =~= row_s(self.weights, j));
            }
        }
        let xt = xc.transpose();
        proof {
            assert forall|i: int, j: int|
                0 <= i < xt.nrows() && 0 <= j < xt.ncols() implies -(ENTRY_LIMIT as int) <= (
            #[trigger] xt.ent(i, j)) as int <= ENTRY_LIMIT as int by {
                assert(xt.ent(i, j) == xc.ent(j, i));
            }
        }
        let dw = xt.mat_mul(dout);
        proof {
            assert forall|i: int, j: int|
                0 <= i < dw.nrows() && 0 <= j < dw.ncols() implies (#[trigger] dw.ent(i, j)) as int
                == dot(col_s(*xc, i), col_s(*dout, j)) by {
                assert(row_s(xt, i) =~= col_s(*xc, i));
            }
        }
        let db = dout.col_sums();
        self.d_weights = Some(dw);
        self.d_bias = Some(db);
        Ok(dx)
    }
}

/// A rectified-linear activation layer. It is stateless: both passes are
/// elementwise maps of their argument.
pub struct Relu {}

impl Relu {
    /// A new rectified-linear layer.
    pub fn new() -> (r: Box<Relu>) {
        Box::new(Relu {  })
    }
}

/// The shared elementwise body of the two stateless rectified-linear passes:
/// the derivative mask when `mask` is set, otherwise the activation itself.
#[verifier::loop_isolation(false)]
fn map_entries(m: &Matrix, mask: bool) -> (r: Matrix)
    ensures
        r.nrows() == m.nrows(),
        r.ncols() == m.ncols(),
        forall|i: int, j: int|
            0 <= i < r.nrows() && 0 <= j < r.ncols() ==> #[trigger] r.ent(i, j) == (if mask {
                relu_mask(m.ent(i, j))
            } else {
                relu_val(m.ent(i, j))
            }),
{
    let rows = m.rows();
    let cols = m.cols();
    let mut data: Vec<Vec<i64>> = Vec::new();
    let mut i: usize = 0;
    while i < rows
        invariant
            i <= rows,
            data@.len() == i,
            forall|k: int| 0 <= k < i ==> (#[trigger] data@[k])@.len() == cols,
            forall|k: int, j: int|
                0 <= k < i && 0 <= j < cols ==> #[trigger] data@[k]@[j] == (if mask {
                    relu_mask(m.ent(k, j))
                } else {
                    relu_val(m.ent(k, j))
                }),
        decreases rows - i,
    {
        let mut rowv: Vec<i64> = Vec::new();
        let mut j: usize = 0;
        while j < cols
            invariant
                j <= cols,
                rowv@.len() == j,
                forall|c: int|
                    0 <= c < j ==> #[trigger] rowv@[c] == (if mask {
                        relu_mask(m.ent(i as int, c))
                    } else {
                        relu_val(m.ent(i as int, c))
                    }),
            decreases cols - j,
        {
            let v = m.get(i, j);
            let w = if mask {
                if v > 0 {
                    1
                } else {
                    0
                }
            } else {
                if v > 0 {
                    v
                } else {
                    0
                }
            };
            rowv.push(w);
            j += 1;
        }
        data.push(rowv);
        i += 1;
    }
    Matrix::from_rows_exact(rows, cols, data)
}

impl Layer for Relu {
    open spec fn fwd_pre(&self, x: &Matrix) -> bool {
        true
    }

    open spec fn fwd_ok(&self, x: &Matrix) -> bool {
        true
    }

    open spec fn fwd_err(&self, x: &Matrix) -> LayerError {
        LayerError::ShapeMismatch
    }

    open spec fn fwd_rel(&self, x: &Matrix, out: Matrix, next: Self) -> bool {
        &&& out.nrows() == x.nrows()
        &&& out.ncols() == x.ncols()
        &&& forall|i: int, j: int|
            0 <= i < out.nrows() && 0 <= j < out.ncols() ==> #[trigger] out.ent(i, j) == relu_val(
                x.ent(i, j),
            )
        &&& next == *self
    }

    open spec fn bwd_pre(&self, dout: &Matrix) -> bool {
        true
    }

    open spec fn bwd_ok(&self, dout: &Matrix) -> bool {
        true
    }

    open spec fn bwd_err(&self, dout: &Matrix) -> LayerError {
        LayerError::ShapeMismatch
    }

    open spec fn bwd_rel(&self, dout: &Matrix, dx: Matrix, next: Self) -> bool {
        &&& dx.nrows() == dout.nrows()
        &&& dx.ncols() == dout.ncols()
        &&& forall|i: int, j: int|
            0 <= i < dx.nrows() && 0 <= j < dx.ncols() ==> #[trigger] dx.ent(i, j) == relu_mask(
                dout.ent(i, j),
            )
        &&& next == *self
    }

    /// Elementwise `max(v, 0)`.
    fn forward(&mut self, input: &Matrix) -> (r: Result<Matrix, LayerError>) {
        Ok(map_entries(input, false))
    }

    /// The derivative mask of the matrix passed in: one where an entry is
    /// positive, else zero. The mask is computed from this argument itself,
    /// not from the input of the preceding forward pass, and it is not
    /// multiplied by an upstream gradient; a caller that chains layers must
    /// pass a matrix with the sign pattern of the original forward input.
    fn backward(&mut self, dout: &Matrix) -> (r: Result<Matrix, LayerError>) {
        Ok(map_entries(dout, true))
    }
}

/// A sigmoid activation layer. Its forward pass is the elementwise map
/// `1 / (1 + e^-v)`, whose values are irrational and have no exact image
/// among integer matrix entries; callers evaluate that map outside this
/// library and hand the mapped matrix to [`Sigmoid::forward_mapped`], which
/// completes the pass. The backward pass is served entirely from the cached
/// output and is exact.
pub struct Sigmoid {
    /// The output cached by the most recent forward pass.
    pub out: Option<Matrix>,
}

impl Sigmoid {
    /// A new sigmoid layer with an empty cache.
    pub fn new() -> (r: Box<Sigmoid>)
        ensures
            r.out is None,
    {
        Box::new(Sigmoid { out: None::<Matrix> })
    }

    /// Completes a forward pass whose elementwise sigmoid image `mapped` was
    /// evaluated by the caller: caches the output for the backward pass and
    /// hands it back unchanged.
    pub fn forward_mapped(&mut self, mapped: Matrix) -> (r: Matrix)
        ensures
            r == mapped,
            final(self).out matches Some(c) && c.eqv(mapped),
    {
        self.out = Some(mapped.duplicate());
        mapped
    }

    /// The chain-rule product `dout * (1 - out) * out`, elementwise, for the
    /// cached output `out`. Fails with `UninitializedState` before any
    /// forward pass, and with `ShapeMismatch` when `dout` does not have the
    /// cached output's shape.
    #[verifier::loop_isolation(false)]
    pub fn backward(&self, dout: &Matrix) -> (r: Result<Matrix, LayerError>)
        requires
            entries_bounded(*dout),
            self.out matches Some(o) ==> entries_bounded(o),
        ensures
            r is Ok <==> (self.out matches Some(o) && o.nrows() == dout.nrows() && o.ncols()
                == dout.ncols()),
            r matches Ok(dx) ==> (self.out matches Some(o) && {
                &&& dx.nrows() == dout.nrows()
                &&& dx.ncols() == dout.ncols()
                &&& forall|i: int, j: int|
                    0 <= i < dx.nrows() && 0 <= j < dx.ncols() ==> (#[trigger] dx.ent(i, j)) as int
                        == dout.ent(i, j) * (1 - o.ent(i, j)) * o.ent(i, j)
            }),
            r matches Err(e) ==> e == (if self.out is None {
                LayerError::UninitializedState
            } else {
                LayerError::ShapeMismatch
            }),
    {
        let o = match &self.out {
            None => {
                return Err(LayerError::UninitializedState);
            },
            Some(o) => o,
        };
        if dout.rows() != o.rows() || dout.cols() != o.cols() {
            return Err(LayerError::ShapeMismatch);
        }
        let rows = dout.rows();
        let cols = dout.cols();
        let mut data: Vec<Vec<i64>> = Vec::new();
        let mut i: usize = 0;
        while i < rows
            invariant
                i <= rows,
                data@.len() == i,
                forall|k: int| 0 <= k < i ==> (#[trigger] data@[k])@.len() == cols,
                forall|k: int, j: int|
                    0 <= k < i && 0 <= j < cols ==> (#[trigger] data@[k]@[j]) as int == dout.ent(
                        k,
                        j,
                    ) * (1 - o.ent(k, j)) * o.ent(k, j),
            decreases rows - i,
        {
            let mut rowv: Vec<i64> = Vec::new();
            let mut j: usize = 0;
            while j < cols
                invariant
                    j <= cols,
                    rowv@.len() == j,
                    forall|c: int|
                        0 <= c < j ==> (#[trigger] rowv@[c]) as int == dout.ent(i as int, c) * (1
                            - o.ent(i as int, c)) * o.ent(i as int, c),
                decreases cols - j,
            {
                let d = dout.get(i, j);
                let ov = o.get(i, j);
                proof {
                    assert((-(ENTRY_LIMIT as int) - 1) * (ENTRY_LIMIT as int) <= (d as int) * (1
                        - ov as int) <= ((ENTRY_LIMIT as int) + 1) * (ENTRY_LIMIT as int))
                        by (nonlinear_arith)
                        requires
                            -(ENTRY_LIMIT as int) <= d as int <= ENTRY_LIMIT as int,
                            -(ENTRY_LIMIT as int) <= ov as int <= ENTRY_LIMIT as int,
                    ;
                    assert(-(1_000_001_000_000 as int) * (ENTRY_LIMIT as int) <= ((d as int) * (1
                        - ov as int)) * (ov as int) <= (1_000_001_000_000 as int) * (
                    ENTRY_LIMIT as int)) by (nonlinear_arith)
                        requires
                            -(1_000_001_000_000 as int) <= (d as int) * (1 - ov as int)
                                <= 1_000_001_000_000 as int,
                            -(ENTRY_LIMIT as int) <= ov as int <= ENTRY_LIMIT as int,
                    ;
                }
                let t = d * (1 - ov);
                let v = t * ov;
                rowv.push(v);
                j += 1;
            }
            data.push(rowv);
            i += 1;
        }
        Ok(Matrix::from_rows_exact(rows, cols, data))
    }
}

/// A dense forward pass is a pure function of the input, the weights and the
/// bias. Two dense layers whose weights and bias hold the same entries — in
/// particular one layer before and after a forward pass, which changes
/// neither, or after any number of passes — send the same input to the same
/// output: there is no hidden accumulation.
pub proof fn lemma_fc_forward_repeatable(
    l1: FCLayer,
    l2: FCLayer,
    x: Matrix,
    o1: Matrix,
    o2: Matrix,
    n1: FCLayer,
    n2: FCLayer,
)
    requires
        l1.weights.eqv(l2.weights),
        l1.bias.eqv(l2.bias),
        l1.fwd_ok(&x),
        l2.fwd_ok(&x),
        l1.fwd_rel(&x, o1, n1),
        l2.fwd_rel(&x, o2, n2),
    ensures
        o1.eqv(o2),
{
    broadcast use crate::matrix::lemma_dims_nonneg;

    assert forall|i: int, j: int|
        0 <= i < o1.nrows() && 0 <= j < o1.ncols() implies #[trigger] o1.ent(i, j) == o2.ent(
        i,
        j,
    ) by {
        assert forall|k: int|
            0 <= k < col_s(l1.weights, j).len() implies #[trigger] col_s(l1.weights, j)[k]
            == col_s(l2.weights, j)[k] by {
            assert(0 <= j < l1.weights.ncols());
            assert(col_s(l1.weights, j).len() == l1.weights.nrows());
            assert(0 <= k < l1.weights.nrows());
            assert(l1.weights.ent(k, j) == l2.weights.ent(k, j));
            assert(col_s(l1.weights, j)[k] == l1.weights.ent(k, j));
            assert(col_s(l2.weights, j)[k] == l2.weights.ent(k, j));
        }
        assert(col_s(l1.weights, j) =~= col_s(l2.weights, j));
        assert(l1.bias.ent(0, j) == l2.bias.ent(0, j));
    }
}

/// A rectified-linear forward pass is a pure function of its input alone:
/// any two passes over the same input, by any rectified-linear layers at any
/// time, yield the same output.
pub proof fn lemma_relu_forward_repeatable(
    l1: Relu,
    l2: Relu,
    x: Matrix,
    o1: Matrix,
    o2: Matrix,
    n1: Relu,
    n2: Relu,
)
    requires
        l1.fwd_rel(&x, o1, n1),
        l2.fwd_rel(&x, o2, n2),
    ensures
        o1.eqv(o2),
{
}

} // verus!
