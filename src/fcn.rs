use vstd::prelude::*;
use crate::error::Error;
use crate::scalar::Scalar;

verus! {

/// The element-wise function that a layer applies to its values.
#[derive(Debug, Clone, Copy)]
pub enum Activation<T> {
    /// The identity.
    Linear,
    /// `x` where `x > 0`, else `x * slope`.
    LeakyReLu(T),
    /// `1 / (1 + e^-x)`.
    Sigmoid,
}

/// The widths of a stack of layers.
pub open spec fn widths_of<T>(layers: Seq<(usize, Activation<T>)>) -> Seq<usize> {
    layers.map_values(|l: (usize, Activation<T>)| l.0)
}

/// Number of parameters (weights and biases) that feed layer `i` from layer
/// `i - 1`.
pub open spec fn block_len(widths: Seq<usize>, i: int) -> nat
    recommends
        1 <= i < widths.len(),
{
    ((widths[i - 1] + 1) * widths[i]) as nat
}

/// Number of parameters that feed the layers before layer `k`: the offset in
/// the flat parameter vector at which the block of layer `k` begins.
pub open spec fn params_before(widths: Seq<usize>, k: int) -> nat
    decreases k,
{
    if k <= 1 {
        0
    } else {
        params_before(widths, k - 1) + block_len(widths, k - 1)
    }
}

/// Total parameter count of a topology with these layer widths.
pub open spec fn param_count(widths: Seq<usize>) -> nat {
    params_before(widths, widths.len() as int)
}

/// The blocks of the parameter vector are laid out in order: the offset of a
/// block never exceeds the offset of a later one.
pub proof fn lemma_params_before_monotonic(widths: Seq<usize>, a: int, b: int)
    requires
        a <= b,
    ensures
        params_before(widths, a) <= params_before(widths, b),
    decreases b - a,
{
    if a < b {
        lemma_params_before_monotonic(widths, a, b - 1);
    }
}

/// The parameter count of a topology, or `None` where it exceeds `usize`.
pub fn param_count_of<T>(layers: &Vec<(usize, Activation<T>)>) -> (r: Option<usize>)
    ensures
        match r {
            Some(n) => n == param_count(widths_of(layers@)),
            None => param_count(widths_of(layers@)) > usize::MAX,
        },
{
    let ghost widths = widths_of(layers@);
    let mut total: usize = 0;
    let mut i: usize = 1;
    while i < layers.len()
        invariant
            1 <= i,
            i <= layers.len() || i == 1,
            widths == widths_of(layers@),
            widths.len() == layers.len(),
            total == params_before(widths, i as int),
        decreases layers.len() - i,
    {
        let prev = layers[i - 1].0;
        let curr = layers[i].0;
        assert(block_len(widths, i as int) == (prev + 1) * curr);
        assert(params_before(widths, i + 1) == params_before(widths, i as int) + block_len(
            widths,
            i as int,
        ));
        let block: Option<usize> = if curr == 0 {
            assert((prev + 1) * curr == 0) by (nonlinear_arith)
                requires
                    curr == 0,
            ;
            Some(0)
        } else if prev == usize::MAX {
            None
        } else {
            (prev + 1).checked_mul(curr)
        };
        assert(block matches Some(b) ==> b == (prev + 1) * curr);
        match block {
            Some(b) => {
                match total.checked_add(b) {
                    Some(t) => {
                        total = t;
                    },
                    None => {
                        proof {
                            lemma_params_before_monotonic(widths, i as int + 1, widths.len() as int);
                        }
                        return None;
                    },
                }
            },
            None => {
                proof {
                    assert((prev + 1) * curr >= prev + 1) by (nonlinear_arith)
                        requires
                            curr >= 1,
                    ;
                    lemma_params_before_monotonic(widths, i as int + 1, widths.len() as int);
                }
                return None;
            },
        }
        i = i + 1;
    }
    assert(layers.len() == 0 ==> params_before(widths, 0) == params_before(widths, 1));
    Some(total)
}

/// An activation applied to one value.
pub open spec fn activation_value<T: Scalar>(x: T, act: Activation<T>) -> T {
    match act {
        Activation::Linear => x,
        Activation::LeakyReLu(slope) => if x.spec_is_positive() {
            x
        } else {
            x.spec_times(slope)
        },
        Activation::Sigmoid => x.spec_logistic(),
    }
}

/// The weighted sum of the first `n` values of `x`, with the weights read
/// from `params` starting at `start`, accumulated left to right from zero.
pub open spec fn weighted_sum<T: Scalar>(params: Seq<T>, start: int, x: Seq<T>, n: nat) -> T
    decreases n,
{
    if n == 0 {
        T::spec_zero()
    } else {
        weighted_sum(params, start, x, (n - 1) as nat).spec_plus(
            params[start + n - 1].spec_times(x[n - 1]),
        )
    }
}

/// One layer of the forward pass, `act(W x + b)`: the block of `params` that
/// begins at `offset` holds `W` row by row (`curr` rows of `prev` weights,
/// one row per output) and then `b` (`curr` biases).
pub open spec fn layer_output<T: Scalar>(
    params: Seq<T>,
    offset: int,
    x: Seq<T>,
    prev: nat,
    curr: nat,
    act: Activation<T>,
) -> Seq<T> {
    Seq::new(
        curr,
        |r: int|
            activation_value(
                weighted_sum(params, offset + r * prev, x, prev).spec_plus(
                    params[offset + prev * curr + r],
                ),
                act,
            ),
    )
}

/// The values of layer `k`: the input with the first layer's activation
/// applied, then each later layer fed from the one before it.
pub open spec fn output_after<T: Scalar>(
    layers: Seq<(usize, Activation<T>)>,
    input: Seq<T>,
    params: Seq<T>,
    k: nat,
) -> Seq<T>
    decreases k,
{
    if k == 0 {
        input.map_values(|x: T| activation_value(x, layers[0].1))
    } else {
        layer_output(
            params,
            params_before(widths_of(layers), k as int) as int,
            output_after(layers, input, params, (k - 1) as nat),
            layers[k - 1].0 as nat,
            layers[k as int].0 as nat,
            layers[k as int].1,
        )
    }
}

/// What a network with these layers computes on `input` with `params`: the
/// values of its last layer.
pub open spec fn forward<T: Scalar>(
    layers: Seq<(usize, Activation<T>)>,
    input: Seq<T>,
    params: Seq<T>,
) -> Seq<T> {
    output_after(layers, input, params, (layers.len() - 1) as nat)
}

/// Applies an activation to one value.
fn activate<T: Scalar>(x: T, act: &Activation<T>) -> (r: T)
    ensures
        r == activation_value(x, *act),
{
    match act {
        Activation::Linear => x,
        Activation::LeakyReLu(slope) => {
            if x.is_positive() {
                x
            } else {
                x.times(*slope)
            }
        },
        Activation::Sigmoid => x.logistic(),
    }
}

/// Applies an activation to every value of a vector.
fn activate_all<T: Scalar>(xs: &Vec<T>, act: &Activation<T>) -> (r: Vec<T>)
    ensures
        r@ == xs@.map_values(|x: T| activation_value(x, *act)),
{
    let ghost all = xs@.map_values(|x: T| activation_value(x, *act));
    let mut r: Vec<T> = Vec::new();
    for k in 0..xs.len()
        invariant
            all == xs@.map_values(|x: T| activation_value(x, *act)),
            r@ == all.subrange(0, k as int),
    {
        r.push(activate(xs[k], act));
        assert(r@ =~= all.subrange(0, k + 1));
    }
    assert(r@ =~= all);
    r
}

/// One layer of the forward pass: `act(W x + b)`, where the block of
/// `params` that begins at `offset` holds `W` row by row (`curr` rows of `prev`
/// weights) and then `b` (`curr` biases).
fn layer_forward<T: Scalar>(
    x: &Vec<T>,
    params: &Vec<T>,
    offset: usize,
    prev: usize,
    curr: usize,
    act: &Activation<T>,
) -> (r: Vec<T>)
    requires
        x@.len() == prev,
        offset + (prev + 1) * curr <= params@.len(),
    ensures
        r@ == layer_output(params@, offset as int, x@, prev as nat, curr as nat, *act),
{
    let ghost all = layer_output(params@, offset as int, x@, prev as nat, curr as nat, *act);
    let len = params.len();
    proof {
        assert(offset + prev * curr + curr <= len) by (nonlinear_arith)
            requires
                offset + (prev + 1) * curr <= len,
        ;
    }
    let bias_start = offset + prev * curr;
    let mut r: Vec<T> = Vec::new();
    for row in 0..curr
        invariant
            all == layer_output(params@, offset as int, x@, prev as nat, curr as nat, *act),
            r@ == all.subrange(0, row as int),
            x@.len() == prev,
            bias_start == offset + prev * curr,
            bias_start + curr <= len,
            len == params@.len(),
    {
        proof {
            assert(row * prev + prev <= prev * curr) by (nonlinear_arith)
                requires
                    row < curr,
            ;
        }
        let row_start = offset + row * prev;
        let mut acc = T::zero();
        for col in 0..prev
            invariant
                x@.len() == prev,
                acc == weighted_sum(params@, row_start as int, x@, col as nat),
                row_start + prev <= bias_start,
                bias_start + curr <= len,
                len == params@.len(),
        {
            acc = acc.plus(params[row_start + col].times(x[col]));
        }
        r.push(activate(acc.plus(params[bias_start + row]), act));
        assert(r@ =~= all.subrange(0, row + 1));
    }
    assert(r@ =~= all);
    r
}

/// A feed-forward network of fixed topology whose weights and biases are
/// packed into one flat parameter vector.
pub struct FCN<T> {
    layers: Vec<(usize, Activation<T>)>,
    params: Vec<T>,
}

impl<T> FCN<T> {
    #[verifier::type_invariant]
    spec fn well_shaped(self) -> bool {
        &&& self.layers@.len() >= 2
        &&& self.params@.len() == param_count(widths_of(self.layers@))
    }

    /// The layers: width and activation of each, input layer first.
    pub closed spec fn spec_layers(&self) -> Seq<(usize, Activation<T>)> {
        self.layers@
    }

    /// The current parameter vector.
    pub closed spec fn spec_params(&self) -> Seq<T> {
        self.params@
    }

    /// The width of the input layer.
    pub open spec fn input_width(&self) -> usize {
        self.spec_layers()[0].0
    }

    /// The width of the output layer.
    pub open spec fn output_width(&self) -> usize {
        self.spec_layers().last().0
    }

    /// A network of the given topology holding the given parameters; refused
    /// with `ShapeMismatch` where their number is not the topology's
    /// parameter count.
    pub fn new(layers: Vec<(usize, Activation<T>)>, params: Vec<T>) -> (r: Result<FCN<T>, Error>)
        requires
            layers@.len() >= 2,
        ensures
            r is Ok <==> params@.len() == param_count(widths_of(layers@)),
            r matches Ok(f) ==> f.spec_layers() == layers@ && f.spec_params() == params@,
            r matches Err(e) ==> e == Error::ShapeMismatch,
    {
        let supplied = params.len();
        match param_count_of(&layers) {
            Some(n) => {
                if n == supplied {
                    Ok(FCN { layers, params })
                } else {
                    Err(Error::ShapeMismatch)
                }
            },
            None => Err(Error::ShapeMismatch),
        }
    }

    /// The layers: width and activation of each, input layer first.
    pub fn layers(&self) -> (r: &Vec<(usize, Activation<T>)>)
        ensures
            r@ == self.spec_layers(),
            r@.len() >= 2,
    {
        proof {
            use_type_invariant(self);
        }
        &self.layers
    }

    /// The current parameter vector.
    pub fn params(&self) -> (r: &Vec<T>)
        ensures
            r@ == self.spec_params(),
            r@.len() == param_count(widths_of(self.spec_layers())),
    {
        proof {
            use_type_invariant(self);
        }
        &self.params
    }

    /// The number of parameters that the topology asks for.
    pub fn parameter_count(&self) -> (r: usize)
        ensures
            r == param_count(widths_of(self.spec_layers())),
            r == self.spec_params().len(),
    {
        proof {
            use_type_invariant(self);
        }
        self.params.len()
    }

    /// Replaces the whole parameter vector; refused with `ShapeMismatch`,
    /// leaving the network as it was, where the length is wrong.
    pub fn set_params(&mut self, new_params: Vec<T>) -> (r: Result<(), Error>)
        ensures
            r is Ok <==> new_params@.len() == param_count(widths_of(old(self).spec_layers())),
            final(self).spec_layers() == old(self).spec_layers(),
            r is Ok ==> final(self).spec_params() == new_params@,
            r matches Err(e) ==> e == Error::ShapeMismatch && final(self).spec_params()
                == old(self).spec_params(),
    {
        proof {
            use_type_invariant(&*self);
        }
        if new_params.len() == self.params.len() {
            self.params = new_params;
            Ok(())
        } else {
            Err(Error::ShapeMismatch)
        }
    }
}

impl<T: Scalar> FCN<T> {
    /// Evaluates the network on `input` with the parameters `params` in
    /// place of its own.
    ///
    /// Refused with `ShapeMismatch` where `input` is not as long as the input
    /// layer is wide or `params` not as long as the parameter count; otherwise
    /// the output is `forward` of the layers, `input` and `params`, as long as
    /// the output layer is wide. The stored parameters play no part.
    pub fn at_with(&self, input: &Vec<T>, params: &Vec<T>) -> (r: Result<Vec<T>, Error>)
        ensures
            r is Ok <==> input@.len() == self.input_width() && params@.len() == param_count(
                widths_of(self.spec_layers()),
            ),
            r matches Ok(out) ==> out@ == forward(self.spec_layers(), input@, params@),
            r matches Ok(out) ==> out@.len() == self.output_width(),
            r matches Err(e) ==> e == Error::ShapeMismatch,
    {
        proof {
            use_type_invariant(self);
        }
        let n = self.layers.len();
        let len = params.len();
        if input.len() != self.layers[0].0 || params.len() != self.params.len() {
            return Err(Error::ShapeMismatch);
        }
        let ghost widths = widths_of(self.layers@);
        let mut out = activate_all(input, &self.layers[0].1);
        let mut offset: usize = 0;
        let mut i: usize = 1;
        while i < n
            invariant
                1 <= i <= n,
                n == self.layers@.len(),
                widths == widths_of(self.layers@),
                widths.len() == n,
                params@.len() == param_count(widths),
                len == params@.len(),
                out@.len() == widths[i - 1],
                out@ == output_after(self.layers@, input@, params@, (i - 1) as nat),
                offset == params_before(widths, i as int),
            decreases n - i,
        {
            let prev = self.layers[i - 1].0;
            let curr = self.layers[i].0;
            proof {
                assert(params_before(widths, i + 1) == offset + (prev + 1) * curr);
                lemma_params_before_monotonic(widths, i + 1, n as int);
                assert(offset + prev * curr + curr <= len) by (nonlinear_arith)
                    requires
                        offset + (prev + 1) * curr <= len,
                ;
                assert((prev + 1) * curr == prev * curr + curr) by (nonlinear_arith);
            }
            out = layer_forward(&out, params, offset, prev, curr, &self.layers[i].1);
            offset = offset + (prev * curr + curr);
            i = i + 1;
        }
        Ok(out)
    }

    /// Evaluates the network on `input` with its own parameters.
    pub fn at(&self, input: &Vec<T>) -> (r: Result<Vec<T>, Error>)
        ensures
            r is Ok <==> input@.len() == self.input_width(),
            r matches Ok(out) ==> out@ == forward(self.spec_layers(), input@, self.spec_params()),
            r matches Ok(out) ==> out@.len() == self.output_width(),
            r matches Err(e) ==> e == Error::ShapeMismatch,
    {
        proof {
            use_type_invariant(self);
        }
        self.at_with(input, &self.params)
    }
}

/// Evaluation depends on the layers, the input and the parameters alone:
/// two networks with the same layers and parameters (a policy and the same
/// policy saved and loaded again, say) give the same output on every input.
pub proof fn lemma_equal_networks_evaluate_alike<T: Scalar>(f: FCN<T>, g: FCN<T>, input: Seq<T>)
    requires
        f.spec_layers() == g.spec_layers(),
        f.spec_params() == g.spec_params(),
    ensures
        forward(f.spec_layers(), input, f.spec_params()) == forward(
            g.spec_layers(),
            input,
            g.spec_params(),
        ),
{
}

} // verus!
