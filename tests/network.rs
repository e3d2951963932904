use genopt::error::Error;
use genopt::fcn::{param_count_of, Activation, FCN};
use genopt::scalar::Scalar;

#[derive(Debug, Clone, Copy, PartialEq)]
struct R(f32);

impl Scalar for R {
    fn spec_zero() -> R {
        R(0.0)
    }
    fn spec_from_count(n: usize) -> R {
        R(n as f32)
    }
    fn spec_plus(self, o: R) -> R {
        R(self.0 + o.0)
    }
    fn spec_minus(self, o: R) -> R {
        R(self.0 - o.0)
    }
    fn spec_times(self, o: R) -> R {
        R(self.0 * o.0)
    }
    fn spec_divided_by(self, o: R) -> R {
        R(self.0 / o.0)
    }
    fn spec_square_root(self) -> R {
        R(self.0.sqrt())
    }
    fn spec_logistic(self) -> R {
        R(1.0 / (1.0 + (-self.0).exp()))
    }
    fn spec_is_positive(self) -> bool {
        self.0 > 0.0
    }
    fn spec_is_negative(self) -> bool {
        self.0 < 0.0
    }
    fn spec_fraction_of(self, count: usize) -> usize {
        (count as f32 * self.0).floor() as usize
    }
    fn spec_rank_key(self) -> i64 {
        let bits = self.0.to_bits() as i32;
        (if bits < 0 { bits ^ i32::MAX } else { bits }) as i64
    }
    fn zero() -> R {
        R::spec_zero()
    }
    fn from_count(n: usize) -> R {
        R::spec_from_count(n)
    }
    fn plus(self, o: R) -> R {
        self.spec_plus(o)
    }
    fn minus(self, o: R) -> R {
        self.spec_minus(o)
    }
    fn times(self, o: R) -> R {
        self.spec_times(o)
    }
    fn divided_by(self, o: R) -> R {
        self.spec_divided_by(o)
    }
    fn square_root(self) -> R {
        self.spec_square_root()
    }
    fn logistic(self) -> R {
        self.spec_logistic()
    }
    fn is_positive(self) -> bool {
        self.spec_is_positive()
    }
    fn is_negative(self) -> bool {
        self.spec_is_negative()
    }
    fn fraction_of(self, count: usize) -> usize {
        self.spec_fraction_of(count)
    }
    fn rank_key(self) -> i64 {
        self.spec_rank_key()
    }
}

fn rs(v: &[f32]) -> Vec<R> {
    v.iter().map(|x| R(*x)).collect()
}

fn fs(v: &[R]) -> Vec<f32> {
    v.iter().map(|x| x.0).collect()
}

fn leaky() -> Activation<R> {
    Activation::LeakyReLu(R(0.1))
}

#[test]
fn parameter_count_of_four_layer_topology() {
    let layers = vec![(1, Activation::Linear), (5, leaky()), (5, leaky()), (1, Activation::Linear)];
    assert_eq!(param_count_of(&layers), Some(46));
    let fcn = FCN::new(layers, vec![R(0.0); 46]).unwrap();
    assert_eq!(fcn.parameter_count(), 46);
    assert_eq!(fcn.params().len(), 46);
}

#[test]
fn parameter_count_of_two_layers() {
    let layers: Vec<(usize, Activation<R>)> = vec![(3, Activation::Linear), (2, Activation::Sigmoid)];
    assert_eq!(param_count_of(&layers), Some(8));
}

#[test]
fn parameter_count_overflow_is_none() {
    let layers: Vec<(usize, Activation<R>)> =
        vec![(usize::MAX, Activation::Linear), (2, Activation::Linear)];
    assert_eq!(param_count_of(&layers), None);
    let empty_output: Vec<(usize, Activation<R>)> =
        vec![(usize::MAX, Activation::Linear), (0, Activation::Linear)];
    assert_eq!(param_count_of(&empty_output), Some(0));
}

#[test]
fn new_rejects_wrong_parameter_length() {
    let layers = vec![(1, Activation::Linear), (2, Activation::Linear)];
    assert!(matches!(FCN::new(layers, rs(&[1.0, 2.0, 3.0])), Err(Error::ShapeMismatch)));
    let layers = vec![(1, Activation::Linear), (2, Activation::Linear)];
    assert!(FCN::new(layers, rs(&[1.0, 2.0, 3.0, 4.0])).is_ok());
}

#[test]
fn linear_layer_is_row_major_then_bias() {
    let layers = vec![(2, Activation::Linear), (2, Activation::Linear)];
    let fcn = FCN::new(layers, rs(&[1.0, 2.0, 3.0, 4.0, 10.0, 20.0])).unwrap();
    let out = fcn.at(&rs(&[1.0, 1.0])).unwrap();
    assert_eq!(fs(&out), vec![13.0, 27.0]);
    let out = fcn.at(&rs(&[2.0, -1.0])).unwrap();
    assert_eq!(fs(&out), vec![10.0, 22.0]);
}

#[test]
fn two_layer_weighted_sum() {
    let layers = vec![(2, Activation::Linear), (1, Activation::Linear)];
    let fcn = FCN::new(layers, rs(&[2.0, 3.0, 1.0])).unwrap();
    assert_eq!(fs(&fcn.at(&rs(&[1.0, 4.0])).unwrap()), vec![15.0]);
}

#[test]
fn leaky_relu_scales_non_positive_values() {
    let layers = vec![(1, Activation::Linear), (3, Activation::LeakyReLu(R(0.5)))];
    let fcn = FCN::new(layers, rs(&[1.0, -1.0, 0.0, 0.0, 0.0, 0.0])).unwrap();
    let out = fcn.at(&rs(&[2.0])).unwrap();
    assert_eq!(fs(&out), vec![2.0, -1.0, 0.0]);
}

#[test]
fn sigmoid_on_input_layer_applies_before_weights() {
    let layers = vec![(1, Activation::Sigmoid), (1, Activation::Linear)];
    let fcn = FCN::new(layers, rs(&[4.0, 1.0])).unwrap();
    // sigmoid(0) = 0.5, then 4 * 0.5 + 1
    assert_eq!(fs(&fcn.at(&rs(&[0.0])).unwrap()), vec![3.0]);
}

#[test]
fn leaky_relu_on_input_layer_applies_before_weights() {
    let layers = vec![(1, Activation::LeakyReLu(R(0.1))), (1, Activation::Linear)];
    let fcn = FCN::new(layers, rs(&[1.0, 0.0])).unwrap();
    let out = fcn.at(&rs(&[-10.0])).unwrap();
    assert_eq!(fs(&out), vec![-1.0]);
}

#[test]
fn wrong_input_length_is_shape_mismatch() {
    let layers = vec![(3, Activation::Linear), (5, leaky()), (2, Activation::Linear)];
    let n = param_count_of(&layers).unwrap();
    let fcn = FCN::new(layers, vec![R(0.5); n]).unwrap();
    for len in [0usize, 1, 2, 4, 7] {
        assert!(matches!(fcn.at(&vec![R(1.0); len]), Err(Error::ShapeMismatch)));
    }
    assert_eq!(fcn.at(&vec![R(1.0); 3]).unwrap().len(), 2);
}

#[test]
fn wrong_params_length_is_shape_mismatch() {
    let layers = vec![(3, Activation::Linear), (5, leaky()), (2, Activation::Linear)];
    let n = param_count_of(&layers).unwrap();
    let fcn = FCN::new(layers, vec![R(0.5); n]).unwrap();
    let input = vec![R(1.0); 3];
    assert!(matches!(fcn.at_with(&input, &vec![R(0.5); n - 1]), Err(Error::ShapeMismatch)));
    assert!(matches!(fcn.at_with(&input, &vec![R(0.5); n + 1]), Err(Error::ShapeMismatch)));
    assert_eq!(fcn.at_with(&input, &vec![R(-0.5); n]).unwrap().len(), 2);
}

#[test]
fn output_length_is_last_layer_width() {
    let topologies: Vec<Vec<(usize, Activation<R>)>> = vec![
        vec![(1, Activation::Linear), (1, Activation::Linear)],
        vec![(5, Activation::Linear), (5, leaky()), (5, leaky()), (2, Activation::Linear)],
        vec![(1, Activation::Linear), (5, Activation::Sigmoid), (5, Activation::Sigmoid), (3, Activation::Linear)],
        vec![(4, Activation::Sigmoid), (7, Activation::Linear)],
    ];
    for layers in topologies {
        let inputs = layers[0].0;
        let outputs = layers[layers.len() - 1].0;
        let n = param_count_of(&layers).unwrap();
        let params: Vec<R> = (0..n).map(|i| R(i as f32 / 10.0 - 1.0)).collect();
        let fcn = FCN::new(layers, params).unwrap();
        let out = fcn.at(&vec![R(0.3); inputs]).unwrap();
        assert_eq!(out.len(), outputs);
    }
}

#[test]
fn evaluation_is_deterministic() {
    let layers = vec![(1, Activation::Linear), (5, leaky()), (5, Activation::Sigmoid), (1, Activation::Linear)];
    let n = param_count_of(&layers).unwrap();
    let params: Vec<R> = (0..n).map(|i| R((i as f32 * 0.37).sin())).collect();
    let fcn = FCN::new(layers, params.clone()).unwrap();
    let x = rs(&[1.25]);
    let a = fcn.at_with(&x, &params).unwrap();
    let b = fcn.at_with(&x, &params).unwrap();
    assert_eq!(a, b);
    assert_eq!(fcn.at(&x).unwrap(), a);
}

#[test]
fn set_params_checks_length() {
    let layers = vec![(1, Activation::Linear), (2, Activation::Linear)];
    let mut fcn = FCN::new(layers, rs(&[1.0, 2.0, 3.0, 4.0])).unwrap();
    assert!(matches!(fcn.set_params(rs(&[9.0])), Err(Error::ShapeMismatch)));
    assert_eq!(fs(fcn.params()), vec![1.0, 2.0, 3.0, 4.0]);
    assert!(fcn.set_params(rs(&[5.0, 6.0, 7.0, 8.0])).is_ok());
    assert_eq!(fs(fcn.params()), vec![5.0, 6.0, 7.0, 8.0]);
    // W = [[5], [6]], b = [7, 8]
    assert_eq!(fs(&fcn.at(&rs(&[1.0])).unwrap()), vec![12.0, 14.0]);
}

#[test]
fn saved_policy_reloads_to_equal_outputs() {
    let layers = vec![(3, Activation::Linear), (5, leaky()), (5, Activation::Sigmoid), (2, Activation::Linear)];
    let n = param_count_of(&layers).unwrap();
    let params: Vec<R> = (0..n).map(|i| R((i as f32 * 1.7).cos() * 3.1)).collect();
    let fcn = FCN::new(layers, params).unwrap();

    let saved_params = serde_json::to_string(&fs(fcn.params())).unwrap();
    let saved_layers: Vec<(usize, u8, f32)> = fcn
        .layers()
        .iter()
        .map(|(w, a)| match a {
            Activation::Linear => (*w, 0, 0.0),
            Activation::LeakyReLu(s) => (*w, 1, s.0),
            Activation::Sigmoid => (*w, 2, 0.0),
        })
        .collect();
    let saved_layers = serde_json::to_string(&saved_layers).unwrap();

    let loaded_params: Vec<f32> = serde_json::from_str(&saved_params).unwrap();
    let loaded_layers: Vec<(usize, u8, f32)> = serde_json::from_str(&saved_layers).unwrap();
    let loaded_layers: Vec<(usize, Activation<R>)> = loaded_layers
        .into_iter()
        .map(|(w, k, s)| match k {
            0 => (w, Activation::Linear),
            1 => (w, Activation::LeakyReLu(R(s))),
            _ => (w, Activation::Sigmoid),
        })
        .collect();
    let reloaded = FCN::new(loaded_layers, rs(&loaded_params)).unwrap();

    for x in [[0.0f32, 0.0, 0.0], [1.0, -2.0, 0.5], [100.0, 3.0, -7.25]] {
        let input = rs(&x);
        assert_eq!(fcn.at(&input).unwrap(), reloaded.at(&input).unwrap());
    }
}
