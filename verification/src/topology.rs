//! The shape of the network: how many layers, how wide, and how they chain.
//!
//! Weights and biases are real numbers and live with the caller; what is
//! fixed here is where they go and how many there are.

use vstd::prelude::*;
use crate::params::TrainingParams;

verus! {

/// Measurements per water sample, and so inputs of the network.
pub const INPUT_DIM: usize = 9;

/// Outputs of the network: the one probability of potability.
pub const OUTPUT_DIM: usize = 1;

/// How a layer bends its sums.
#[derive(Clone, Copy, Debug, PartialEq, Eq, Structural)]
pub enum Activation {
    /// The logistic curve, into the open interval from zero to one.
    Sigmoid,
    /// Zero below zero, the identity above.
    Relu,
}

/// One fully connected layer: a weight matrix of `out_dim` rows and `in_dim`
/// columns, a bias per row, and an activation.
#[derive(Clone, Copy, Debug, PartialEq, Eq, Structural)]
pub struct LayerShape {
    pub in_dim: usize,
    pub out_dim: usize,
    pub activation: Activation,
}

impl LayerShape {
    /// Weights and biases of the layer, together.
    pub open spec fn parameters(self) -> nat {
        (self.out_dim * self.in_dim + self.out_dim) as nat
    }

    /// Weights of the layer: one for every pair of an output and an input.
    pub open spec fn weights(self) -> nat {
        (self.out_dim * self.in_dim) as nat
    }

    /// Whether the layer has a weight for this output and this input.
    pub open spec fn holds(self, row: usize, col: usize) -> bool {
        row < self.out_dim && col < self.in_dim && self.weights() <= usize::MAX
    }

    /// The number of weights, where a `usize` holds it.
    pub fn weight_count(&self) -> (n: Option<usize>)
        ensures
            match n {
                Some(n) => n == self.weights(),
                None => self.weights() > usize::MAX,
            },
    {
        self.out_dim.checked_mul(self.in_dim)
    }

    /// Where the weight from input `col` to output `row` stands when the
    /// weight matrix is stored row after row: behind the `row` full rows
    /// before it, at place `col` of its own. Outside the matrix there is no
    /// such place.
    pub fn weight_index(&self, row: usize, col: usize) -> (index: Option<usize>)
        ensures
            self.holds(row, col) ==> index == Some((row * self.in_dim + col) as usize)
                && row * self.in_dim + col < self.weights(),
            !self.holds(row, col) ==> index is None,
    {
        if row >= self.out_dim || col >= self.in_dim {
            return None;
        }
        match self.out_dim.checked_mul(self.in_dim) {
            Some(_) => {
                proof {
                    lemma_row_major(self.out_dim as int, self.in_dim as int, row as int, col as int);
                }
                Some(row * self.in_dim + col)
            },
            None => None,
        }
    }
}

/// In a matrix stored row after row, every place of the matrix has a place
/// in the store, and within it.
pub proof fn lemma_row_major(rows: int, cols: int, row: int, col: int)
    requires
        0 <= row < rows,
        0 <= col < cols,
    ensures
        0 <= row * cols + col < rows * cols,
        0 <= row * cols <= row * cols + col,
{
    assert(0 <= row * cols && (row + 1) * cols <= rows * cols && (row + 1) * cols == row * cols
        + cols) by (nonlinear_arith)
        requires
            0 <= row < rows,
            0 < cols,
    ;
}

/// In a matrix stored row after row, two places of the matrix that stand at
/// one place of the store are one place.
pub proof fn lemma_row_major_injective(cols: int, row: int, col: int, other_row: int, other_col: int)
    requires
        0 <= col < cols,
        0 <= other_col < cols,
        row * cols + col == other_row * cols + other_col,
    ensures
        row == other_row,
        col == other_col,
{
    assert(row == other_row) by (nonlinear_arith)
        requires
            0 <= col < cols,
            0 <= other_col < cols,
            row * cols + col == other_row * cols + other_col,
    ;
}

/// The layers of a network with `hidden_layers` hidden layers of `neurons`
/// neurons each, from input to output: every layer takes what the one before
/// it gives, the first takes the input, the last gives the output. Hidden
/// layers bend with `hidden`; the output layer is always a sigmoid.
pub open spec fn plan(
    input_dim: usize,
    hidden_layers: usize,
    neurons: usize,
    output_dim: usize,
    hidden: Activation,
) -> Seq<LayerShape> {
    Seq::new(
        (hidden_layers + 1) as nat,
        |i: int|
            LayerShape {
                in_dim: if i == 0 {
                    input_dim
                } else {
                    neurons
                },
                out_dim: if i == hidden_layers {
                    output_dim
                } else {
                    neurons
                },
                activation: if i == hidden_layers {
                    Activation::Sigmoid
                } else {
                    hidden
                },
            },
    )
}

/// Weights and biases of all the layers, together.
pub open spec fn total_parameters(layers: Seq<LayerShape>) -> nat
    decreases layers.len(),
{
    if layers.len() == 0 {
        0
    } else {
        total_parameters(layers.drop_last()) + layers.last().parameters()
    }
}

/// Each layer takes as many values as the one before it gives.
pub open spec fn chained(layers: Seq<LayerShape>) -> bool {
    forall|i: int, j: int|
        0 <= i && j == i + 1 && j < layers.len() ==> (#[trigger] layers[i]).out_dim
            == (#[trigger] layers[j]).in_dim
}

/// What every [`NetworkShape`] satisfies: at least one hidden layer, no
/// empty layer, layers that chain, hidden layers of one width, a sigmoid at
/// the output, and a number of parameters that a `usize` holds.
pub open spec fn well_formed(layers: Seq<LayerShape>) -> bool {
    &&& layers.len() >= 2
    &&& chained(layers)
    &&& forall|i: int|
        0 <= i < layers.len() ==> (#[trigger] layers[i]).in_dim >= 1 && layers[i].out_dim >= 1
    &&& forall|i: int|
        0 <= i < layers.len() - 1 ==> (#[trigger] layers[i]).out_dim == layers[0].out_dim
    &&& layers.last().activation == Activation::Sigmoid
    &&& total_parameters(layers) <= usize::MAX
}

/// The number of parameters of a planned network, counted layer by layer:
/// the first hidden layer on the input, every further hidden layer on the
/// one before it, and the output layer on the last hidden layer.
pub open spec fn planned_parameters(
    input_dim: usize,
    hidden_layers: usize,
    neurons: usize,
    output_dim: usize,
) -> int {
    (neurons * input_dim + neurons) + (hidden_layers - 1) * (neurons * neurons + neurons) + (
    output_dim * neurons + output_dim)
}

/// Whether a network of these dimensions can be built: none of them is
/// zero, and a `usize` holds the number of its parameters.
pub open spec fn buildable(
    input_dim: usize,
    hidden_layers: usize,
    neurons: usize,
    output_dim: usize,
) -> bool {
    &&& input_dim >= 1
    &&& hidden_layers >= 1
    &&& neurons >= 1
    &&& output_dim >= 1
    &&& planned_parameters(input_dim, hidden_layers, neurons, output_dim) <= usize::MAX
}

/// The first layers of a network have no more parameters than all of them.
pub proof fn lemma_total_parameters_grows(layers: Seq<LayerShape>, n: int)
    requires
        0 <= n <= layers.len(),
    ensures
        total_parameters(layers.take(n)) <= total_parameters(layers),
    decreases layers.len(),
{
    if n == layers.len() {
        assert(layers.take(n) =~= layers);
    } else {
        lemma_total_parameters_grows(layers.drop_last(), n);
        assert(layers.drop_last().take(n) =~= layers.take(n));
    }
}

proof fn lemma_hidden_parameters(
    input_dim: usize,
    hidden_layers: usize,
    neurons: usize,
    output_dim: usize,
    hidden: Activation,
    k: int,
)
    requires
        1 <= k <= hidden_layers,
    ensures
        total_parameters(plan(input_dim, hidden_layers, neurons, output_dim, hidden).take(k)) == (
        neurons * input_dim + neurons) + (k - 1) * (neurons * neurons + neurons),
    decreases k,
{
    reveal_with_fuel(total_parameters, 2);
    let layers = plan(input_dim, hidden_layers, neurons, output_dim, hidden);
    assert(layers.take(k).drop_last() =~= layers.take(k - 1));
    assert(layers.take(k).last() == layers[k - 1]);
    if k == 1 {
        assert(layers.take(0).len() == 0);
    } else {
        lemma_hidden_parameters(input_dim, hidden_layers, neurons, output_dim, hidden, k - 1);
        let each = neurons * neurons + neurons;
        assert(layers[k - 1].parameters() == each);
        assert((k - 2) * each + each == (k - 1) * each) by (nonlinear_arith);
    }
}

/// The layers of a plan have, together, as many parameters as
/// [`planned_parameters`] counts, whatever the hidden layers bend with.
pub proof fn lemma_planned_parameters(
    input_dim: usize,
    hidden_layers: usize,
    neurons: usize,
    output_dim: usize,
    hidden: Activation,
)
    requires
        hidden_layers >= 1,
    ensures
        total_parameters(plan(input_dim, hidden_layers, neurons, output_dim, hidden))
            == planned_parameters(input_dim, hidden_layers, neurons, output_dim),
{
    let layers = plan(input_dim, hidden_layers, neurons, output_dim, hidden);
    lemma_hidden_parameters(
        input_dim,
        hidden_layers,
        neurons,
        output_dim,
        hidden,
        hidden_layers as int,
    );
    assert(layers.drop_last() =~= layers.take(hidden_layers as int));
    assert(layers.last() == layers[hidden_layers as int]);
}

/// A plan of buildable dimensions is a well-formed network.
pub proof fn lemma_plan_is_well_formed(
    input_dim: usize,
    hidden_layers: usize,
    neurons: usize,
    output_dim: usize,
    hidden: Activation,
)
    requires
        buildable(input_dim, hidden_layers, neurons, output_dim),
    ensures
        well_formed(plan(input_dim, hidden_layers, neurons, output_dim, hidden)),
{
    lemma_planned_parameters(input_dim, hidden_layers, neurons, output_dim, hidden);
}

/// Weights and biases of one layer together, where a `usize` holds their
/// number.
fn layer_parameters(layer: &LayerShape) -> (r: Option<usize>)
    ensures
        match r {
            Some(n) => n == layer.parameters(),
            None => layer.parameters() > usize::MAX,
        },
{
    match layer.out_dim.checked_mul(layer.in_dim) {
        Some(weights) => weights.checked_add(layer.out_dim),
        None => None,
    }
}

/// Whether a network of these dimensions can be built.
pub fn is_buildable(
    input_dim: usize,
    hidden_layers: usize,
    neurons: usize,
    output_dim: usize,
) -> (r: bool)
    ensures
        r == buildable(input_dim, hidden_layers, neurons, output_dim),
{
    if input_dim == 0 || hidden_layers == 0 || neurons == 0 || output_dim == 0 {
        return false;
    }
    let first = LayerShape { in_dim: input_dim, out_dim: neurons, activation: Activation::Sigmoid };
    let middle = LayerShape { in_dim: neurons, out_dim: neurons, activation: Activation::Sigmoid };
    let last = LayerShape { in_dim: neurons, out_dim: output_dim, activation: Activation::Sigmoid };
    let ghost each = neurons * neurons + neurons;
    let ghost more = hidden_layers - 1;
    assert(first.parameters() == neurons * input_dim + neurons);
    assert(middle.parameters() == each);
    assert(last.parameters() == output_dim * neurons + output_dim);
    assert(more * each >= 0) by (nonlinear_arith)
        requires
            more >= 0,
            each >= 0,
    ;
    let ends = match (layer_parameters(&first), layer_parameters(&last)) {
        (Some(a), Some(b)) => a.checked_add(b),
        _ => None,
    };
    let ends = match ends {
        Some(e) => e,
        None => {
            return false;
        },
    };
    if hidden_layers == 1 {
        assert(more * each == 0) by (nonlinear_arith)
            requires
                more == 0,
        ;
        return true;
    }
    assert(more * each >= each) by (nonlinear_arith)
        requires
            more >= 1,
            each >= 0,
    ;
    let hidden = match layer_parameters(&middle) {
        Some(m) => m.checked_mul(hidden_layers - 1),
        None => None,
    };
    match hidden {
        Some(h) => {
            assert(h == more * each) by (nonlinear_arith)
                requires
                    h == each * more,
            ;
            ends.checked_add(h).is_some()
        },
        None => {
            assert(more * each == each * more) by (nonlinear_arith);
            false
        },
    }
}

/// The layers of a network, input first. Depth and width are fixed when the
/// shape is made; every shape is well formed.
#[derive(Debug)]
pub struct NetworkShape {
    layers: Vec<LayerShape>,
    parameters: usize,
}

impl View for NetworkShape {
    type V = Seq<LayerShape>;

    closed spec fn view(&self) -> Seq<LayerShape> {
        self.layers@
    }
}

impl NetworkShape {
    #[verifier::type_invariant]
    spec fn wf(&self) -> bool {
        &&& well_formed(self.layers@)
        &&& self.parameters == total_parameters(self.layers@)
    }

    /// Lays out a network whose layers are all sigmoid.
    pub fn create(
        input_dim: usize,
        hidden_layers: usize,
        neurons_per_layer: usize,
        output_dim: usize,
    ) -> (shape: Option<NetworkShape>)
        ensures
            buildable(input_dim, hidden_layers, neurons_per_layer, output_dim) ==> shape is Some
                && shape->0@ == plan(
                input_dim,
                hidden_layers,
                neurons_per_layer,
                output_dim,
                Activation::Sigmoid,
            ),
            !buildable(input_dim, hidden_layers, neurons_per_layer, output_dim) ==> shape is None,
    {
        NetworkShape::create_with(
            input_dim,
            hidden_layers,
            neurons_per_layer,
            output_dim,
            Activation::Sigmoid,
        )
    }

    /// Lays out a network whose hidden layers bend with `hidden`.
    ///
    /// Succeeds exactly where the dimensions are buildable, and then hands
    /// out the planned layers: as many as `hidden_layers` and one more.
    pub fn create_with(
        input_dim: usize,
        hidden_layers: usize,
        neurons_per_layer: usize,
        output_dim: usize,
        hidden: Activation,
    ) -> (shape: Option<NetworkShape>)
        ensures
            buildable(input_dim, hidden_layers, neurons_per_layer, output_dim) ==> shape is Some
                && shape->0@ == plan(
                input_dim,
                hidden_layers,
                neurons_per_layer,
                output_dim,
                hidden,
            ),
            !buildable(input_dim, hidden_layers, neurons_per_layer, output_dim) ==> shape is None,
    {
        if !is_buildable(input_dim, hidden_layers, neurons_per_layer, output_dim) {
            return None;
        }
        let ghost target = plan(input_dim, hidden_layers, neurons_per_layer, output_dim, hidden);
        proof {
            lemma_planned_parameters(
                input_dim,
                hidden_layers,
                neurons_per_layer,
                output_dim,
                hidden,
            );
        }
        let mut layers: Vec<LayerShape> = Vec::new();
        let mut parameters: usize = 0;
        assert(layers@ =~= target.take(0));
        while layers.len() <= hidden_layers
            invariant
                layers@.len() <= hidden_layers + 1,
                target == plan(input_dim, hidden_layers, neurons_per_layer, output_dim, hidden),
                total_parameters(target) <= usize::MAX,
                layers@ == target.take(layers@.len() as int),
                parameters == total_parameters(layers@),
            decreases hidden_layers + 1 - layers@.len(),
        {
            let i = layers.len();
            let layer = LayerShape {
                in_dim: if i == 0 {
                    input_dim
                } else {
                    neurons_per_layer
                },
                out_dim: if i == hidden_layers {
                    output_dim
                } else {
                    neurons_per_layer
                },
                activation: if i == hidden_layers {
                    Activation::Sigmoid
                } else {
                    hidden
                },
            };
            proof {
                assert(layer == target[i as int]);
                assert(layers@.push(layer) =~= target.take(i + 1));
                assert(layers@.push(layer).drop_last() =~= layers@);
                lemma_total_parameters_grows(target, i + 1);
            }
            parameters = parameters + (layer.out_dim * layer.in_dim + layer.out_dim);
            layers.push(layer);
        }
        proof {
            assert(layers@ =~= target);
            lemma_plan_is_well_formed(
                input_dim,
                hidden_layers,
                neurons_per_layer,
                output_dim,
                hidden,
            );
        }
        Some(NetworkShape { layers, parameters })
    }

    /// Lays out the network that the given parameters ask for: nine inputs,
    /// the hidden layers and their width from the parameters, one output.
    pub fn for_params(params: &TrainingParams) -> (shape: Option<NetworkShape>)
        ensures
            buildable(INPUT_DIM, params.hidden_layers, params.neurons_per_layer, OUTPUT_DIM)
                ==> shape is Some && shape->0@ == plan(
                INPUT_DIM,
                params.hidden_layers,
                params.neurons_per_layer,
                OUTPUT_DIM,
                Activation::Sigmoid,
            ),
            !buildable(INPUT_DIM, params.hidden_layers, params.neurons_per_layer, OUTPUT_DIM)
                ==> shape is None,
    {
        NetworkShape::create(INPUT_DIM, params.hidden_layers, params.neurons_per_layer, OUTPUT_DIM)
    }

    /// The number of layers, the output layer included; at least two.
    pub fn depth(&self) -> (n: usize)
        ensures
            n == self@.len(),
            well_formed(self@),
    {
        proof {
            use_type_invariant(self);
        }
        self.layers.len()
    }

    /// The layer at `index`, counted from the input, if there is one.
    pub fn layer(&self, index: usize) -> (layer: Option<LayerShape>)
        ensures
            index < self@.len() ==> layer == Some(self@[index as int]),
            index >= self@.len() ==> layer is None,
    {
        if index < self.layers.len() {
            Some(self.layers[index])
        } else {
            None
        }
    }

    /// How many values the network takes.
    pub fn input_dim(&self) -> (n: usize)
        ensures
            n == self@.first().in_dim,
            n >= 1,
    {
        proof {
            use_type_invariant(self);
        }
        self.layers[0].in_dim
    }

    /// How many values the network gives.
    pub fn output_dim(&self) -> (n: usize)
        ensures
            n == self@.last().out_dim,
            n >= 1,
    {
        proof {
            use_type_invariant(self);
        }
        self.layers[self.layers.len() - 1].out_dim
    }

    /// Weights and biases of the whole network, together.
    pub fn parameter_count(&self) -> (n: usize)
        ensures
            n == total_parameters(self@),
    {
        proof {
            use_type_invariant(self);
        }
        self.parameters
    }

    /// Whether the network is the one that the given parameters ask for:
    /// nine inputs, their number of hidden layers of their width, one
    /// output.
    pub fn matches(&self, params: &TrainingParams) -> (r: bool)
        ensures
            r == (self@.len() == params.hidden_layers + 1 && self@.first().in_dim == INPUT_DIM
                && self@.first().out_dim == params.neurons_per_layer && self@.last().out_dim
                == OUTPUT_DIM),
    {
        proof {
            use_type_invariant(self);
        }
        let n = self.layers.len();
        params.hidden_layers < usize::MAX && n == params.hidden_layers + 1
            && self.layers[0].in_dim == INPUT_DIM && self.layers[0].out_dim
            == params.neurons_per_layer && self.layers[n - 1].out_dim == OUTPUT_DIM
    }
}

/// A network that matches parameters in the sense of
/// [`NetworkShape::matches`] has, layer by layer, the dimensions of the
/// network that is laid out for them.
pub proof fn lemma_match_is_plan(layers: Seq<LayerShape>, params: TrainingParams)
    requires
        well_formed(layers),
        layers.len() == params.hidden_layers + 1,
        layers.first().in_dim == INPUT_DIM,
        layers.first().out_dim == params.neurons_per_layer,
        layers.last().out_dim == OUTPUT_DIM,
    ensures
        forall|i: int|
            0 <= i < layers.len() ==> (#[trigger] layers[i]).in_dim == plan(
                INPUT_DIM,
                params.hidden_layers,
                params.neurons_per_layer,
                OUTPUT_DIM,
                Activation::Sigmoid,
            )[i].in_dim && layers[i].out_dim == plan(
                INPUT_DIM,
                params.hidden_layers,
                params.neurons_per_layer,
                OUTPUT_DIM,
                Activation::Sigmoid,
            )[i].out_dim,
{
    assert forall|i: int| 0 <= i < layers.len() implies (#[trigger] layers[i]).in_dim == plan(
        INPUT_DIM,
        params.hidden_layers,
        params.neurons_per_layer,
        OUTPUT_DIM,
        Activation::Sigmoid,
    )[i].in_dim && layers[i].out_dim == plan(
        INPUT_DIM,
        params.hidden_layers,
        params.neurons_per_layer,
        OUTPUT_DIM,
        Activation::Sigmoid,
    )[i].out_dim by {
        if i > 0 {
            assert(layers[i - 1].out_dim == layers[i].in_dim);
        }
    }
}

} // verus!
