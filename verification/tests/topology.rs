use potability::params::TrainingParams;
use potability::topology::{
    is_buildable, Activation, LayerShape, NetworkShape, INPUT_DIM, OUTPUT_DIM,
};

#[test]
fn one_hidden_layer_of_four() {
    let shape = NetworkShape::create(9, 1, 4, 1).unwrap();
    assert_eq!(shape.depth(), 2);
    assert_eq!(
        shape.layer(0),
        Some(LayerShape { in_dim: 9, out_dim: 4, activation: Activation::Sigmoid })
    );
    assert_eq!(
        shape.layer(1),
        Some(LayerShape { in_dim: 4, out_dim: 1, activation: Activation::Sigmoid })
    );
    assert_eq!(shape.layer(2), None);
    assert_eq!(shape.input_dim(), 9);
    assert_eq!(shape.output_dim(), 1);
    assert_eq!(shape.parameter_count(), 4 * 9 + 4 + 1 * 4 + 1);
}

#[test]
fn default_network_has_its_layers_chained() {
    let p = TrainingParams::default();
    let shape = NetworkShape::for_params(&p).unwrap();
    assert_eq!(shape.depth(), 3);
    assert_eq!(shape.input_dim(), INPUT_DIM);
    assert_eq!(shape.output_dim(), OUTPUT_DIM);
    for i in 0..shape.depth() - 1 {
        assert_eq!(shape.layer(i).unwrap().out_dim, shape.layer(i + 1).unwrap().in_dim);
    }
    assert_eq!(shape.parameter_count(), (32 * 9 + 32) + (32 * 32 + 32) + (32 + 1));
    assert!(shape.matches(&p));
}

#[test]
fn hidden_activation_never_reaches_the_output() {
    let shape = NetworkShape::create_with(9, 3, 5, 1, Activation::Relu).unwrap();
    assert_eq!(shape.depth(), 4);
    for i in 0..3 {
        assert_eq!(shape.layer(i).unwrap().activation, Activation::Relu);
    }
    assert_eq!(shape.layer(3).unwrap().activation, Activation::Sigmoid);
}

#[test]
fn no_network_with_an_empty_dimension() {
    assert!(NetworkShape::create(0, 1, 4, 1).is_none());
    assert!(NetworkShape::create(9, 0, 4, 1).is_none());
    assert!(NetworkShape::create(9, 1, 0, 1).is_none());
    assert!(NetworkShape::create(9, 1, 4, 0).is_none());
}

#[test]
fn no_network_with_more_parameters_than_can_be_counted() {
    assert!(NetworkShape::create(9, 1, usize::MAX, 1).is_none());
    assert!(NetworkShape::create(9, 2, usize::MAX / 2, 1).is_none());
    assert!(NetworkShape::create(usize::MAX, 1, 1, 1).is_none());
}

#[test]
fn a_network_matches_only_the_parameters_it_was_laid_out_for() {
    let mut p = TrainingParams::default();
    let shape = NetworkShape::for_params(&p).unwrap();
    p.hidden_layers = 3;
    assert!(!shape.matches(&p));
    p.hidden_layers = 2;
    p.neurons_per_layer = 16;
    assert!(!shape.matches(&p));
    p.neurons_per_layer = 32;
    p.epochs = 1;
    assert!(shape.matches(&p));
}

#[test]
fn parameters_are_counted_layer_by_layer() {
    for (input, hidden, neurons, output) in [(9, 1, 4, 1), (9, 2, 32, 1), (9, 5, 7, 1), (3, 4, 2, 6)] {
        let shape = NetworkShape::create(input, hidden, neurons, output).unwrap();
        let by_formula = (neurons * input + neurons)
            + (hidden - 1) * (neurons * neurons + neurons)
            + (output * neurons + output);
        let by_layers: usize = (0..shape.depth())
            .map(|i| shape.layer(i).unwrap())
            .map(|l| l.out_dim * l.in_dim + l.out_dim)
            .sum();
        assert_eq!(shape.parameter_count(), by_formula);
        assert_eq!(shape.parameter_count(), by_layers);
    }
}

#[test]
fn buildable_is_what_create_builds() {
    for (input, hidden, neurons, output) in [
        (9, 1, 4, 1),
        (9, 0, 4, 1),
        (0, 1, 4, 1),
        (9, 1, usize::MAX, 1),
        (9, 1, usize::MAX / 16, 1),
        (9, 2, usize::MAX / 16, 1),
        (9, 3, 1 << (usize::BITS / 2), 1),
        (9, 3, (1 << (usize::BITS / 2 - 1)) - 2, 1),
    ] {
        assert_eq!(
            is_buildable(input, hidden, neurons, output),
            NetworkShape::create(input, hidden, neurons, output).is_some(),
            "{input} {hidden} {neurons} {output}"
        );
    }
    assert!(is_buildable(9, 1, usize::MAX / 16, 1));
    assert!(!is_buildable(9, 2, usize::MAX / 16, 1));
}

#[test]
fn weights_stand_row_after_row() {
    let layer = LayerShape { in_dim: 9, out_dim: 4, activation: Activation::Sigmoid };
    assert_eq!(layer.weight_count(), Some(36));
    assert_eq!(layer.weight_index(0, 0), Some(0));
    assert_eq!(layer.weight_index(0, 8), Some(8));
    assert_eq!(layer.weight_index(1, 0), Some(9));
    assert_eq!(layer.weight_index(3, 8), Some(35));
    assert_eq!(layer.weight_index(4, 0), None);
    assert_eq!(layer.weight_index(0, 9), None);
    let mut seen = vec![false; 36];
    for row in 0..4 {
        for col in 0..9 {
            let at = layer.weight_index(row, col).unwrap();
            assert!(!seen[at]);
            seen[at] = true;
        }
    }
    assert!(seen.iter().all(|s| *s));
}

#[test]
fn a_matrix_too_large_to_count_has_no_places() {
    let layer = LayerShape { in_dim: usize::MAX, out_dim: 2, activation: Activation::Relu };
    assert_eq!(layer.weight_count(), None);
    assert_eq!(layer.weight_index(0, 0), None);
    assert_eq!(layer.weight_index(1, 5), None);
}
