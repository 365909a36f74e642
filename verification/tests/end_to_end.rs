use potability::dataset::{Dataset, Normalization, Sample};
use potability::params::TrainingParams;
use potability::predictor::{check_request, classify};
use potability::progress::{count_correct, TrainingProgress};
use potability::records::load;
use potability::schedule::TrainingRun;
use potability::topology::{Activation, NetworkShape};

const SOURCE: &str = "ph,Hardness,Solids,Chloramines,Sulfate,Conductivity,Organic_carbon,Trihalomethanes,Turbidity,Potability
7.0,150,500,5,250,350,5,30,2,0
8.5,160,450,4,260,340,4,28,1.5,1
6.5,140,520,6,240,360,6,32,2.5,0
";

/// A small trainer in floating point, laid out and scheduled by the library.
#[derive(Clone, PartialEq, Debug)]
struct Net {
    shapes: Vec<potability::topology::LayerShape>,
    weights: Vec<Vec<f64>>,
    biases: Vec<Vec<f64>>,
}

fn fixed_net(params: &TrainingParams) -> Net {
    let shape = NetworkShape::for_params(params).unwrap();
    assert!(shape.matches(params));
    let mut state: u64 = 0x2545F4914F6CDD1D;
    let mut next = move || {
        state = state.wrapping_mul(6364136223846793005).wrapping_add(1442695040888963407);
        ((state >> 11) as f64 / (1u64 << 53) as f64 - 0.5) * 0.1
    };
    let shapes: Vec<_> = (0..shape.depth()).map(|i| shape.layer(i).unwrap()).collect();
    let weights = shapes.iter().map(|l| (0..l.weight_count().unwrap()).map(|_| next()).collect()).collect();
    let biases = shapes.iter().map(|l| vec![0.0; l.out_dim]).collect();
    Net { shapes, weights, biases }
}

fn forward(net: &Net, features: &[f64]) -> (f64, Vec<Vec<f64>>) {
    let mut activations = vec![features.to_vec()];
    for (k, layer) in net.shapes.iter().enumerate() {
        assert_eq!(layer.activation, Activation::Sigmoid);
        let input = activations[k].clone();
        let output = (0..layer.out_dim)
            .map(|row| {
                let z: f64 = (0..layer.in_dim)
                    .map(|col| net.weights[k][layer.weight_index(row, col).unwrap()] * input[col])
                    .sum::<f64>()
                    + net.biases[k][row];
                1.0 / (1.0 + (-z).exp())
            })
            .collect();
        activations.push(output);
    }
    (activations[net.shapes.len()][0], activations)
}

fn backward(net: &mut Net, activations: &[Vec<f64>], target: f64, rate: f64) -> f64 {
    let output = activations[net.shapes.len()][0];
    let loss = -(target * output.ln() + (1.0 - target) * (1.0 - output).ln());
    let mut delta = vec![output - target];
    for k in (0..net.shapes.len()).rev() {
        let layer = net.shapes[k];
        let input = &activations[k];
        let mut upstream = vec![0.0; layer.in_dim];
        for row in 0..layer.out_dim {
            for col in 0..layer.in_dim {
                let at = layer.weight_index(row, col).unwrap();
                upstream[col] += net.weights[k][at] * delta[row];
                net.weights[k][at] -= rate * delta[row] * input[col];
            }
            net.biases[k][row] -= rate * delta[row];
        }
        delta = upstream.iter().zip(input).map(|(u, a)| u * a * (1.0 - a)).collect();
    }
    loss
}

fn dataset() -> Dataset {
    let records = match load(SOURCE.as_bytes()) {
        Ok(records) => records,
        Err(e) => panic!("{e:?}"),
    };
    let rows: Vec<([f64; 9], bool)> = records
        .iter()
        .map(|r| {
            let mut values = [0.0; 9];
            for (v, text) in values.iter_mut().zip(&r.features) {
                *v = std::str::from_utf8(text).unwrap().parse().unwrap();
            }
            (values, r.label)
        })
        .collect();
    let n = rows.len() as f64;
    let mut means = [0.0; 9];
    let mut deviations = [0.0; 9];
    for i in 0..9 {
        means[i] = rows.iter().map(|(v, _)| v[i]).sum::<f64>() / n;
        deviations[i] = (rows.iter().map(|(v, _)| (v[i] - means[i]).powi(2)).sum::<f64>() / n).sqrt();
    }
    let stats = Normalization::new(means.map(f64::to_bits), deviations.map(f64::to_bits)).unwrap();
    let divisors = stats.deviations().map(f64::from_bits);
    let samples = rows
        .iter()
        .map(|(v, label)| {
            let mut normalized = [0u64; 9];
            for i in 0..9 {
                normalized[i] = ((v[i] - means[i]) / divisors[i]).to_bits();
            }
            Sample::new(normalized, *label).unwrap()
        })
        .collect();
    match Dataset::new(samples, stats) {
        Ok(data) => data,
        Err(e) => panic!("{e:?}"),
    }
}

fn train(net: &mut Net, data: &Dataset, params: &TrainingParams) -> Vec<TrainingProgress> {
    let samples: Vec<(Vec<f64>, bool)> = (0..data.len())
        .map(|i| data.sample(i).unwrap())
        .map(|s| (s.features().iter().map(|b| f64::from_bits(*b)).collect(), s.label()))
        .collect();
    let labels: Vec<bool> = samples.iter().map(|(_, l)| *l).collect();
    let rate = f64::from_bits(params.learning_rate);
    let mut run = TrainingRun::begin(params).unwrap();
    let mut reports = Vec::new();
    let mut passes = 0;
    while let Some(step) = run.advance() {
        passes += 1;
        let mut loss = 0.0;
        for (features, label) in &samples {
            let (_, activations) = forward(net, features);
            loss += backward(net, &activations, if *label { 1.0 } else { 0.0 }, rate);
        }
        if step.report {
            let outputs: Vec<u64> = samples.iter().map(|(f, _)| forward(net, f).0.to_bits()).collect();
            let correct = count_correct(&outputs, &labels).unwrap();
            let accuracy = 100.0 * correct as f64 / samples.len() as f64;
            let mean_loss = loss / samples.len() as f64;
            reports.push(TrainingProgress::new(step.epoch, accuracy.to_bits(), mean_loss.to_bits()).unwrap());
        }
    }
    assert_eq!(passes, params.epochs);
    reports
}

fn scenario() -> TrainingParams {
    TrainingParams {
        epochs: 50,
        hidden_layers: 1,
        neurons_per_layer: 4,
        learning_rate: 0.5f64.to_bits(),
        restart_training: false,
    }
}

#[test]
fn normalized_features_have_mean_zero_and_deviation_one() {
    let data = dataset();
    let n = data.len() as f64;
    for i in 0..9 {
        let values: Vec<f64> =
            (0..data.len()).map(|k| f64::from_bits(data.sample(k).unwrap().features()[i])).collect();
        let mean = values.iter().sum::<f64>() / n;
        let deviation = (values.iter().map(|v| (v - mean).powi(2)).sum::<f64>() / n).sqrt();
        assert!(mean.abs() < 1e-6, "feature {i}: mean {mean}");
        assert!((deviation - 1.0).abs() < 1e-6, "feature {i}: deviation {deviation}");
    }
}

#[test]
fn three_samples_are_learnt_in_fifty_epochs() {
    let data = dataset();
    let params = scenario();
    let mut net = fixed_net(&params);
    let reports = train(&mut net, &data, &params);
    assert_eq!(reports.iter().map(|r| r.epoch()).collect::<Vec<_>>(), vec![1, 10, 20, 30, 40, 50]);
    let first = &reports[0];
    let last = &reports[reports.len() - 1];
    assert!(f64::from_bits(last.accuracy()) > f64::from_bits(first.accuracy()));
    assert!(f64::from_bits(last.loss()) < f64::from_bits(first.loss()));
    assert_eq!(f64::from_bits(last.accuracy()), 100.0);
    for r in &reports {
        assert!((0.0..=100.0).contains(&f64::from_bits(r.accuracy())));
        assert!(f64::from_bits(r.loss()) >= 0.0);
    }
}

#[test]
fn training_twice_from_the_same_weights_gives_the_same_weights() {
    let data = dataset();
    let params = scenario();
    let mut a = fixed_net(&params);
    let mut b = a.clone();
    train(&mut a, &data, &params);
    train(&mut b, &data, &params);
    let bits = |net: &Net| -> Vec<u64> {
        net.weights.iter().chain(&net.biases).flatten().map(|w| w.to_bits()).collect()
    };
    assert_eq!(bits(&a), bits(&b));
    assert_ne!(bits(&a), bits(&fixed_net(&params)));
}

#[test]
fn a_trained_network_answers_requests_of_nine_features() {
    let data = dataset();
    let params = scenario();
    let mut net = fixed_net(&params);
    train(&mut net, &data, &params);
    let before = net.clone();
    assert!(check_request(8, true).is_err());
    assert_eq!(net, before);
    let stats = data.normalization();
    let means = stats.means().map(f64::from_bits);
    let deviations = stats.deviations().map(f64::from_bits);
    let answer = |raw: [f64; 9]| {
        check_request(raw.len(), true).unwrap();
        let normalized: Vec<f64> = (0..9).map(|i| (raw[i] - means[i]) / deviations[i]).collect();
        classify(forward(&net, &normalized).0.to_bits()).unwrap()
    };
    assert!(answer([8.5, 160.0, 450.0, 4.0, 260.0, 340.0, 4.0, 28.0, 1.5]).is_potable);
    assert!(!answer([7.0, 150.0, 500.0, 5.0, 250.0, 350.0, 5.0, 30.0, 2.0]).is_potable);
    assert!(!answer([6.5, 140.0, 520.0, 6.0, 240.0, 360.0, 6.0, 32.0, 2.5]).is_potable);
    assert_eq!(net, before);
}
