use trainer::color::Color;
use trainer::gpu::GpuDeviceData;
use trainer::input::Config;
use trainer::layer::{create_parameters, ReadableBuf, SCALAR_ONE};
use trainer::neural_network::{
    eval_performance, eval_single, output_color, run_training_step, train_nn, train_nn_schedule,
    BufferRef, EvalError, EvalResources, TrainAction, TrainError, TrainingResources,
};
use trainer::shaders::KernelKind;
use trainer::string::string_to_data;
use trainer::training_data::{DataSet, Example};

fn config() -> Config {
    Config::new(10, 5000, vec![4, 3]).unwrap()
}

fn batch_of_two(config: &Config) -> DataSet {
    // Two examples with known feature vectors; the first target is the zero
    // color, the second is one in the first component.
    vec![
        Example {
            features: string_to_data("ab", config),
            target: Color { l: 0, a: 0, b: 0 },
        },
        Example {
            features: string_to_data("cd", config),
            target: Color { l: SCALAR_ONE, a: 0, b: 0 },
        },
    ]
}

#[test]
fn eval_resources_wire_forward_groups() {
    let gpu = GpuDeviceData::new(true, 64);
    let config = config();
    let parameters = create_parameters(&config);
    let data = batch_of_two(&config);
    let resources = EvalResources::init(&gpu, &config, &parameters, &data);
    assert_eq!(resources.invocations, 2);
    assert_eq!(resources.bind_groups.len(), 2);
    assert_eq!(
        resources.bind_groups[0],
        vec![
            BufferRef::Weights(0),
            BufferRef::Biases(0),
            BufferRef::A(0),
            BufferRef::Z(1),
            BufferRef::A(1),
        ]
    );
    assert_eq!(
        resources.bind_groups[1],
        vec![
            BufferRef::Weights(1),
            BufferRef::Biases(1),
            BufferRef::A(1),
            BufferRef::Z(2),
            BufferRef::A(2),
        ]
    );
    // The input buffer holds the two encoded examples contiguously.
    assert_eq!(resources.a_buffers.input_contents.len(), 2 * 270);
    assert_eq!(&resources.a_buffers.input_contents[..270], &data[0].features[..]);
    assert_eq!(&resources.a_buffers.input_contents[270..], &data[1].features[..]);
}

#[test]
fn training_resources_wire_backprop_groups() {
    let gpu = GpuDeviceData::new(true, 64);
    let config = config();
    let parameters = create_parameters(&config);
    let data = batch_of_two(&config);
    let resources = TrainingResources::init(&gpu, config, &parameters, &data);

    // Inner layer: next layer's weights and error terms feed this layer's
    // error terms.
    assert_eq!(
        resources.backprop_bind_groups[0],
        vec![
            BufferRef::Weights(1),
            BufferRef::Z(1),
            BufferRef::DerivZ(2),
            BufferRef::DerivZ(1),
        ]
    );
    // Final layer: its own outputs against the expected values.
    assert_eq!(
        resources.backprop_bind_groups[1],
        vec![BufferRef::A(2), BufferRef::Z(2), BufferRef::Expected, BufferRef::DerivZ(2)]
    );
    assert_eq!(
        resources.backprop_bias_apply_bind_groups[0],
        vec![BufferRef::DerivZ(1), BufferRef::Biases(0)]
    );
    assert_eq!(
        resources.backprop_weight_apply_bind_groups[1],
        vec![BufferRef::A(1), BufferRef::DerivZ(2), BufferRef::Weights(1)]
    );
    // The expected-output buffer holds the two target colors contiguously:
    // the zero color, then one in the first component.
    assert_eq!(
        resources.expected_contents,
        vec![0, 0, 0, SCALAR_ONE, 0, 0]
    );
}

#[test]
fn training_step_records_phases_in_order() {
    let gpu = GpuDeviceData::new(true, 64);
    let config = config();
    let parameters = create_parameters(&config);
    let data = batch_of_two(&config);
    let resources = TrainingResources::init(&gpu, config, &parameters, &data);
    let passes = run_training_step(&resources);

    assert_eq!(passes.len(), 8);
    // Forward, layers first to last.
    assert!(matches!(passes[0].kernel, KernelKind::ComputeForwards));
    assert_eq!(passes[0].layer, 0);
    assert!(matches!(passes[1].kernel, KernelKind::ComputeForwards));
    assert_eq!(passes[1].layer, 1);
    // Backpropagation, last layer (from the cost) first.
    assert!(matches!(passes[2].kernel, KernelKind::BackpropFromCost));
    assert_eq!(passes[2].layer, 1);
    assert!(matches!(passes[3].kernel, KernelKind::BackpropFromLayer));
    assert_eq!(passes[3].layer, 0);
    // Apply, layers first to last, biases before weights.
    assert!(matches!(passes[4].kernel, KernelKind::ApplyBiases));
    assert_eq!(passes[4].layer, 0);
    assert!(matches!(passes[5].kernel, KernelKind::ApplyWeights));
    assert_eq!(passes[5].layer, 0);
    assert!(matches!(passes[6].kernel, KernelKind::ApplyBiases));
    assert_eq!(passes[6].layer, 1);
    assert!(matches!(passes[7].kernel, KernelKind::ApplyWeights));
    assert_eq!(passes[7].layer, 1);

    // Grids: batch of 2 tiled by 32, layer sizes tiled by 2.
    assert_eq!(passes[0].dispatch.x, 1);
    assert_eq!(passes[0].dispatch.y, 2);
    assert_eq!(passes[0].dispatch.z, 1);
    // Weight apply of layer 0: the 270-wide input tiled by 8, the layer by 1.
    assert_eq!(passes[5].dispatch.x, 1);
    assert_eq!(passes[5].dispatch.y, 34);
    assert_eq!(passes[5].dispatch.z, 4);
    // The backprop pass of the final layer binds the expected values.
    assert_eq!(passes[2].bind_group[2], BufferRef::Expected);
}

#[test]
fn evaluation_refuses_an_empty_subset() {
    let gpu = GpuDeviceData::new(true, 64);
    let config = config();
    let parameters = create_parameters(&config);
    let empty: DataSet = vec![];
    let r = eval_performance(&gpu, &config, &parameters, &empty);
    assert!(matches!(r, Err(EvalError::CannotEvaluate)));
}

#[test]
fn evaluation_plans_forward_and_readback() {
    let gpu = GpuDeviceData::new(false, 64);
    let config = config();
    let parameters = create_parameters(&config);
    let data = batch_of_two(&config);
    let (resources, plan) = eval_performance(&gpu, &config, &parameters, &data).unwrap();
    assert_eq!(plan.passes.len(), 2);
    assert!(matches!(plan.passes[0].kernel, KernelKind::ComputeForwards));
    assert!(matches!(plan.passes[1].kernel, KernelKind::ComputeForwards));
    assert_eq!(plan.readback.source, ReadableBuf::Staging);
    assert_eq!(plan.readback.buffer_index, 2);
    // The final buffer holds 3 scalars per example.
    assert_eq!(plan.readback.bytes, 3 * 2 * 4);
    assert_eq!(resources.invocations, 2);
}

#[test]
fn single_evaluation_encodes_and_reads_back() {
    let gpu = GpuDeviceData::new(true, 64);
    let config = config();
    let parameters = create_parameters(&config);
    let data = batch_of_two(&config);
    let resources = EvalResources::init(&gpu, &config, &parameters, &data);
    let plan = eval_single("ab", &gpu, &config, &resources);
    assert_eq!(plan.input_contents, string_to_data("ab", &config));
    assert_eq!(plan.passes.len(), 2);
    assert_eq!(plan.readback.source, ReadableBuf::Primary);

    let outputs = vec![7u32, 8, 9, 10, 11, 12];
    let color = output_color(&outputs);
    assert_eq!(color, Color { l: 7, a: 8, b: 9 });
}

#[test]
fn schedule_interleaves_steps_and_evaluations() {
    let plan = train_nn_schedule(5, 2, 3).unwrap();
    assert_eq!(
        plan,
        vec![
            TrainAction::Evaluate,
            TrainAction::Step,
            TrainAction::Step,
            TrainAction::Step,
            TrainAction::Evaluate,
            TrainAction::Step,
            TrainAction::Step,
            TrainAction::Step,
            TrainAction::Evaluate,
            TrainAction::Step,
        ]
    );
}

#[test]
fn training_refuses_an_empty_training_subset() {
    assert!(matches!(train_nn(0), Err(TrainError::NoTrainingData)));
    let plan = train_nn(5).unwrap();
    assert_eq!(plan.len(), 2 + 10 * 501);
    assert_eq!(plan[0], TrainAction::Evaluate);
    assert_eq!(plan[plan.len() - 1], TrainAction::Step);
}
