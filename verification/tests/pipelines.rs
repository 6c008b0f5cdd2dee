use trainer::gpu::GpuDeviceData;
use trainer::input::Config;
use trainer::shaders::{workers_per_node, Dispatch, KernelConstants, KernelKind, ShaderSet};

fn cost(invocations: u64, w: u64) -> u64 {
    invocations / w + invocations % w + w
}

#[test]
fn workgroup_heuristic_37_of_64() {
    // Brute force over every power of two up to the device width: 4 is the
    // unique minimiser of the cost proxy.
    let chosen = workers_per_node(37, 64);
    assert_eq!(chosen, 4);
    let candidates = [1u64, 2, 4, 8, 16, 32, 64];
    assert!(candidates.contains(&(chosen as u64)));
    for &w in &candidates {
        assert!(cost(37, chosen as u64) <= cost(37, w));
        if cost(37, w) == cost(37, chosen as u64) {
            assert!(chosen as u64 <= w);
        }
    }
}

#[test]
fn workgroup_heuristic_small_cases() {
    assert_eq!(workers_per_node(1, 64), 1);
    // For 8 invocations: cost(1)=9, cost(2)=6, cost(4)=6, cost(8)=9; the
    // smallest of the tied minimisers wins.
    assert_eq!(workers_per_node(8, 64), 2);
    assert_eq!(workers_per_node(0, 64), 1);
}

#[test]
fn shared_layouts() {
    let gpu = GpuDeviceData::new(true, 64);
    let forwards = &gpu.shader_components.compute_forwards.0;
    assert_eq!(forwards.len(), 5);
    for (i, entry) in forwards.iter().enumerate() {
        assert_eq!(entry.binding as usize, i);
        assert_eq!(entry.read_only, i < 3);
    }
    assert!(matches!(
        gpu.shader_components.compute_forwards.1.kernel,
        KernelKind::ComputeForwards
    ));
    let backprop_start = &gpu.shader_components.backpropagation_start.0;
    assert_eq!(backprop_start.len(), 4);
    assert!(backprop_start[3].read_only == false);
    assert!(matches!(
        gpu.shader_components.backpropagation_start.1.kernel,
        KernelKind::BackpropFromCost
    ));
    assert!(matches!(
        gpu.shader_components.backpropagation.1.kernel,
        KernelKind::BackpropFromLayer
    ));
}

#[test]
fn compile_bakes_layer_constants() {
    let gpu = GpuDeviceData::new(true, 64);
    let config = Config::new(10, 5000, vec![4, 3]).unwrap();
    let sets = ShaderSet::compile(&gpu, &config, 2);
    assert_eq!(sets.len(), 2);

    match sets[0].compute_forwards.pipeline.constants {
        KernelConstants::Forward { input_size, output_size, invocations } => {
            assert_eq!(input_size, 270);
            assert_eq!(output_size, 4);
            assert_eq!(invocations, 2);
        },
        _ => panic!("forward pipeline carries forward constants"),
    }
    match sets[0].backpropagation.pipeline.constants {
        KernelConstants::Backprop { layer_size, next_layer_size, invocations } => {
            assert_eq!(layer_size, 4);
            assert_eq!(next_layer_size, 3);
            assert_eq!(invocations, 2);
        },
        _ => panic!("inner layer backpropagates from the next layer"),
    }
    match sets[1].backpropagation.pipeline.constants {
        KernelConstants::BackpropStart { layer_size, invocations } => {
            assert_eq!(layer_size, 3);
            assert_eq!(invocations, 2);
        },
        _ => panic!("final layer backpropagates from the cost"),
    }
    match sets[1].apply_backprop_weights.pipeline.constants {
        KernelConstants::ApplyWeights { previous_layer_size, layer_size, invocations } => {
            assert_eq!(previous_layer_size, 4);
            assert_eq!(layer_size, 3);
            assert_eq!(invocations, 2);
        },
        _ => panic!("weight apply carries its sizes"),
    }
    // The worker count of the apply kernels is baked into their modules.
    let w = workers_per_node(2, 64);
    assert_eq!(sets[0].apply_backprop_biases.pipeline.module.workers_per_node, Some(w));
    assert_eq!(sets[1].apply_backprop_weights.pipeline.module.workers_per_node, Some(w));
}

#[test]
fn dispatch_grids() {
    let gpu = GpuDeviceData::new(true, 64);
    let config = Config::new(10, 5000, vec![4, 3]).unwrap();
    let sets = ShaderSet::compile(&gpu, &config, 37);

    // Forward and backpropagation tiles: 32 across the batch, 2 across the
    // layer.
    assert_eq!(sets[0].compute_forwards.setup_pass(), Dispatch { x: 2, y: 2, z: 1 });
    assert_eq!(sets[1].compute_forwards.setup_pass(), Dispatch { x: 2, y: 2, z: 1 });
    assert_eq!(sets[1].backpropagation.setup_pass(), Dispatch { x: 2, y: 2, z: 1 });

    // Bias apply: one column, the layer tiled by 8.
    assert_eq!(sets[0].apply_backprop_biases.setup_pass(), Dispatch { x: 1, y: 1, z: 1 });
    // Weight apply: previous size tiled by 8, layer size by 1.
    assert_eq!(sets[0].apply_backprop_weights.setup_pass(), Dispatch { x: 1, y: 34, z: 4 });
    assert_eq!(sets[1].apply_backprop_weights.setup_pass(), Dispatch { x: 1, y: 1, z: 3 });

    // The apply pipelines hand their layout out for bind-group creation.
    let layout = sets[0].apply_backprop_biases.get_layout();
    assert_eq!(layout.len(), 2);
    assert!(layout[0].read_only);
    assert!(!layout[1].read_only);
}
