//! Compute-pipeline compilation: per-layer specialization constants, the
//! shared bind-group layouts, the workgroup-sizing heuristic, and the
//! workgroup grids each pass dispatches over.
//!
//! A pipeline is modelled by the kernel it runs, the bind-group layout it
//! expects and the constants baked into it at compile time; the runner
//! compiles the matching device pipeline from this description.

use vstd::prelude::*;
use vstd::arithmetic::power::pow;
use vstd::arithmetic::power::lemma_pow_increases;
use vstd::arithmetic::power2::pow2;
use vstd::arithmetic::power2::is_pow2;
use vstd::arithmetic::power2::is_pow2_exists;
use vstd::arithmetic::power2::is_pow2_equiv;
use vstd::arithmetic::power2::lemma_pow2;
use vstd::arithmetic::power2::lemma_pow2_unfold;
use crate::gpu::GpuDeviceData;
use crate::input::Config;
use crate::input::LayerConfig;
use crate::misc::ceil_div;
use crate::misc::copy_vec;
use crate::misc::spec_ceil_div;

verus! {

/// The compute kernels of the engine.
#[derive(Debug, PartialEq, Eq, Structural, Clone, Copy)]
pub enum KernelKind {
    /// Forward evaluation of one layer.
    ComputeForwards,
    /// Backpropagation into the final layer, from the cost.
    BackpropFromCost,
    /// Backpropagation from a following layer.
    BackpropFromLayer,
    /// In-place bias update from the error terms.
    ApplyBiases,
    /// In-place weight update from the error terms and activations.
    ApplyWeights,
}

/// One binding slot of a bind-group layout: a storage buffer, read-only or
/// writable, visible to compute.
#[derive(Debug, Clone, Copy)]
#[verifier::ext_equal]
pub struct LayoutEntry {
    pub binding: u32,
    pub read_only: bool,
}

/// A shader module: its kernel, and the worker count substituted into the
/// source at compile time where the kernel needs one.
#[derive(Debug, Clone, Copy)]
pub struct ShaderModuleModel {
    pub kernel: KernelKind,
    /// Workers serialised over the batch dimension; only the apply kernels
    /// take one.
    pub workers_per_node: Option<usize>,
}

/// A compiled shader component: its bind-group layout and its module.
pub struct ShaderComponent(pub Vec<LayoutEntry>, pub ShaderModuleModel);

/// The components compiled once per context and shared across layers.
pub struct ShaderComponents {
    pub compute_forwards: ShaderComponent,
    pub backpropagation_start: ShaderComponent,
    pub backpropagation: ShaderComponent,
}

/// Layout of the forward kernel: weights, biases and the input activations
/// read-only; the pre- and post-activation outputs writable.
pub open spec fn forwards_layout() -> Seq<LayoutEntry> {
    seq![
        (LayoutEntry { binding: 0, read_only: true }),
        (LayoutEntry { binding: 1, read_only: true }),
        (LayoutEntry { binding: 2, read_only: true }),
        (LayoutEntry { binding: 3, read_only: false }),
        (LayoutEntry { binding: 4, read_only: false }),
    ]
}

/// Layout shared by both backpropagation kernels: three read-only inputs and
/// the error-term output.
pub open spec fn backprop_layout() -> Seq<LayoutEntry> {
    seq![
        (LayoutEntry { binding: 0, read_only: true }),
        (LayoutEntry { binding: 1, read_only: true }),
        (LayoutEntry { binding: 2, read_only: true }),
        (LayoutEntry { binding: 3, read_only: false }),
    ]
}

/// Layout of the bias-apply kernel: the error terms read-only, the biases in
/// place.
pub open spec fn apply_bias_layout() -> Seq<LayoutEntry> {
    seq![
        (LayoutEntry { binding: 0, read_only: true }),
        (LayoutEntry { binding: 1, read_only: false }),
    ]
}

/// Layout of the weight-apply kernel: the activations and error terms
/// read-only, the weights in place.
pub open spec fn apply_weight_layout() -> Seq<LayoutEntry> {
    seq![
        (LayoutEntry { binding: 0, read_only: true }),
        (LayoutEntry { binding: 1, read_only: true }),
        (LayoutEntry { binding: 2, read_only: false }),
    ]
}

/// Builds a layout vector entry by entry: entry `i` is binding `i`, and is
/// read-only below the cut.
fn build_layout(total: usize, writable_from: usize) -> (r: Vec<LayoutEntry>)
    requires
        total <= u32::MAX,
    ensures
        r@.len() == total,
        forall|i: int| 0 <= i < total ==> #[trigger] r@[i].binding == i,
        forall|i: int| 0 <= i < total ==> (#[trigger] r@[i].read_only <==> i < writable_from),
{
    let mut v: Vec<LayoutEntry> = Vec::new();
    let mut i: usize = 0;
    while i < total
        invariant
            0 <= i <= total,
            total <= u32::MAX,
            v@.len() == i,
            forall|j: int| 0 <= j < i ==> #[trigger] v@[j].binding == j,
            forall|j: int| 0 <= j < i ==> (#[trigger] v@[j].read_only <==> j < writable_from),
        decreases total - i,
    {
        v.push(LayoutEntry { binding: i as u32, read_only: i < writable_from });
        i = i + 1;
    }
    v
}

/// The forward component: its five-slot layout and the forward kernel.
fn compute_forwards() -> (r: ShaderComponent)
    ensures
        r.0@ == forwards_layout(),
        r.1 == (ShaderModuleModel { kernel: KernelKind::ComputeForwards, workers_per_node: None::<usize> }),
{
    let layout = build_layout(5, 3);
    assert(layout@ =~~= forwards_layout());
    ShaderComponent(
        layout,
        ShaderModuleModel { kernel: KernelKind::ComputeForwards, workers_per_node: None },
    )
}

/// The final-layer backpropagation component.
fn backpropation_start() -> (r: ShaderComponent)
    ensures
        r.0@ == backprop_layout(),
        r.1 == (ShaderModuleModel { kernel: KernelKind::BackpropFromCost, workers_per_node: None::<usize> }),
{
    let layout = build_layout(4, 3);
    assert(layout@ =~~= backprop_layout());
    ShaderComponent(
        layout,
        ShaderModuleModel { kernel: KernelKind::BackpropFromCost, workers_per_node: None },
    )
}

/// The inner-layer backpropagation component.
fn backpropation() -> (r: ShaderComponent)
    ensures
        r.0@ == backprop_layout(),
        r.1 == (ShaderModuleModel { kernel: KernelKind::BackpropFromLayer, workers_per_node: None::<usize> }),
{
    let layout = build_layout(4, 3);
    assert(layout@ =~~= backprop_layout());
    ShaderComponent(
        layout,
        ShaderModuleModel { kernel: KernelKind::BackpropFromLayer, workers_per_node: None },
    )
}

/// The bias-apply component, with the chosen worker count substituted into
/// the kernel source.
fn apply_backprop_biases(workers_per_node: usize) -> (r: ShaderComponent)
    ensures
        r.0@ == apply_bias_layout(),
        r.1 == (ShaderModuleModel { kernel: KernelKind::ApplyBiases, workers_per_node: Some(workers_per_node) }),
{
    let layout = build_layout(2, 1);
    assert(layout@ =~~= apply_bias_layout());
    ShaderComponent(
        layout,
        ShaderModuleModel { kernel: KernelKind::ApplyBiases, workers_per_node: Some(workers_per_node) },
    )
}

/// The weight-apply component, with the chosen worker count substituted into
/// the kernel source.
fn apply_backprop_weights(workers_per_node: usize) -> (r: ShaderComponent)
    ensures
        r.0@ == apply_weight_layout(),
        r.1 == (ShaderModuleModel { kernel: KernelKind::ApplyWeights, workers_per_node: Some(workers_per_node) }),
{
    let layout = build_layout(3, 2);
    assert(layout@ =~~= apply_weight_layout());
    ShaderComponent(
        layout,
        ShaderModuleModel { kernel: KernelKind::ApplyWeights, workers_per_node: Some(workers_per_node) },
    )
}

impl ShaderComponents {
    /// The three shared components carry the expected layouts and kernels.
    pub open spec fn wf(self) -> bool {
        &&& self.compute_forwards.0@ == forwards_layout()
        &&& self.compute_forwards.1 == (ShaderModuleModel { kernel: KernelKind::ComputeForwards, workers_per_node: None::<usize> })
        &&& self.backpropagation_start.0@ == backprop_layout()
        &&& self.backpropagation_start.1 == (ShaderModuleModel { kernel: KernelKind::BackpropFromCost, workers_per_node: None::<usize> })
        &&& self.backpropagation.0@ == backprop_layout()
        &&& self.backpropagation.1 == (ShaderModuleModel { kernel: KernelKind::BackpropFromLayer, workers_per_node: None::<usize> })
    }

    /// Compiles the bind-group layouts and shader modules shared by every
    /// pipeline, once per context.
    pub fn init() -> (r: Self)
        ensures
            r.wf(),
    {
        ShaderComponents {
            compute_forwards: compute_forwards(),
            backpropagation_start: backpropation_start(),
            backpropagation: backpropation(),
        }
    }
}

/// The specialization constants baked into one pipeline at compile time.
#[derive(Debug, Clone, Copy)]
pub enum KernelConstants {
    Forward { input_size: u64, output_size: u64, invocations: u64 },
    BackpropStart { layer_size: u64, invocations: u64 },
    Backprop { layer_size: u64, next_layer_size: u64, invocations: u64 },
    ApplyBiases { layer_size: u64, invocations: u64 },
    ApplyWeights { previous_layer_size: u64, layer_size: u64, invocations: u64 },
}

/// A compiled compute pipeline: the component it was compiled from and the
/// constants baked in.
pub struct PipelineModel {
    pub layout: Vec<LayoutEntry>,
    pub module: ShaderModuleModel,
    pub constants: KernelConstants,
}

/// A pipeline compiled from `layout` and `module` with `constants` baked in.
pub open spec fn pipeline_matches(
    p: PipelineModel,
    layout: Seq<LayoutEntry>,
    module: ShaderModuleModel,
    constants: KernelConstants,
) -> bool {
    &&& p.layout@ == layout
    &&& p.module == module
    &&& p.constants == constants
}

/// Compiles one pipeline over a component's layout and module, baking in the
/// given constants.
pub fn create_pipeline(component: &ShaderComponent, constants: KernelConstants) -> (r:
    PipelineModel)
    ensures
        pipeline_matches(r, component.0@, component.1, constants),
{
    PipelineModel { layout: copy_vec(&component.0), module: component.1, constants }
}

/// The cost proxy the workgroup heuristic minimises for a worker count `w`:
/// serialized work per worker plus the leftover plus the workers themselves.
pub open spec fn spec_worker_cost(invocations: int, w: int) -> int {
    invocations / w + invocations % w + w
}

/// A worker count the heuristic may choose: a power of two no wider than the
/// device's maximum workgroup width.
pub open spec fn workgroup_candidate(w: int, max_workgroup: int) -> bool {
    1 <= w <= max_workgroup && is_pow2(w)
}

/// The candidate minimising the cost proxy, the smallest one on a tie.
pub open spec fn is_best_workers(invocations: int, max_workgroup: int, w: int) -> bool {
    &&& workgroup_candidate(w, max_workgroup)
    &&& forall|v: int|
        workgroup_candidate(v, max_workgroup) ==> spec_worker_cost(invocations, w)
            <= #[trigger] spec_worker_cost(invocations, v)
    &&& forall|v: int|
        workgroup_candidate(v, max_workgroup) && #[trigger] spec_worker_cost(invocations, v)
            == spec_worker_cost(invocations, w) ==> w <= v
}

/// The worker count the heuristic chooses.
pub open spec fn spec_best_workers(invocations: int, max_workgroup: int) -> int {
    choose|w: int| is_best_workers(invocations, max_workgroup, w)
}

/// A power of two below the double of another power of two cannot exceed it.
proof fn lemma_pow2_below_double(v: int, e: nat)
    requires
        is_pow2(v),
        v < 2 * pow2(e),
    ensures
        v <= pow2(e),
{
    broadcast use is_pow2_equiv;

    let k = choose|i: nat| pow(2, i) == v;
    lemma_pow2(e);
    lemma_pow2((e + 1) as nat);
    lemma_pow2_unfold((e + 1) as nat);
    if k > e {
        lemma_pow_increases(2, e + 1, k);
    } else {
        lemma_pow_increases(2, k, e);
    }
}

/// There is exactly one best worker count.
proof fn lemma_best_workers_unique(invocations: int, max_workgroup: int, w1: int, w2: int)
    requires
        is_best_workers(invocations, max_workgroup, w1),
        is_best_workers(invocations, max_workgroup, w2),
    ensures
        w1 == w2,
{
    assert(spec_worker_cost(invocations, w1) <= spec_worker_cost(invocations, w2));
    assert(spec_worker_cost(invocations, w2) <= spec_worker_cost(invocations, w1));
}

/// Chooses the worker count for the apply kernels: of every power of two up
/// to the device's maximum workgroup width, the one minimising the cost
/// proxy, the smallest on a tie.
pub fn workers_per_node(invocations: usize, max_workgroup_size_x: u32) -> (r: usize)
    requires
        max_workgroup_size_x >= 1,
    ensures
        is_best_workers(invocations as int, max_workgroup_size_x as int, r as int),
        r == spec_best_workers(invocations as int, max_workgroup_size_x as int),
{
    let max: u64 = max_workgroup_size_x as u64;
    let inv: u128 = invocations as u128;
    let mut best_w: u64 = 1;
    let mut best_cost: u128 = inv / 1 + inv % 1 + 1;
    proof {
        assert(is_pow2(1int)) by {
            reveal(is_pow2);
        }
        assert(pow2(0) == 1 && pow2(1) == 2) by {
            lemma_pow2(0);
            lemma_pow2(1);
            reveal(pow);
        }
    }
    let mut w: u64 = 2;
    let ghost mut e: nat = 1;
    while w <= max
        invariant
            max == max_workgroup_size_x,
            max >= 1,
            inv == invocations,
            w == pow2(e),
            2 <= w,
            workgroup_candidate(best_w as int, max as int),
            best_w < w,
            best_cost == spec_worker_cost(inv as int, best_w as int),
            best_cost <= u64::MAX as u128 + u64::MAX as u128 + u64::MAX as u128,
            forall|v: int|
                workgroup_candidate(v, max as int) && v < w ==> best_cost <= #[trigger]
                    spec_worker_cost(inv as int, v),
            forall|v: int|
                workgroup_candidate(v, max as int) && v < w && #[trigger] spec_worker_cost(
                    inv as int,
                    v,
                ) == best_cost ==> best_w <= v,
        decreases 2 * (max as int) - w,
    {
        let cost: u128 = inv / (w as u128) + inv % (w as u128) + w as u128;
        proof {
            assert(inv / (w as u128) == inv as int / w as int);
            assert(inv % (w as u128) == inv as int % w as int);
        }
        if cost < best_cost {
            best_w = w;
            best_cost = cost;
            proof {
                broadcast use is_pow2_equiv;

                lemma_pow2(e);
                assert(pow(2, e) == w);
                assert(is_pow2_exists(w as int));
            }
        }
        proof {
            lemma_pow2_unfold((e + 1) as nat);
            assert forall|v: int|
                workgroup_candidate(v, max as int) && v < 2 * pow2(e) implies v <= w by {
                lemma_pow2_below_double(v, e);
            }
            e = e + 1;
        }
        w = w * 2;
    }
    proof {
        assert forall|v: int| workgroup_candidate(v, max as int) implies v < w by {
            assert(v <= max < w);
        }
        assert(is_best_workers(invocations as int, max_workgroup_size_x as int, best_w as int));
        let c = spec_best_workers(invocations as int, max_workgroup_size_x as int);
        assert(is_best_workers(invocations as int, max_workgroup_size_x as int, c));
        lemma_best_workers_unique(
            invocations as int,
            max_workgroup_size_x as int,
            best_w as int,
            c,
        );
    }
    best_w as usize
}

/// The fixed workgroup tile of the forward and backpropagation kernels.
/// These match the constants in the kernels' shared source.
pub const STD_WORKGROUP_SIZE_X: u64 = 32;

/// Second dimension of the fixed workgroup tile.
pub const STD_WORKGROUP_SIZE_Y: u64 = 2;

/// Third dimension of the fixed workgroup tile.
pub const STD_WORKGROUP_SIZE_Z: u64 = 1;

/// Workgroup width of the bias-apply kernel along the layer dimension.
pub const BIAS_WORKGROUP_SIZE: u64 = 8;

/// Workgroup width of the weight-apply kernel along the previous-layer
/// dimension.
pub const WEIGHT_WORKGROUP_SIZE_A: u64 = 8;

/// Workgroup width of the weight-apply kernel along the layer dimension.
pub const WEIGHT_WORKGROUP_SIZE_B: u64 = 1;

/// The workgroup grid one compute pass dispatches over.
#[derive(Debug, PartialEq, Eq, Structural, Clone, Copy)]
pub struct Dispatch {
    pub x: u32,
    pub y: u32,
    pub z: u32,
}

/// A forward or backpropagation pipeline: parallel over the batch and the
/// layer, tiled by the fixed workgroup size.
pub struct StandardShaderPipeline {
    pub pipeline: PipelineModel,
    pub invocations: u32,
    pub layer_size: u32,
}

impl StandardShaderPipeline {
    /// The grid this pass dispatches over: the batch tiled by the workgroup
    /// width, the layer tiled by its height.
    pub fn setup_pass(&self) -> (d: Dispatch)
        ensures
            d.x == spec_ceil_div(self.invocations as int, STD_WORKGROUP_SIZE_X as int),
            d.y == spec_ceil_div(self.layer_size as int, STD_WORKGROUP_SIZE_Y as int),
            d.z == 1,
    {
        Dispatch {
            x: ceil_div(self.invocations, STD_WORKGROUP_SIZE_X),
            y: ceil_div(self.layer_size, STD_WORKGROUP_SIZE_Y),
            z: ceil_div(1, STD_WORKGROUP_SIZE_Z),
        }
    }
}

/// The bias-apply pipeline: one workgroup column, tiled over the layer.
pub struct BackpropApplyBiasShaderPipeline {
    pub pipeline: PipelineModel,
    pub layer_size: u32,
}

impl BackpropApplyBiasShaderPipeline {
    /// The grid this pass dispatches over.
    pub fn setup_pass(&self) -> (d: Dispatch)
        ensures
            d.x == 1,
            d.y == spec_ceil_div(self.layer_size as int, BIAS_WORKGROUP_SIZE as int),
            d.z == 1,
    {
        Dispatch { x: 1, y: ceil_div(self.layer_size, BIAS_WORKGROUP_SIZE), z: 1 }
    }

    /// The bind-group layout this pipeline expects.
    pub fn get_layout(&self) -> (r: Vec<LayoutEntry>)
        ensures
            r@ == self.pipeline.layout@,
    {
        copy_vec(&self.pipeline.layout)
    }
}

/// The weight-apply pipeline: one workgroup column, tiled over the previous
/// layer and the layer.
pub struct BackpropApplyWeightShaderPipeline {
    pub pipeline: PipelineModel,
    pub prev_layer_size: u32,
    pub layer_size: u32,
}

impl BackpropApplyWeightShaderPipeline {
    /// The grid this pass dispatches over.
    pub fn setup_pass(&self) -> (d: Dispatch)
        ensures
            d.x == 1,
            d.y == spec_ceil_div(self.prev_layer_size as int, WEIGHT_WORKGROUP_SIZE_A as int),
            d.z == spec_ceil_div(self.layer_size as int, WEIGHT_WORKGROUP_SIZE_B as int),
    {
        Dispatch {
            x: 1,
            y: ceil_div(self.prev_layer_size, WEIGHT_WORKGROUP_SIZE_A),
            z: ceil_div(self.layer_size, WEIGHT_WORKGROUP_SIZE_B),
        }
    }

    /// The bind-group layout this pipeline expects.
    pub fn get_layout(&self) -> (r: Vec<LayoutEntry>)
        ensures
            r@ == self.pipeline.layout@,
    {
        copy_vec(&self.pipeline.layout)
    }
}

/// The four pipelines of one layer.
pub struct ShaderSet {
    pub compute_forwards: StandardShaderPipeline,
    /// Compiled from the final-layer kernel iff this is the last layer.
    pub backpropagation: StandardShaderPipeline,
    pub apply_backprop_biases: BackpropApplyBiasShaderPipeline,
    pub apply_backprop_weights: BackpropApplyWeightShaderPipeline,
}

/// The pipeline set of layer `i` of a configuration, compiled for a batch of
/// `invocations` with the heuristic's `workers` worker count: every pipeline
/// carries the shared layout of its kernel and the layer's sizes as baked-in
/// constants, and the backpropagation pipeline of the last layer runs the
/// from-cost kernel.
pub open spec fn shader_set_matches(
    s: ShaderSet,
    c: Config,
    i: int,
    invocations: int,
    workers: usize,
) -> bool {
    let prev = crate::input::spec_prev_size(c, i);
    let size = c.spec_layers()[i];
    let final_layer = i == c.spec_layers().len() - 1;
    &&& pipeline_matches(
        s.compute_forwards.pipeline,
        forwards_layout(),
        (ShaderModuleModel { kernel: KernelKind::ComputeForwards, workers_per_node: None::<usize> }),
        (KernelConstants::Forward {
            input_size: prev as u64,
            output_size: size,
            invocations: invocations as u64,
        }),
    )
    &&& s.compute_forwards.invocations == invocations
    &&& s.compute_forwards.layer_size == size
    &&& (final_layer ==> pipeline_matches(
        s.backpropagation.pipeline,
        backprop_layout(),
        (ShaderModuleModel { kernel: KernelKind::BackpropFromCost, workers_per_node: None::<usize> }),
        (KernelConstants::BackpropStart { layer_size: size, invocations: invocations as u64 }),
    ))
    &&& (!final_layer ==> pipeline_matches(
        s.backpropagation.pipeline,
        backprop_layout(),
        (ShaderModuleModel { kernel: KernelKind::BackpropFromLayer, workers_per_node: None::<usize> }),
        (KernelConstants::Backprop {
            layer_size: size,
            next_layer_size: c.spec_layers()[i + 1],
            invocations: invocations as u64,
        }),
    ))
    &&& s.backpropagation.invocations == invocations
    &&& s.backpropagation.layer_size == size
    &&& pipeline_matches(
        s.apply_backprop_biases.pipeline,
        apply_bias_layout(),
        (ShaderModuleModel { kernel: KernelKind::ApplyBiases, workers_per_node: Some(workers) }),
        (KernelConstants::ApplyBiases { layer_size: size, invocations: invocations as u64 }),
    )
    &&& s.apply_backprop_biases.layer_size == size
    &&& pipeline_matches(
        s.apply_backprop_weights.pipeline,
        apply_weight_layout(),
        (ShaderModuleModel { kernel: KernelKind::ApplyWeights, workers_per_node: Some(workers) }),
        (KernelConstants::ApplyWeights {
            previous_layer_size: prev as u64,
            layer_size: size,
            invocations: invocations as u64,
        }),
    )
    &&& s.apply_backprop_weights.prev_layer_size == prev
    &&& s.apply_backprop_weights.layer_size == size
}

impl ShaderSet {
    /// Compiles the pipeline set of every layer for one batch size: the
    /// worker count of the apply kernels is chosen once by the heuristic, and
    /// each layer's four pipelines carry its sizes and the batch size as
    /// compile-time constants.
    pub fn compile(gpu: &GpuDeviceData, config: &Config, invocations: usize) -> (r: Vec<ShaderSet>)
        requires
            gpu.wf(),
            config.wf(),
            invocations <= u32::MAX,
            config.spec_input_length() <= u32::MAX,
            forall|i: int|
                0 <= i < config.spec_layers().len() ==> #[trigger] config.spec_layers()[i]
                    <= u32::MAX,
        ensures
            r@.len() == config.spec_layers().len(),
            forall|i: int|
                0 <= i < r@.len() ==> #[trigger] shader_set_matches(
                    r@[i],
                    *config,
                    i,
                    invocations as int,
                    spec_best_workers(invocations as int, gpu.max_workgroup_size_x as int) as usize,
                ),
    {
        // Estimate the work the apply kernels do for each possible worker
        // count and take the minimum; only powers of two are considered.
        let workers_per_node = workers_per_node(invocations, gpu.max_workgroup_size_x);

        // These kernels substitute the worker count into their source, for
        // want of pipeline-overridable constants.
        let apply_biases_component = apply_backprop_biases(workers_per_node);
        let apply_weights_component = apply_backprop_weights(workers_per_node);

        let layers = config.layers();
        let n = layers.len();
        let mut output: Vec<ShaderSet> = Vec::new();
        let mut i: usize = 0;
        while i < n
            invariant
                0 <= i <= n,
                gpu.wf(),
                config.wf(),
                invocations <= u32::MAX,
                config.spec_input_length() <= u32::MAX,
                forall|j: int|
                    0 <= j < config.spec_layers().len() ==> #[trigger] config.spec_layers()[j]
                        <= u32::MAX,
                n == config.spec_layers().len(),
                n == layers@.len(),
                forall|j: int|
                    0 <= j < n ==> #[trigger] layers@[j].previous_size
                        == crate::input::spec_prev_size(*config, j),
                forall|j: int|
                    0 <= j < n ==> #[trigger] layers@[j].size == config.spec_layers()[j],
                forall|j: int|
                    0 <= j < n ==> #[trigger] layers@[j].next_size == (if j + 1
                        < config.spec_layers().len() {
                        Some(config.spec_layers()[j + 1])
                    } else {
                        None::<u64>
                    }),
                workers_per_node == spec_best_workers(
                    invocations as int,
                    gpu.max_workgroup_size_x as int,
                ),
                apply_biases_component.0@ == apply_bias_layout(),
                apply_biases_component.1 == (ShaderModuleModel {
                    kernel: KernelKind::ApplyBiases,
                    workers_per_node: Some(workers_per_node),
                }),
                apply_weights_component.0@ == apply_weight_layout(),
                apply_weights_component.1 == (ShaderModuleModel {
                    kernel: KernelKind::ApplyWeights,
                    workers_per_node: Some(workers_per_node),
                }),
                output@.len() == i,
                forall|j: int|
                    0 <= j < i ==> #[trigger] shader_set_matches(
                        output@[j],
                        *config,
                        j,
                        invocations as int,
                        spec_best_workers(
                            invocations as int,
                            gpu.max_workgroup_size_x as int,
                        ) as usize,
                    ),
            decreases n - i,
        {
            let set = ShaderSet::compile_single(
                gpu,
                layers[i],
                invocations,
                i == n - 1,
                (&apply_biases_component, &apply_weights_component),
            );
            proof {
                assert(shader_set_matches(
                    set,
                    *config,
                    i as int,
                    invocations as int,
                    spec_best_workers(
                        invocations as int,
                        gpu.max_workgroup_size_x as int,
                    ) as usize,
                ));
            }
            output.push(set);
            i = i + 1;
        }
        output
    }

    /// Compiles the four pipelines of one layer, baking in its sizes and the
    /// batch size; the final layer gets the from-cost backpropagation kernel.
    fn compile_single(
        gpu: &GpuDeviceData,
        layer: LayerConfig,
        invocations: usize,
        final_layer: bool,
        apply_backprops: (&ShaderComponent, &ShaderComponent),
    ) -> (r: Self)
        requires
            gpu.wf(),
            invocations <= u32::MAX,
            layer.previous_size <= u32::MAX,
            layer.size <= u32::MAX,
            !final_layer ==> layer.next_size is Some,
            apply_backprops.0.0@ == apply_bias_layout(),
            apply_backprops.0.1.kernel == KernelKind::ApplyBiases,
            apply_backprops.1.0@ == apply_weight_layout(),
            apply_backprops.1.1.kernel == KernelKind::ApplyWeights,
        ensures
            pipeline_matches(
                r.compute_forwards.pipeline,
                forwards_layout(),
                (ShaderModuleModel {
                    kernel: KernelKind::ComputeForwards,
                    workers_per_node: None::<usize>,
                }),
                (KernelConstants::Forward {
                    input_size: layer.previous_size,
                    output_size: layer.size,
                    invocations: invocations as u64,
                }),
            ),
            r.compute_forwards.invocations == invocations,
            r.compute_forwards.layer_size == layer.size,
            final_layer ==> pipeline_matches(
                r.backpropagation.pipeline,
                backprop_layout(),
                (ShaderModuleModel {
                    kernel: KernelKind::BackpropFromCost,
                    workers_per_node: None::<usize>,
                }),
                (KernelConstants::BackpropStart {
                    layer_size: layer.size,
                    invocations: invocations as u64,
                }),
            ),
            !final_layer ==> pipeline_matches(
                r.backpropagation.pipeline,
                backprop_layout(),
                (ShaderModuleModel {
                    kernel: KernelKind::BackpropFromLayer,
                    workers_per_node: None::<usize>,
                }),
                (KernelConstants::Backprop {
                    layer_size: layer.size,
                    next_layer_size: layer.next_size.unwrap(),
                    invocations: invocations as u64,
                }),
            ),
            r.backpropagation.invocations == invocations,
            r.backpropagation.layer_size == layer.size,
            pipeline_matches(
                r.apply_backprop_biases.pipeline,
                apply_bias_layout(),
                apply_backprops.0.1,
                (KernelConstants::ApplyBiases {
                    layer_size: layer.size,
                    invocations: invocations as u64,
                }),
            ),
            r.apply_backprop_biases.layer_size == layer.size,
            pipeline_matches(
                r.apply_backprop_weights.pipeline,
                apply_weight_layout(),
                apply_backprops.1.1,
                (KernelConstants::ApplyWeights {
                    previous_layer_size: layer.previous_size,
                    layer_size: layer.size,
                    invocations: invocations as u64,
                }),
            ),
            r.apply_backprop_weights.prev_layer_size == layer.previous_size,
            r.apply_backprop_weights.layer_size == layer.size,
    {
        let components = &gpu.shader_components;

        let compute_forwards = create_pipeline(
            &components.compute_forwards,
            KernelConstants::Forward {
                input_size: layer.previous_size,
                output_size: layer.size,
                invocations: invocations as u64,
            },
        );

        let backpropagation = if final_layer {
            create_pipeline(
                &components.backpropagation_start,
                KernelConstants::BackpropStart {
                    layer_size: layer.size,
                    invocations: invocations as u64,
                },
            )
        } else {
            let next_size = match layer.next_size {
                Some(n) => n,
                None => 0,
            };
            create_pipeline(
                &components.backpropagation,
                KernelConstants::Backprop {
                    layer_size: layer.size,
                    next_layer_size: next_size,
                    invocations: invocations as u64,
                },
            )
        };

        let apply_backprop_biases = create_pipeline(
            apply_backprops.0,
            KernelConstants::ApplyBiases {
                layer_size: layer.size,
                invocations: invocations as u64,
            },
        );

        let apply_backprop_weights = create_pipeline(
            apply_backprops.1,
            KernelConstants::ApplyWeights {
                previous_layer_size: layer.previous_size,
                layer_size: layer.size,
                invocations: invocations as u64,
            },
        );

        ShaderSet {
            compute_forwards: StandardShaderPipeline {
                pipeline: compute_forwards,
                invocations: invocations as u32,
                layer_size: layer.size as u32,
            },
            backpropagation: StandardShaderPipeline {
                pipeline: backpropagation,
                invocations: invocations as u32,
                layer_size: layer.size as u32,
            },
            apply_backprop_biases: BackpropApplyBiasShaderPipeline {
                pipeline: apply_backprop_biases,
                layer_size: layer.size as u32,
            },
            apply_backprop_weights: BackpropApplyWeightShaderPipeline {
                pipeline: apply_backprop_weights,
                prev_layer_size: layer.previous_size as u32,
                layer_size: layer.size as u32,
            },
        }
    }
}

} // verus!
