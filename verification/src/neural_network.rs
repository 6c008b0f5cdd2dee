//! Orchestration of a training run: the bind groups wiring buffers into each
//! pipeline, the recorded pass sequence of one training step, the forward
//! evaluation plan, and the schedule of a whole run.
//!
//! Every plan is data: the runner records the passes in the given order into
//! one command buffer and submits it, so phase ordering comes from the
//! queue's same-buffer ordering, with no host-side synchronisation.

use vstd::prelude::*;
use crate::color::Color;
use crate::gpu::GpuDeviceData;
use crate::input::Config;
use crate::input::spec_prev_size;
use crate::layer::layer_values_fits;
use crate::layer::layer_values_matches;
use crate::layer::lemma_row_index_bound;
use crate::layer::LayerValues;
use crate::layer::ReadbackPlan;
use crate::layer::Scalar;
use crate::layer::store_matches_config;
use crate::layer::WeightsAndBiases;
use crate::misc::copy_vec;
use crate::misc::spec_ceil_div;
use crate::shaders::Dispatch;
use crate::shaders::KernelKind;
use crate::shaders::shader_set_matches;
use crate::shaders::ShaderSet;
use crate::shaders::spec_best_workers;
use crate::shaders::BIAS_WORKGROUP_SIZE;
use crate::shaders::STD_WORKGROUP_SIZE_X;
use crate::shaders::STD_WORKGROUP_SIZE_Y;
use crate::shaders::WEIGHT_WORKGROUP_SIZE_A;
use crate::shaders::WEIGHT_WORKGROUP_SIZE_B;
use crate::string::spec_string_to_data;
use crate::string::string_to_data;
use crate::training_data::DataSet;

verus! {

/// A reference to one of the run's buffers, by role: which buffer a binding
/// slot receives.
#[derive(Debug, PartialEq, Eq, Structural, Clone, Copy)]
pub enum BufferRef {
    /// The weights buffer of a layer.
    Weights(usize),
    /// The biases buffer of a layer.
    Biases(usize),
    /// The post-activation buffer of a layer boundary (0 is the input).
    A(usize),
    /// The pre-activation buffer of a layer boundary.
    Z(usize),
    /// The error-term buffer of a layer boundary.
    DerivZ(usize),
    /// The expected-output buffer.
    Expected,
}

/// The forward pipeline of layer `l` binds the layer's parameters, its input
/// activations, and its two outputs.
pub open spec fn forward_bind_group(l: int) -> Seq<BufferRef> {
    seq![
        BufferRef::Weights(l as usize),
        BufferRef::Biases(l as usize),
        BufferRef::A(l as usize),
        BufferRef::Z((l + 1) as usize),
        BufferRef::A((l + 1) as usize),
    ]
}

/// The backpropagation pipeline of layer `l` (of `n`): the final layer reads
/// its own outputs and the expected values; every other layer reads the next
/// layer's weights and error terms. Both write the layer's error terms.
pub open spec fn backprop_bind_group(l: int, n: int) -> Seq<BufferRef> {
    if l == n - 1 {
        seq![
            BufferRef::A(n as usize),
            BufferRef::Z(n as usize),
            BufferRef::Expected,
            BufferRef::DerivZ(n as usize),
        ]
    } else {
        seq![
            BufferRef::Weights((l + 1) as usize),
            BufferRef::Z((l + 1) as usize),
            BufferRef::DerivZ((l + 2) as usize),
            BufferRef::DerivZ((l + 1) as usize),
        ]
    }
}

/// The bias-apply pipeline of layer `l` reads its error terms and updates its
/// biases in place.
pub open spec fn bias_apply_bind_group(l: int) -> Seq<BufferRef> {
    seq![BufferRef::DerivZ((l + 1) as usize), BufferRef::Biases(l as usize)]
}

/// The weight-apply pipeline of layer `l` reads its input activations and
/// error terms and updates its weights in place.
pub open spec fn weight_apply_bind_group(l: int) -> Seq<BufferRef> {
    seq![
        BufferRef::A(l as usize),
        BufferRef::DerivZ((l + 1) as usize),
        BufferRef::Weights(l as usize),
    ]
}

/// Resources used during evaluations.
pub struct EvalResources {
    pub invocations: usize,
    pub a_buffers: LayerValues,
    pub z_buffers: LayerValues,
    pub shaders: Vec<ShaderSet>,
    /// Bind groups for each of the forward passes.
    pub bind_groups: Vec<Vec<BufferRef>>,
}

/// The pipeline sets carry each layer's sizes, the batch size and the
/// matching kernels.
pub open spec fn shader_set_sized(s: ShaderSet, c: Config, i: int, invocations: int) -> bool {
    let n = c.spec_layers().len() as int;
    &&& s.compute_forwards.invocations == invocations
    &&& s.compute_forwards.layer_size == c.spec_layers()[i]
    &&& s.compute_forwards.pipeline.module.kernel == KernelKind::ComputeForwards
    &&& s.backpropagation.invocations == invocations
    &&& s.backpropagation.layer_size == c.spec_layers()[i]
    &&& s.backpropagation.pipeline.module.kernel == (if i == n - 1 {
        KernelKind::BackpropFromCost
    } else {
        KernelKind::BackpropFromLayer
    })
    &&& s.apply_backprop_biases.layer_size == c.spec_layers()[i]
    &&& s.apply_backprop_biases.pipeline.module.kernel == KernelKind::ApplyBiases
    &&& s.apply_backprop_weights.prev_layer_size == spec_prev_size(c, i)
    &&& s.apply_backprop_weights.layer_size == c.spec_layers()[i]
    &&& s.apply_backprop_weights.pipeline.module.kernel == KernelKind::ApplyWeights
}

/// Evaluation resources built for a configuration and batch: the two buffer
/// chains, the compiled pipelines, and one forward bind group per layer.
pub open spec fn eval_resources_matches(
    r: EvalResources,
    gpu: GpuDeviceData,
    c: Config,
    invocations: int,
) -> bool {
    let n = c.spec_layers().len() as int;
    &&& r.invocations == invocations
    &&& layer_values_matches(r.a_buffers, c, invocations, gpu.mappable_primary)
    &&& layer_values_matches(r.z_buffers, c, invocations, gpu.mappable_primary)
    &&& r.shaders@.len() == n
    &&& forall|l: int|
        0 <= l < n ==> #[trigger] shader_set_matches(
            r.shaders@[l],
            c,
            l,
            invocations,
            spec_best_workers(invocations, gpu.max_workgroup_size_x as int) as usize,
        )
    &&& forall|l: int| 0 <= l < n ==> shader_set_sized(#[trigger] r.shaders@[l], c, l, invocations)
    &&& r.bind_groups@.len() == n
    &&& forall|l: int| 0 <= l < n ==> #[trigger] r.bind_groups@[l]@ == forward_bind_group(l)
}

/// The sizing limits evaluation resources need, beyond those of the buffer
/// chains: dispatch grids and pipeline constants hold 32-bit values.
pub open spec fn eval_fits(c: Config, invocations: int) -> bool {
    &&& layer_values_fits(c, invocations)
    &&& invocations <= u32::MAX
    &&& c.spec_input_length() <= u32::MAX
    &&& forall|i: int|
        0 <= i < c.spec_layers().len() ==> #[trigger] c.spec_layers()[i] <= u32::MAX
}

impl EvalResources {
    /// Builds the resources one batch needs to run forward: the activation
    /// chains (the input chain initialised from the encoded features), the
    /// pipelines, and the forward bind groups.
    pub fn init(
        gpu: &GpuDeviceData,
        config: &Config,
        parameters: &WeightsAndBiases,
        data: &DataSet,
    ) -> (r: Self)
        requires
            gpu.wf(),
            config.wf(),
            store_matches_config(parameters@, *config),
            data@.len() >= 1,
            eval_fits(*config, data@.len() as int),
            forall|e: int|
                0 <= e < data@.len() ==> #[trigger] data@[e].features@.len()
                    == config.spec_input_length(),
        ensures
            eval_resources_matches(r, *gpu, *config, data@.len() as int),
            forall|e: int, k: int|
                0 <= e < data@.len() && 0 <= k < config.spec_input_length()
                    ==> #[trigger] r.a_buffers.input_contents@[e * config.spec_input_length() + k]
                    == data@[e].features@[k],
            forall|k: int|
                0 <= k < r.z_buffers.input_contents@.len()
                    ==> #[trigger] r.z_buffers.input_contents@[k] == 0,
    {
        let invocations = data.len();
        let z_buffers = LayerValues::create(gpu, config, invocations);
        let mut inputs: Vec<Vec<Scalar>> = Vec::new();
        let mut e: usize = 0;
        while e < invocations
            invariant
                0 <= e <= invocations,
                invocations == data@.len(),
                inputs@.len() == e,
                forall|x: int| 0 <= x < e ==> #[trigger] inputs@[x]@ == data@[x].features@,
            decreases invocations - e,
        {
            inputs.push(copy_vec(&data[e].features));
            e = e + 1;
        }
        let a_buffers = LayerValues::create_with_input(gpu, config, invocations, &inputs);
        let shaders = ShaderSet::compile(gpu, config, invocations);
        let n = config.num_layers();
        let mut bind_groups: Vec<Vec<BufferRef>> = Vec::new();
        let mut l: usize = 0;
        while l < n
            invariant
                0 <= l <= n,
                bind_groups@.len() == l,
                forall|j: int| 0 <= j < l ==> #[trigger] bind_groups@[j]@ == forward_bind_group(j),
            decreases n - l,
        {
            let mut group: Vec<BufferRef> = Vec::new();
            group.push(BufferRef::Weights(l));
            group.push(BufferRef::Biases(l));
            group.push(BufferRef::A(l));
            group.push(BufferRef::Z(l + 1));
            group.push(BufferRef::A(l + 1));
            assert(group@ =~= forward_bind_group(l as int));
            bind_groups.push(group);
            l = l + 1;
        }
        proof {
            assert forall|j: int| 0 <= j < config.spec_layers().len() implies shader_set_sized(
                #[trigger] shaders@[j],
                *config,
                j,
                data@.len() as int,
            ) by {
                assert(shader_set_matches(
                    shaders@[j],
                    *config,
                    j,
                    invocations as int,
                    spec_best_workers(
                        invocations as int,
                        gpu.max_workgroup_size_x as int,
                    ) as usize,
                ));
            }
        }
        EvalResources { invocations, a_buffers, z_buffers, shaders, bind_groups }
    }
}

/// Resources used during training. Superset of resources used during evals.
pub struct TrainingResources {
    pub config: Config,
    pub deriv_z_buffers: LayerValues,
    pub eval_resources: EvalResources,
    /// The scalars of the expected-output buffer: each invocation's target
    /// color, three components, laid out contiguously.
    pub expected_contents: Vec<Scalar>,
    pub backprop_bind_groups: Vec<Vec<BufferRef>>,
    pub backprop_bias_apply_bind_groups: Vec<Vec<BufferRef>>,
    pub backprop_weight_apply_bind_groups: Vec<Vec<BufferRef>>,
}

/// The number of components of a target color, and so of the output layer.
pub const COLOR_COMPONENTS: u64 = 3;

/// All bind groups of a training step are wired as the backpropagation
/// recurrence demands, and the pipelines carry the expected sizes.
pub open spec fn training_resources_wired(t: TrainingResources) -> bool {
    let n = t.config.spec_layers().len() as int;
    let inv = t.eval_resources.invocations as int;
    &&& t.config.wf()
    &&& t.eval_resources.bind_groups@.len() == n
    &&& forall|l: int|
        0 <= l < n ==> #[trigger] t.eval_resources.bind_groups@[l]@ == forward_bind_group(l)
    &&& t.backprop_bind_groups@.len() == n
    &&& forall|l: int|
        0 <= l < n ==> #[trigger] t.backprop_bind_groups@[l]@ == backprop_bind_group(l, n)
    &&& t.backprop_bias_apply_bind_groups@.len() == n
    &&& forall|l: int|
        0 <= l < n ==> #[trigger] t.backprop_bias_apply_bind_groups@[l]@ == bias_apply_bind_group(
            l,
        )
    &&& t.backprop_weight_apply_bind_groups@.len() == n
    &&& forall|l: int|
        0 <= l < n ==> #[trigger] t.backprop_weight_apply_bind_groups@[l]@
            == weight_apply_bind_group(l)
    &&& t.eval_resources.shaders@.len() == n
    &&& forall|l: int|
        0 <= l < n ==> shader_set_sized(#[trigger] t.eval_resources.shaders@[l], t.config, l, inv)
}

impl TrainingResources {
    /// Builds everything one training step needs on top of the evaluation
    /// resources: the error-term chain, the expected-output buffer contents,
    /// and the backpropagation and apply bind groups. The bindings encode the
    /// backpropagation recurrence: each layer's error terms are computed from
    /// the next layer's weights and error terms, in reverse layer order,
    /// before any weights are updated.
    pub fn init(
        gpu: &GpuDeviceData,
        config: Config,
        parameters: &WeightsAndBiases,
        data: &DataSet,
    ) -> (r: Self)
        requires
            gpu.wf(),
            config.wf(),
            store_matches_config(parameters@, config),
            data@.len() >= 1,
            eval_fits(config, data@.len() as int),
            forall|e: int|
                0 <= e < data@.len() ==> #[trigger] data@[e].features@.len()
                    == config.spec_input_length(),
            config.spec_layers().last() == COLOR_COMPONENTS,
            COLOR_COMPONENTS * data@.len() <= usize::MAX,
        ensures
            r.config == config,
            eval_resources_matches(r.eval_resources, *gpu, config, data@.len() as int),
            layer_values_matches(r.deriv_z_buffers, config, data@.len() as int,
                gpu.mappable_primary),
            training_resources_wired(r),
            r.expected_contents@.len() == COLOR_COMPONENTS * data@.len(),
            forall|e: int|
                0 <= e < data@.len() ==> #[trigger] r.expected_contents@[e * COLOR_COMPONENTS]
                    == data@[e].target.l,
            forall|e: int|
                0 <= e < data@.len() ==> #[trigger] r.expected_contents@[e * COLOR_COMPONENTS + 1]
                    == data@[e].target.a,
            forall|e: int|
                0 <= e < data@.len() ==> #[trigger] r.expected_contents@[e * COLOR_COMPONENTS + 2]
                    == data@[e].target.b,
    {
        let invocations = data.len();
        let eval_resources = EvalResources::init(gpu, &config, parameters, data);
        let deriv_z_buffers = LayerValues::create(gpu, &config, invocations);

        // Copy all of the expected values into the buffer contents.
        let mut expected_contents: Vec<Scalar> = Vec::new();
        let mut e: usize = 0;
        while e < invocations
            invariant
                0 <= e <= invocations,
                invocations == data@.len(),
                COLOR_COMPONENTS * (invocations as int) <= usize::MAX,
                expected_contents@.len() == e * COLOR_COMPONENTS,
                forall|x: int|
                    0 <= x < e ==> #[trigger] expected_contents@[x * COLOR_COMPONENTS]
                        == data@[x].target.l,
                forall|x: int|
                    0 <= x < e ==> #[trigger] expected_contents@[x * COLOR_COMPONENTS + 1]
                        == data@[x].target.a,
                forall|x: int|
                    0 <= x < e ==> #[trigger] expected_contents@[x * COLOR_COMPONENTS + 2]
                        == data@[x].target.b,
            decreases invocations - e,
        {
            proof {
                assert((e + 1) * COLOR_COMPONENTS == e * COLOR_COMPONENTS + COLOR_COMPONENTS)
                    by (nonlinear_arith);
                assert((e + 1) * COLOR_COMPONENTS <= invocations * COLOR_COMPONENTS)
                    by (nonlinear_arith)
                    requires
                        e + 1 <= invocations,
                ;
                assert(invocations * COLOR_COMPONENTS == COLOR_COMPONENTS * (invocations as int))
                    by (nonlinear_arith);
            }
            let target = data[e].target;
            expected_contents.push(target.l);
            expected_contents.push(target.a);
            expected_contents.push(target.b);
            proof {
                assert forall|x: int| 0 <= x < e implies #[trigger] expected_contents@[x
                    * COLOR_COMPONENTS] == data@[x].target.l && expected_contents@[x
                    * COLOR_COMPONENTS + 1] == data@[x].target.a && expected_contents@[x
                    * COLOR_COMPONENTS + 2] == data@[x].target.b by {
                    lemma_row_index_bound(x, e as int, 2, COLOR_COMPONENTS as int);
                }
            }
            e = e + 1;
        }
        proof {
            assert(invocations * COLOR_COMPONENTS == COLOR_COMPONENTS * (invocations as int))
                by (nonlinear_arith);
        }

        let n = config.num_layers();
        // Bind groups for all but the final layer: each layer's error terms
        // come from the next layer's weights and error terms. The layer list
        // does not include the input layer, but the buffer chains do, so
        // boundary indices sit one above layer indices.
        let mut backprop_bind_groups: Vec<Vec<BufferRef>> = Vec::new();
        let mut l: usize = 0;
        while l < n - 1
            invariant
                0 <= l <= n - 1,
                n >= 1,
                backprop_bind_groups@.len() == l,
                forall|j: int|
                    0 <= j < l ==> #[trigger] backprop_bind_groups@[j]@ == backprop_bind_group(
                        j,
                        n as int,
                    ),
            decreases n - 1 - l,
        {
            let mut group: Vec<BufferRef> = Vec::new();
            group.push(BufferRef::Weights(l + 1));
            group.push(BufferRef::Z(l + 1));
            group.push(BufferRef::DerivZ(l + 2));
            group.push(BufferRef::DerivZ(l + 1));
            assert(group@ =~= backprop_bind_group(l as int, n as int));
            backprop_bind_groups.push(group);
            l = l + 1;
        }
        // The final layer's error terms come from its own outputs and the
        // expected values.
        let mut group: Vec<BufferRef> = Vec::new();
        group.push(BufferRef::A(n));
        group.push(BufferRef::Z(n));
        group.push(BufferRef::Expected);
        group.push(BufferRef::DerivZ(n));
        assert(group@ =~= backprop_bind_group(n - 1, n as int));
        backprop_bind_groups.push(group);

        let mut bias_apply_bind_groups: Vec<Vec<BufferRef>> = Vec::new();
        let mut l: usize = 0;
        while l < n
            invariant
                0 <= l <= n,
                bias_apply_bind_groups@.len() == l,
                forall|j: int|
                    0 <= j < l ==> #[trigger] bias_apply_bind_groups@[j]@ == bias_apply_bind_group(
                        j,
                    ),
            decreases n - l,
        {
            let mut group: Vec<BufferRef> = Vec::new();
            group.push(BufferRef::DerivZ(l + 1));
            group.push(BufferRef::Biases(l));
            assert(group@ =~= bias_apply_bind_group(l as int));
            bias_apply_bind_groups.push(group);
            l = l + 1;
        }
        let mut weight_apply_bind_groups: Vec<Vec<BufferRef>> = Vec::new();
        let mut l: usize = 0;
        while l < n
            invariant
                0 <= l <= n,
                weight_apply_bind_groups@.len() == l,
                forall|j: int|
                    0 <= j < l ==> #[trigger] weight_apply_bind_groups@[j]@
                        == weight_apply_bind_group(j),
            decreases n - l,
        {
            let mut group: Vec<BufferRef> = Vec::new();
            group.push(BufferRef::A(l));
            group.push(BufferRef::DerivZ(l + 1));
            group.push(BufferRef::Weights(l));
            assert(group@ =~= weight_apply_bind_group(l as int));
            weight_apply_bind_groups.push(group);
            l = l + 1;
        }

        TrainingResources {
            config,
            deriv_z_buffers,
            eval_resources,
            expected_contents,
            backprop_bind_groups,
            backprop_bias_apply_bind_groups: bias_apply_bind_groups,
            backprop_weight_apply_bind_groups: weight_apply_bind_groups,
        }
    }
}

/// One recorded compute pass: which kernel of which layer runs, the bind
/// group at slot 0, and the workgroup grid it dispatches.
pub struct PassRecord {
    pub kernel: KernelKind,
    pub layer: usize,
    pub bind_group: Vec<BufferRef>,
    pub dispatch: Dispatch,
}

/// The forward pass of layer `l` as recorded: the forward kernel over the
/// forward bind group, tiled over the batch and the layer.
pub open spec fn is_forward_pass(p: PassRecord, c: Config, invocations: int, l: int) -> bool {
    &&& p.kernel == KernelKind::ComputeForwards
    &&& p.layer == l
    &&& p.bind_group@ == forward_bind_group(l)
    &&& p.dispatch.x == spec_ceil_div(invocations, STD_WORKGROUP_SIZE_X as int)
    &&& p.dispatch.y == spec_ceil_div(c.spec_layers()[l] as int, STD_WORKGROUP_SIZE_Y as int)
    &&& p.dispatch.z == 1
}

/// The backpropagation pass of layer `l` as recorded.
pub open spec fn is_backprop_pass(p: PassRecord, c: Config, invocations: int, l: int) -> bool {
    let n = c.spec_layers().len() as int;
    &&& p.kernel == (if l == n - 1 {
        KernelKind::BackpropFromCost
    } else {
        KernelKind::BackpropFromLayer
    })
    &&& p.layer == l
    &&& p.bind_group@ == backprop_bind_group(l, n)
    &&& p.dispatch.x == spec_ceil_div(invocations, STD_WORKGROUP_SIZE_X as int)
    &&& p.dispatch.y == spec_ceil_div(c.spec_layers()[l] as int, STD_WORKGROUP_SIZE_Y as int)
    &&& p.dispatch.z == 1
}

/// The bias-apply pass of layer `l` as recorded.
pub open spec fn is_bias_apply_pass(p: PassRecord, c: Config, l: int) -> bool {
    &&& p.kernel == KernelKind::ApplyBiases
    &&& p.layer == l
    &&& p.bind_group@ == bias_apply_bind_group(l)
    &&& p.dispatch.x == 1
    &&& p.dispatch.y == spec_ceil_div(c.spec_layers()[l] as int, BIAS_WORKGROUP_SIZE as int)
    &&& p.dispatch.z == 1
}

/// The weight-apply pass of layer `l` as recorded.
pub open spec fn is_weight_apply_pass(p: PassRecord, c: Config, l: int) -> bool {
    &&& p.kernel == KernelKind::ApplyWeights
    &&& p.layer == l
    &&& p.bind_group@ == weight_apply_bind_group(l)
    &&& p.dispatch.x == 1
    &&& p.dispatch.y == spec_ceil_div(spec_prev_size(c, l), WEIGHT_WORKGROUP_SIZE_A as int)
    &&& p.dispatch.z == spec_ceil_div(c.spec_layers()[l] as int, WEIGHT_WORKGROUP_SIZE_B as int)
}

/// Records the passes of one training step, in the order one command buffer
/// submits them: the forward passes of every layer from the first up, then
/// the backpropagation passes from the last layer down (so every error term
/// is computed from a consistent snapshot of the parameters), then the bias-
/// and weight-apply passes of every layer from the first up.
pub fn run_training_step(resources: &TrainingResources) -> (r: Vec<PassRecord>)
    requires
        training_resources_wired(*resources),
        resources.config.spec_layers().len() * 4 <= usize::MAX,
    ensures
        ({
            let c = resources.config;
            let n = c.spec_layers().len() as int;
            let inv = resources.eval_resources.invocations as int;
            &&& r@.len() == 4 * n
            &&& forall|l: int| 0 <= l < n ==> is_forward_pass(#[trigger] r@[l], c, inv, l)
            &&& forall|j: int|
                0 <= j < n ==> is_backprop_pass(#[trigger] r@[n + j], c, inv, n - 1 - j)
            &&& forall|l: int| 0 <= l < n ==> is_bias_apply_pass(#[trigger] r@[2 * n + 2 * l], c, l)
            &&& forall|l: int|
                0 <= l < n ==> is_weight_apply_pass(#[trigger] r@[2 * n + 2 * l + 1], c, l)
        }),
{
    let config = &resources.config;
    let ghost c = resources.config;
    let ghost inv = resources.eval_resources.invocations as int;
    let n = config.num_layers();
    let mut commands: Vec<PassRecord> = Vec::new();

    // Run the network forwards on the data.
    let mut layer: usize = 0;
    while layer < n
        invariant
            0 <= layer <= n,
            n == c.spec_layers().len(),
            c == resources.config,
            inv == resources.eval_resources.invocations as int,
            training_resources_wired(*resources),
            commands@.len() == layer,
            forall|l: int| 0 <= l < layer ==> is_forward_pass(#[trigger] commands@[l], c, inv, l),
        decreases n - layer,
    {
        let dispatch = resources.eval_resources.shaders[layer].compute_forwards.setup_pass();
        commands.push(
            PassRecord {
                kernel: KernelKind::ComputeForwards,
                layer,
                bind_group: copy_vec(&resources.eval_resources.bind_groups[layer]),
                dispatch,
            },
        );
        layer = layer + 1;
    }

    // Run the backpropagation passes, last layer first.
    let mut j: usize = 0;
    while j < n
        invariant
            0 <= j <= n,
            n == c.spec_layers().len(),
            c == resources.config,
            inv == resources.eval_resources.invocations as int,
            training_resources_wired(*resources),
            commands@.len() == n + j,
            forall|l: int| 0 <= l < n ==> is_forward_pass(#[trigger] commands@[l], c, inv, l),
            forall|x: int|
                0 <= x < j ==> is_backprop_pass(#[trigger] commands@[n + x], c, inv, n - 1 - x),
        decreases n - j,
    {
        let layer = n - 1 - j;
        let dispatch = resources.eval_resources.shaders[layer].backpropagation.setup_pass();
        let kernel = if layer == n - 1 {
            KernelKind::BackpropFromCost
        } else {
            KernelKind::BackpropFromLayer
        };
        commands.push(
            PassRecord {
                kernel,
                layer,
                bind_group: copy_vec(&resources.backprop_bind_groups[layer]),
                dispatch,
            },
        );
        j = j + 1;
    }

    // Apply the backpropagation results.
    let mut layer: usize = 0;
    while layer < n
        invariant
            0 <= layer <= n,
            n == c.spec_layers().len(),
            c == resources.config,
            inv == resources.eval_resources.invocations as int,
            training_resources_wired(*resources),
            4 * n <= usize::MAX,
            commands@.len() == 2 * n + 2 * layer,
            forall|l: int| 0 <= l < n ==> is_forward_pass(#[trigger] commands@[l], c, inv, l),
            forall|x: int|
                0 <= x < n ==> is_backprop_pass(#[trigger] commands@[n + x], c, inv, n - 1 - x),
            forall|l: int|
                0 <= l < layer ==> is_bias_apply_pass(#[trigger] commands@[2 * n + 2 * l], c, l),
            forall|l: int|
                0 <= l < layer ==> is_weight_apply_pass(
                    #[trigger] commands@[2 * n + 2 * l + 1],
                    c,
                    l,
                ),
        decreases n - layer,
    {
        let dispatch = resources.eval_resources.shaders[layer].apply_backprop_biases.setup_pass();
        commands.push(
            PassRecord {
                kernel: KernelKind::ApplyBiases,
                layer,
                bind_group: copy_vec(&resources.backprop_bias_apply_bind_groups[layer]),
                dispatch,
            },
        );
        let dispatch = resources.eval_resources.shaders[layer].apply_backprop_weights.setup_pass();
        commands.push(
            PassRecord {
                kernel: KernelKind::ApplyWeights,
                layer,
                bind_group: copy_vec(&resources.backprop_weight_apply_bind_groups[layer]),
                dispatch,
            },
        );
        layer = layer + 1;
    }
    commands
}

/// Why an evaluation could not run.
#[derive(Debug, PartialEq, Eq, Structural, Clone, Copy)]
pub enum EvalError {
    /// The subset to evaluate on holds no examples: there is nothing to
    /// compute statistics over.
    CannotEvaluate,
}

/// The recorded work of one evaluation: the forward passes and the readback
/// of the final activation buffer.
pub struct EvalPlan {
    pub passes: Vec<PassRecord>,
    pub readback: ReadbackPlan,
}

/// Records the forward passes of every layer, in layer order.
fn forward_passes(config: &Config, resources: &EvalResources) -> (r: Vec<PassRecord>)
    requires
        config.wf(),
        resources.bind_groups@.len() == config.spec_layers().len(),
        forall|l: int|
            0 <= l < config.spec_layers().len() ==> #[trigger] resources.bind_groups@[l]@
                == forward_bind_group(l),
        resources.shaders@.len() == config.spec_layers().len(),
        forall|l: int|
            0 <= l < config.spec_layers().len() ==> shader_set_sized(
                #[trigger] resources.shaders@[l],
                *config,
                l,
                resources.invocations as int,
            ),
    ensures
        r@.len() == config.spec_layers().len(),
        forall|l: int|
            0 <= l < r@.len() ==> is_forward_pass(
                #[trigger] r@[l],
                *config,
                resources.invocations as int,
                l,
            ),
{
    let ghost inv = resources.invocations as int;
    let n = config.num_layers();
    let mut commands: Vec<PassRecord> = Vec::new();
    let mut layer: usize = 0;
    while layer < n
        invariant
            0 <= layer <= n,
            n == config.spec_layers().len(),
            config.wf(),
            inv == resources.invocations as int,
            resources.bind_groups@.len() == n,
            forall|l: int|
                0 <= l < n ==> #[trigger] resources.bind_groups@[l]@ == forward_bind_group(l),
            resources.shaders@.len() == n,
            forall|l: int|
                0 <= l < n ==> shader_set_sized(
                    #[trigger] resources.shaders@[l],
                    *config,
                    l,
                    inv,
                ),
            commands@.len() == layer,
            forall|l: int|
                0 <= l < layer ==> is_forward_pass(#[trigger] commands@[l], *config, inv, l),
        decreases n - layer,
    {
        let dispatch = resources.shaders[layer].compute_forwards.setup_pass();
        commands.push(
            PassRecord {
                kernel: KernelKind::ComputeForwards,
                layer,
                bind_group: copy_vec(&resources.bind_groups[layer]),
                dispatch,
            },
        );
        layer = layer + 1;
    }
    commands
}

/// Plans one performance evaluation over a dataset: builds the evaluation
/// resources, records the forward passes and the readback of the output
/// buffer. Refuses an empty dataset — there is nothing to compute statistics
/// over — rather than planning an evaluation of nothing.
pub fn eval_performance(
    gpu: &GpuDeviceData,
    config: &Config,
    parameters: &WeightsAndBiases,
    data: &DataSet,
) -> (r: Result<(EvalResources, EvalPlan), EvalError>)
    requires
        gpu.wf(),
        config.wf(),
        store_matches_config(parameters@, *config),
        eval_fits(*config, data@.len() as int),
        forall|e: int|
            0 <= e < data@.len() ==> #[trigger] data@[e].features@.len()
                == config.spec_input_length(),
    ensures
        r is Err <==> data@.len() == 0,
        r matches Err(e) ==> e == EvalError::CannotEvaluate,
        r matches Ok((res, plan)) ==> {
            &&& eval_resources_matches(res, *gpu, *config, data@.len() as int)
            &&& forall|e: int, k: int|
                0 <= e < data@.len() && 0 <= k < config.spec_input_length()
                    ==> #[trigger] res.a_buffers.input_contents@[e * config.spec_input_length()
                    + k] == data@[e].features@[k]
            &&& plan.passes@.len() == config.spec_layers().len()
            &&& forall|l: int|
                0 <= l < plan.passes@.len() ==> is_forward_pass(
                    #[trigger] plan.passes@[l],
                    *config,
                    data@.len() as int,
                    l,
                )
            &&& plan.readback.source == (if gpu.mappable_primary {
                crate::layer::ReadableBuf::Primary
            } else {
                crate::layer::ReadableBuf::Staging
            })
            &&& plan.readback.buffer_index == config.spec_layers().len()
            &&& plan.readback.bytes == res.a_buffers.size_of_last_layer
        },
{
    if data.len() == 0 {
        return Err(EvalError::CannotEvaluate);
    }
    let resources = EvalResources::init(gpu, config, parameters, data);
    let passes = forward_passes(config, &resources);
    let readback = resources.a_buffers.read_output(gpu);
    Ok((resources, EvalPlan { passes, readback }))
}

/// The recorded work of evaluating one text label: the scalars to write into
/// the input buffer, the forward passes, and the readback of the output
/// buffer; the result color is the head of the scalars read back.
pub struct SingleEvalPlan {
    pub input_contents: Vec<Scalar>,
    pub passes: Vec<PassRecord>,
    pub readback: ReadbackPlan,
}

/// Plans the evaluation of one text label on existing resources: encode the
/// label, write the encoding into the input buffer, run the layers forward,
/// and read the output buffer back.
pub fn eval_single(
    data: &str,
    gpu: &GpuDeviceData,
    config: &Config,
    resources: &EvalResources,
) -> (r: SingleEvalPlan)
    requires
        gpu.wf(),
        config.wf(),
        data@.len() <= config.spec_max_chars(),
        config.spec_input_length() <= usize::MAX,
        resources.bind_groups@.len() == config.spec_layers().len(),
        forall|l: int|
            0 <= l < config.spec_layers().len() ==> #[trigger] resources.bind_groups@[l]@
                == forward_bind_group(l),
        resources.shaders@.len() == config.spec_layers().len(),
        forall|l: int|
            0 <= l < config.spec_layers().len() ==> shader_set_sized(
                #[trigger] resources.shaders@[l],
                *config,
                l,
                resources.invocations as int,
            ),
        resources.a_buffers.buffers@.len() >= 1,
    ensures
        r.input_contents@ == spec_string_to_data(data@, config.spec_max_chars() as int),
        r.passes@.len() == config.spec_layers().len(),
        forall|l: int|
            0 <= l < r.passes@.len() ==> is_forward_pass(
                #[trigger] r.passes@[l],
                *config,
                resources.invocations as int,
                l,
            ),
        r.readback.source == (if gpu.mappable_primary {
            crate::layer::ReadableBuf::Primary
        } else {
            crate::layer::ReadableBuf::Staging
        }),
        r.readback.buffer_index == resources.a_buffers.buffers@.len() - 1,
        r.readback.bytes == resources.a_buffers.size_of_last_layer,
{
    let input_contents = string_to_data(data, config);
    let passes = forward_passes(config, resources);
    let readback = resources.a_buffers.read_output(gpu);
    SingleEvalPlan { input_contents, passes, readback }
}

/// How many rounds of training a run makes between evaluations.
pub const TRAIN_ROUNDS: usize = 10;

/// How many steps each round records before the next evaluation.
pub const STEPS_PER_ROUND: usize = 500;

/// One host action of a training run.
#[derive(Debug, PartialEq, Eq, Structural, Clone, Copy)]
pub enum TrainAction {
    /// Record and submit one training step.
    Step,
    /// Wait for the queue, then evaluate the current parameters.
    Evaluate,
}

/// Why a training run could not start.
#[derive(Debug, PartialEq, Eq, Structural, Clone, Copy)]
pub enum TrainError {
    /// The training subset holds no examples.
    NoTrainingData,
}

/// The schedule of a whole training run: an evaluation of the untrained
/// parameters first, then `rounds` rounds of `steps_per_round` training
/// steps each followed by an evaluation, and one final training step.
/// Refuses an empty training subset.
pub fn train_nn_schedule(training_len: usize, rounds: usize, steps_per_round: usize) -> (r: Result<
    Vec<TrainAction>,
    TrainError,
>)
    requires
        steps_per_round < usize::MAX,
        rounds * (steps_per_round + 1) + 2 <= usize::MAX,
    ensures
        r is Err <==> training_len == 0,
        r matches Err(e) ==> e == TrainError::NoTrainingData,
        r matches Ok(plan) ==> {
            let period = steps_per_round + 1;
            &&& plan@.len() == 2 + rounds * period
            &&& plan@[0] == TrainAction::Evaluate
            &&& forall|rr: int, s: int|
                0 <= rr < rounds && 0 <= s < steps_per_round ==> #[trigger] plan@[1 + rr * period
                    + s] == TrainAction::Step
            &&& forall|rr: int|
                0 <= rr < rounds ==> #[trigger] plan@[1 + rr * period + steps_per_round]
                    == TrainAction::Evaluate
            &&& plan@[plan@.len() - 1] == TrainAction::Step
        },
{
    if training_len == 0 {
        return Err(TrainError::NoTrainingData);
    }
    let ghost period = steps_per_round as int + 1;
    let mut plan: Vec<TrainAction> = Vec::new();
    plan.push(TrainAction::Evaluate);
    let mut round: usize = 0;
    while round < rounds
        invariant
            0 <= round <= rounds,
            period == steps_per_round as int + 1,
            rounds * period + 2 <= usize::MAX,
            plan@.len() == 1 + round * period,
            plan@[0] == TrainAction::Evaluate,
            forall|rr: int, s: int|
                0 <= rr < round && 0 <= s < steps_per_round ==> #[trigger] plan@[1 + rr * period
                    + s] == TrainAction::Step,
            forall|rr: int|
                0 <= rr < round ==> #[trigger] plan@[1 + rr * period + steps_per_round]
                    == TrainAction::Evaluate,
        decreases rounds - round,
    {
        proof {
            assert((round + 1) * period == round * period + period) by (nonlinear_arith);
            assert((round + 1) * period <= rounds * period) by (nonlinear_arith)
                requires
                    round + 1 <= rounds,
                    period >= 0,
            ;
        }
        let mut s: usize = 0;
        while s < steps_per_round
            invariant
                0 <= s <= steps_per_round,
                0 <= round < rounds,
                period == steps_per_round as int + 1,
                rounds * period + 2 <= usize::MAX,
                (round + 1) * period <= rounds * period,
                (round + 1) * period == round * period + period,
                plan@.len() == 1 + round * period + s,
                plan@[0] == TrainAction::Evaluate,
                forall|rr: int, ss: int|
                    0 <= rr < round && 0 <= ss < steps_per_round ==> #[trigger] plan@[1 + rr
                        * period + ss] == TrainAction::Step,
                forall|rr: int|
                    0 <= rr < round ==> #[trigger] plan@[1 + rr * period + steps_per_round]
                        == TrainAction::Evaluate,
                forall|ss: int|
                    0 <= ss < s ==> #[trigger] plan@[1 + round * period + ss] == TrainAction::Step,
            decreases steps_per_round - s,
        {
            plan.push(TrainAction::Step);
            proof {
                assert forall|rr: int, ss: int|
                    0 <= rr < round && 0 <= ss < steps_per_round implies #[trigger] plan@[1 + rr
                    * period + ss] == TrainAction::Step by {
                    lemma_row_index_bound(rr, round as int, ss, period);
                }
                assert forall|rr: int| 0 <= rr < round implies #[trigger] plan@[1 + rr * period
                    + steps_per_round] == TrainAction::Evaluate by {
                    lemma_row_index_bound(rr, round as int, steps_per_round as int, period);
                }
            }
            s = s + 1;
        }
        plan.push(TrainAction::Evaluate);
        proof {
            assert forall|rr: int, ss: int|
                0 <= rr < round && 0 <= ss < steps_per_round implies #[trigger] plan@[1 + rr
                * period + ss] == TrainAction::Step by {
                lemma_row_index_bound(rr, round as int, ss, period);
            }
            assert forall|rr: int| 0 <= rr < round implies #[trigger] plan@[1 + rr * period
                + steps_per_round] == TrainAction::Evaluate by {
                lemma_row_index_bound(rr, round as int, steps_per_round as int, period);
            }
        }
        round = round + 1;
    }
    plan.push(TrainAction::Step);
    proof {
        assert forall|rr: int, ss: int|
            0 <= rr < rounds && 0 <= ss < steps_per_round implies #[trigger] plan@[1 + rr * period
            + ss] == TrainAction::Step by {
            lemma_row_index_bound(rr, rounds as int, ss, period);
        }
        assert forall|rr: int| 0 <= rr < rounds implies #[trigger] plan@[1 + rr * period
            + steps_per_round] == TrainAction::Evaluate by {
            lemma_row_index_bound(rr, rounds as int, steps_per_round as int, period);
        }
    }
    Ok(plan)
}

/// The schedule of the whole run under the engine's fixed round counts.
pub fn train_nn(training_len: usize) -> (r: Result<Vec<TrainAction>, TrainError>)
    ensures
        r is Err <==> training_len == 0,
        r matches Err(e) ==> e == TrainError::NoTrainingData,
        r matches Ok(plan) ==> {
            let period = STEPS_PER_ROUND + 1;
            &&& plan@.len() == 2 + TRAIN_ROUNDS * period
            &&& plan@[0] == TrainAction::Evaluate
            &&& forall|rr: int, s: int|
                0 <= rr < TRAIN_ROUNDS && 0 <= s < STEPS_PER_ROUND ==> #[trigger] plan@[1 + rr
                    * period + s] == TrainAction::Step
            &&& forall|rr: int|
                0 <= rr < TRAIN_ROUNDS ==> #[trigger] plan@[1 + rr * period + STEPS_PER_ROUND]
                    == TrainAction::Evaluate
            &&& plan@[plan@.len() - 1] == TrainAction::Step
        },
{
    train_nn_schedule(training_len, TRAIN_ROUNDS, STEPS_PER_ROUND)
}

/// The color one evaluated example produced: the head of the scalars read
/// back from the output buffer.
pub fn output_color(outputs: &Vec<Scalar>) -> (r: Color)
    requires
        outputs@.len() >= 3,
    ensures
        r.l == outputs@[0],
        r.a == outputs@[1],
        r.b == outputs@[2],
{
    Color::from_output(outputs)
}

} // verus!
