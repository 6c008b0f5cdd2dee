//! Per-layer parameter buffers and their serialized records.
//!
//! A layer owns one weights buffer (`previous_size * size` scalars, row-major)
//! and one biases buffer (`size` scalars), both zero-initialised at creation
//! and thereafter mutated only on the device. Scalars are `u32` IEEE-754 bit
//! patterns, so rebuilding a store from its records is bit-exact.

use vstd::prelude::*;
use crate::gpu::GpuDeviceData;
use crate::input::Config;
use crate::input::JsonNetworkLayer;
use crate::input::JsonNetworkParameters;
use crate::input::spec_prev_size;
use crate::misc::size_of;

verus! {

/// Type for layer sizes.
pub type Size = u64;

/// A scalar of the engine, carried as the bit pattern of a 32-bit float.
pub type Scalar = u32;

/// The bit pattern of the scalar zero.
pub const SCALAR_ZERO: Scalar = 0;

/// The bit pattern of the scalar one.
pub const SCALAR_ONE: Scalar = 0x3F80_0000;

pub type WeightsAndBiases = Vec<LayerParameters>;

/// The parameters of one layer.
pub struct LayerParameters {
    /// Size of the preceding layer; the weights buffer holds this many
    /// scalars per node.
    pub previous_size: Size,
    /// Size of this layer.
    pub size: Size,
    /// `previous_size * size` scalars, row-major.
    pub weights: Vec<Scalar>,
    /// `size` scalars.
    pub biases: Vec<Scalar>,
}

impl LayerParameters {
    /// The buffers hold exactly the scalars the layer sizes call for.
    pub open spec fn wf(self) -> bool {
        &&& self.weights@.len() == self.previous_size * self.size
        &&& self.biases@.len() == self.size
    }

    /// Both buffers are all zero.
    pub open spec fn all_zero(self) -> bool {
        &&& forall|i: int| 0 <= i < self.weights@.len() ==> #[trigger] self.weights@[i] == 0
        &&& forall|i: int| 0 <= i < self.biases@.len() ==> #[trigger] self.biases@[i] == 0
    }

    /// Allocates the two buffers of one layer, zero-filled.
    pub fn create(prev_size: Size, size: Size) -> (r: Self)
        requires
            prev_size * size <= usize::MAX,
            size <= usize::MAX,
        ensures
            r.previous_size == prev_size,
            r.size == size,
            r.wf(),
            r.all_zero(),
    {
        let weight_count: u64 = prev_size * size;
        let weights = zero_scalars(weight_count as usize);
        let biases = zero_scalars(size as usize);
        LayerParameters { previous_size: prev_size, size, weights, biases }
    }

    /// The serialized record of this layer: the raw weight and bias scalars.
    pub fn to_json(&self) -> (r: JsonNetworkLayer)
        ensures
            r.weights@ == self.weights@,
            r.biases@ == self.biases@,
    {
        JsonNetworkLayer { weights: copy_scalars(&self.weights), biases: copy_scalars(&self.biases) }
    }
}

/// A zero-filled scalar buffer.
fn zero_scalars(n: usize) -> (r: Vec<Scalar>)
    ensures
        r@.len() == n,
        forall|i: int| 0 <= i < n ==> #[trigger] r@[i] == 0,
{
    let mut v: Vec<Scalar> = Vec::new();
    let mut i: usize = 0;
    while i < n
        invariant
            0 <= i <= n,
            v@.len() == i,
            forall|j: int| 0 <= j < i ==> #[trigger] v@[j] == 0,
        decreases n - i,
    {
        v.push(SCALAR_ZERO);
        i = i + 1;
    }
    v
}

/// An element-wise copy of a scalar buffer.
fn copy_scalars(src: &Vec<Scalar>) -> (r: Vec<Scalar>)
    ensures
        r@ == src@,
{
    let mut v: Vec<Scalar> = Vec::new();
    let mut i: usize = 0;
    while i < src.len()
        invariant
            0 <= i <= src@.len(),
            v@ == src@.subrange(0, i as int),
        decreases src@.len() - i,
    {
        v.push(src[i]);
        assert(v@ =~= src@.subrange(0, i + 1));
        i = i + 1;
    }
    assert(v@ =~= src@);
    v
}

/// A parameter store with one entry per layer of the configuration, each
/// sized by that layer.
pub open spec fn store_matches_config(p: Seq<LayerParameters>, c: Config) -> bool {
    &&& p.len() == c.spec_layers().len()
    &&& forall|i: int|
        0 <= i < p.len() ==> #[trigger] p[i].previous_size == spec_prev_size(c, i)
    &&& forall|i: int| 0 <= i < p.len() ==> #[trigger] p[i].size == c.spec_layers()[i]
    &&& forall|i: int| 0 <= i < p.len() ==> #[trigger] p[i].wf()
}

/// Allocates the whole parameter store for a configuration: one weights
/// buffer and one biases buffer per layer, each of the layer's size, all
/// zero-filled.
pub fn create_parameters(config: &Config) -> (r: WeightsAndBiases)
    requires
        config.wf(),
        forall|i: int|
            0 <= i < config.spec_layers().len() ==> #[trigger] (spec_prev_size(*config, i)
                * config.spec_layers()[i]) <= usize::MAX,
        forall|i: int|
            0 <= i < config.spec_layers().len() ==> #[trigger] config.spec_layers()[i]
                <= usize::MAX,
    ensures
        store_matches_config(r@, *config),
        forall|i: int| 0 <= i < r@.len() ==> #[trigger] r@[i].all_zero(),
{
    let layers = config.layers();
    let mut out: WeightsAndBiases = Vec::new();
    let mut i: usize = 0;
    while i < layers.len()
        invariant
            0 <= i <= layers@.len(),
            config.wf(),
            layers@.len() == config.spec_layers().len(),
            forall|j: int|
                0 <= j < layers@.len() ==> #[trigger] layers@[j].previous_size == spec_prev_size(
                    *config,
                    j,
                ),
            forall|j: int|
                0 <= j < layers@.len() ==> #[trigger] layers@[j].size == config.spec_layers()[j],
            forall|j: int|
                0 <= j < config.spec_layers().len() ==> #[trigger] (spec_prev_size(*config, j)
                    * config.spec_layers()[j]) <= usize::MAX,
            forall|j: int|
                0 <= j < config.spec_layers().len() ==> #[trigger] config.spec_layers()[j]
                    <= usize::MAX,
            out@.len() == i,
            forall|j: int|
                0 <= j < i ==> #[trigger] out@[j].previous_size == spec_prev_size(*config, j),
            forall|j: int| 0 <= j < i ==> #[trigger] out@[j].size == config.spec_layers()[j],
            forall|j: int| 0 <= j < i ==> #[trigger] out@[j].wf(),
            forall|j: int| 0 <= j < i ==> #[trigger] out@[j].all_zero(),
        decreases layers@.len() - i,
    {
        let layer = layers[i];
        out.push(LayerParameters::create(layer.previous_size, layer.size));
        i = i + 1;
    }
    out
}

/// The serialized records of a whole store, layer by layer.
pub fn to_json(parameters: &WeightsAndBiases) -> (r: JsonNetworkParameters)
    ensures
        r@.len() == parameters@.len(),
        forall|i: int|
            0 <= i < r@.len() ==> #[trigger] r@[i].weights@ == parameters@[i].weights@,
        forall|i: int| 0 <= i < r@.len() ==> #[trigger] r@[i].biases@ == parameters@[i].biases@,
{
    let mut out: JsonNetworkParameters = Vec::new();
    let mut i: usize = 0;
    while i < parameters.len()
        invariant
            0 <= i <= parameters@.len(),
            out@.len() == i,
            forall|j: int|
                0 <= j < i ==> #[trigger] out@[j].weights@ == parameters@[j].weights@,
            forall|j: int| 0 <= j < i ==> #[trigger] out@[j].biases@ == parameters@[j].biases@,
        decreases parameters@.len() - i,
    {
        out.push(parameters[i].to_json());
        i = i + 1;
    }
    out
}

/// Why a set of serialized records was rejected.
#[derive(Debug, PartialEq, Eq, Structural, Clone, Copy)]
pub enum ParamsError {
    /// The number of records differs from the number of configured layers.
    WrongLayerCount,
    /// Some record's weights or biases differ in length from the configured
    /// layer sizes.
    WrongBufferLength,
}

/// The records carry exactly the scalar counts the configuration calls for.
pub open spec fn records_match_config(j: Seq<JsonNetworkLayer>, c: Config) -> bool {
    &&& j.len() == c.spec_layers().len()
    &&& forall|i: int|
        0 <= i < j.len() ==> #[trigger] j[i].weights@.len() == spec_prev_size(c, i)
            * c.spec_layers()[i]
    &&& forall|i: int|
        0 <= i < j.len() ==> #[trigger] j[i].biases@.len() == c.spec_layers()[i]
}

/// Rebuilds a parameter store from its serialized records, rejecting records
/// that do not fit the configuration.
pub fn from_json(json: &JsonNetworkParameters, config: &Config) -> (r: Result<
    WeightsAndBiases,
    ParamsError,
>)
    requires
        config.wf(),
    ensures
        r is Ok <==> records_match_config(json@, *config),
        r matches Ok(p) ==> {
            &&& store_matches_config(p@, *config)
            &&& p@.len() == json@.len()
            &&& forall|i: int|
                0 <= i < p@.len() ==> #[trigger] p@[i].weights@ == json@[i].weights@
            &&& forall|i: int| 0 <= i < p@.len() ==> #[trigger] p@[i].biases@ == json@[i].biases@
        },
        r matches Err(e) ==> (e == ParamsError::WrongLayerCount <==> json@.len()
            != config.spec_layers().len()),
        r matches Err(e) ==> (e == ParamsError::WrongBufferLength <==> (json@.len()
            == config.spec_layers().len() && !records_match_config(json@, *config))),
{
    let layers = config.layers();
    if json.len() != layers.len() {
        return Err(ParamsError::WrongLayerCount);
    }
    let mut out: WeightsAndBiases = Vec::new();
    let mut i: usize = 0;
    while i < json.len()
        invariant
            0 <= i <= json@.len(),
            config.wf(),
            json@.len() == layers@.len(),
            layers@.len() == config.spec_layers().len(),
            forall|j: int|
                0 <= j < layers@.len() ==> #[trigger] layers@[j].previous_size == spec_prev_size(
                    *config,
                    j,
                ),
            forall|j: int|
                0 <= j < layers@.len() ==> #[trigger] layers@[j].size == config.spec_layers()[j],
            out@.len() == i,
            forall|j: int|
                0 <= j < i ==> #[trigger] out@[j].previous_size == spec_prev_size(*config, j),
            forall|j: int| 0 <= j < i ==> #[trigger] out@[j].size == config.spec_layers()[j],
            forall|j: int| 0 <= j < i ==> #[trigger] out@[j].wf(),
            forall|j: int| 0 <= j < i ==> #[trigger] out@[j].weights@ == json@[j].weights@,
            forall|j: int| 0 <= j < i ==> #[trigger] out@[j].biases@ == json@[j].biases@,
            forall|j: int|
                0 <= j < i ==> #[trigger] json@[j].weights@.len() == spec_prev_size(*config, j)
                    * config.spec_layers()[j],
            forall|j: int|
                0 <= j < i ==> #[trigger] json@[j].biases@.len() == config.spec_layers()[j],
        decreases json@.len() - i,
    {
        let record = &json[i];
        let layer = layers[i];
        proof {
            let pw = layer.previous_size as u128;
            let sz = layer.size as u128;
            assert(pw * sz < u128::MAX) by (nonlinear_arith)
                requires
                    pw < 0x1_0000_0000_0000_0000u128,
                    sz < 0x1_0000_0000_0000_0000u128,
            ;
        }
        let expected_weights: u128 = (layer.previous_size as u128) * (layer.size as u128);
        if record.weights.len() as u128 != expected_weights || record.biases.len() as u64
            != layer.size {
            return Err(ParamsError::WrongBufferLength);
        }
        out.push(
            LayerParameters {
                previous_size: layer.previous_size,
                size: layer.size,
                weights: copy_scalars(&record.weights),
                biases: copy_scalars(&record.biases),
            },
        );
        i = i + 1;
    }
    Ok(out)
}

/// Law: serializing a parameter store to its record format and rebuilding a
/// store from those records restores the original scalars bit for bit. The
/// records of a store that fits a configuration themselves fit it, and any
/// store rebuilt from them carries the same sizes and the same weight and
/// bias scalars as the original.
pub proof fn lemma_parameters_round_trip(
    p: Seq<LayerParameters>,
    j: Seq<JsonNetworkLayer>,
    q: Seq<LayerParameters>,
    c: Config,
)
    requires
        c.wf(),
        store_matches_config(p, c),
        // j is the record view of p, as `to_json` ensures
        j.len() == p.len(),
        forall|i: int| 0 <= i < j.len() ==> #[trigger] j[i].weights@ == p[i].weights@,
        forall|i: int| 0 <= i < j.len() ==> #[trigger] j[i].biases@ == p[i].biases@,
        // q is a store rebuilt from j, as `from_json` ensures of an Ok result
        store_matches_config(q, c),
        q.len() == j.len(),
        forall|i: int| 0 <= i < q.len() ==> #[trigger] q[i].weights@ == j[i].weights@,
        forall|i: int| 0 <= i < q.len() ==> #[trigger] q[i].biases@ == j[i].biases@,
    ensures
        records_match_config(j, c),
        q.len() == p.len(),
        forall|i: int| 0 <= i < p.len() ==> #[trigger] q[i].previous_size == p[i].previous_size,
        forall|i: int| 0 <= i < p.len() ==> #[trigger] q[i].size == p[i].size,
        forall|i: int| 0 <= i < p.len() ==> #[trigger] q[i].weights@ == p[i].weights@,
        forall|i: int| 0 <= i < p.len() ==> #[trigger] q[i].biases@ == p[i].biases@,
{
    assert forall|i: int| 0 <= i < j.len() implies #[trigger] j[i].weights@.len()
        == spec_prev_size(c, i) * c.spec_layers()[i] by {
        assert(p[i].wf());
    }
    assert forall|i: int| 0 <= i < j.len() implies #[trigger] j[i].biases@.len()
        == c.spec_layers()[i] by {
        assert(p[i].wf());
    }
}

/// How the device may use one buffer.
#[derive(Debug, PartialEq, Eq, Structural, Clone, Copy)]
pub enum BufferUse {
    /// Compute storage only.
    Storage,
    /// Compute storage the host can also map and read directly.
    StorageMapRead,
    /// Compute storage whose contents can be copied to a staging buffer.
    StorageCopySrc,
}

/// The usage the buffers read back after training are created with, resolved
/// once per context: host-mappable storage where the device allows it, a
/// copy source otherwise.
pub fn readable_buffer_use(mappable_primary: bool) -> (r: BufferUse)
    ensures
        r == (if mappable_primary {
            BufferUse::StorageMapRead
        } else {
            BufferUse::StorageCopySrc
        }),
{
    if mappable_primary {
        BufferUse::StorageMapRead
    } else {
        BufferUse::StorageCopySrc
    }
}

/// The descriptor of one activation buffer.
#[derive(Debug, Clone, Copy)]
#[verifier::ext_equal]
pub struct BufferPlan {
    /// Scalars the buffer holds.
    pub scalars: u64,
    /// Its size in bytes.
    pub bytes: u64,
    pub usage: BufferUse,
}

/// The activation-buffer chain of one batch: one buffer per layer boundary,
/// the input layer included, each sized `layer_size * invocations`.
pub struct LayerValues {
    pub buffers: Vec<BufferPlan>,
    /// In bytes.
    pub size_of_last_layer: u64,
    /// The scalars the input buffer is created with; every other buffer
    /// starts unwritten.
    pub input_contents: Vec<Scalar>,
}

/// The buffer chain a configuration and batch size call for: the input
/// buffer first, then one buffer per layer, each holding `size * invocations`
/// scalars; only the final buffer is created readable, in the way the device
/// capability allows.
pub open spec fn layer_values_matches(
    v: LayerValues,
    c: Config,
    invocations: int,
    mappable_primary: bool,
) -> bool {
    let n = c.spec_layers().len() as int;
    &&& v.buffers@.len() == n + 1
    &&& v.buffers@[0].scalars == c.spec_input_length() * invocations
    &&& forall|i: int|
        1 <= i <= n ==> #[trigger] v.buffers@[i].scalars == c.spec_layers()[i - 1] * invocations
    &&& forall|i: int|
        0 <= i <= n ==> #[trigger] v.buffers@[i].bytes == v.buffers@[i].scalars * 4
    &&& forall|i: int|
        0 <= i < n ==> #[trigger] v.buffers@[i].usage == BufferUse::Storage
    &&& v.buffers@[n].usage == (if mappable_primary {
        BufferUse::StorageMapRead
    } else {
        BufferUse::StorageCopySrc
    })
    &&& v.size_of_last_layer == c.spec_layers()[n - 1] * invocations * 4
    &&& v.input_contents@.len() == c.spec_input_length() * invocations
}

/// A slot inside an earlier row lies below the end of the filled rows.
pub(crate) proof fn lemma_row_index_bound(x: int, e: int, kk: int, l: int)
    requires
        0 <= x < e,
        0 <= kk < l,
    ensures
        0 <= x * l + kk < e * l,
{
    assert(x * l + kk < e * l) by (nonlinear_arith)
        requires
            0 <= x < e,
            0 <= kk < l,
    ;
}

/// The products a buffer chain computes stay within the machine's limits.
pub open spec fn layer_values_fits(c: Config, invocations: int) -> bool {
    &&& c.spec_input_length() * invocations * 4 <= u64::MAX
    &&& c.spec_input_length() * invocations <= usize::MAX
    &&& forall|i: int|
        0 <= i < c.spec_layers().len() ==> #[trigger] (c.spec_layers()[i] * invocations * 4)
            <= u64::MAX
}

impl LayerValues {
    /// Allocates the buffer chain of one batch, the input buffer zero-filled
    /// as buffers mapped at creation are.
    pub fn create(gpu: &GpuDeviceData, config: &Config, invocations: usize) -> (r: Self)
        requires
            config.wf(),
            layer_values_fits(*config, invocations as int),
        ensures
            layer_values_matches(r, *config, invocations as int, gpu.mappable_primary),
            forall|k: int|
                0 <= k < r.input_contents@.len() ==> #[trigger] r.input_contents@[k] == 0,
    {
        let input_len = config.input_length();
        proof {
            assert(input_len * invocations <= usize::MAX) by (nonlinear_arith)
                requires
                    input_len == config.spec_input_length(),
                    config.spec_input_length() * (invocations as int) <= usize::MAX,
                    invocations >= 0,
                    input_len >= 0,
            ;
        }
        let total: u64 = input_len * (invocations as u64);
        let input_contents = zero_scalars(total as usize);
        Self::with_input_contents(gpu, config, invocations, input_contents)
    }

    /// Allocates the buffer chain of one batch, the input buffer initialised
    /// with one encoded feature vector per invocation, laid out contiguously.
    pub fn create_with_input(
        gpu: &GpuDeviceData,
        config: &Config,
        invocations: usize,
        inputs: &Vec<Vec<Scalar>>,
    ) -> (r: Self)
        requires
            config.wf(),
            layer_values_fits(*config, invocations as int),
            inputs@.len() == invocations,
            forall|e: int|
                0 <= e < invocations ==> #[trigger] inputs@[e]@.len()
                    == config.spec_input_length(),
        ensures
            layer_values_matches(r, *config, invocations as int, gpu.mappable_primary),
            forall|e: int, k: int|
                0 <= e < invocations && 0 <= k < config.spec_input_length()
                    ==> #[trigger] r.input_contents@[e * config.spec_input_length() + k]
                    == inputs@[e]@[k],
    {
        let input_len = config.input_length();
        let mut contents: Vec<Scalar> = Vec::new();
        let mut e: usize = 0;
        while e < invocations
            invariant
                0 <= e <= invocations,
                config.wf(),
                input_len == config.spec_input_length(),
                config.spec_input_length() * (invocations as int) <= usize::MAX,
                inputs@.len() == invocations,
                forall|x: int|
                    0 <= x < invocations ==> #[trigger] inputs@[x]@.len()
                        == config.spec_input_length(),
                contents@.len() == e * config.spec_input_length(),
                forall|x: int, k: int|
                    0 <= x < e && 0 <= k < config.spec_input_length()
                        ==> #[trigger] contents@[x * config.spec_input_length() + k]
                        == inputs@[x]@[k],
            decreases invocations - e,
        {
            proof {
                assert((e + 1) * config.spec_input_length() == e * config.spec_input_length()
                    + config.spec_input_length()) by (nonlinear_arith);
                assert((e + 1) * config.spec_input_length() <= invocations
                    * config.spec_input_length()) by (nonlinear_arith)
                    requires
                        e + 1 <= invocations,
                        config.spec_input_length() >= 0,
                ;
                assert(invocations * config.spec_input_length() == config.spec_input_length()
                    * invocations) by (nonlinear_arith);
            }
            let row = &inputs[e];
            let mut k: usize = 0;
            while k < row.len()
                invariant
                    0 <= k <= row@.len(),
                    row@.len() == config.spec_input_length(),
                    row@ == inputs@[e as int]@,
                    0 <= e < invocations,
                    inputs@.len() == invocations,
                    config.wf(),
                    forall|x: int|
                        0 <= x < invocations ==> #[trigger] inputs@[x]@.len()
                            == config.spec_input_length(),
                    (e + 1) * config.spec_input_length() <= usize::MAX,
                    contents@.len() == e * config.spec_input_length() + k,
                    forall|x: int, kk: int|
                        0 <= x < e && 0 <= kk < config.spec_input_length()
                            ==> #[trigger] contents@[x * config.spec_input_length() + kk]
                            == inputs@[x]@[kk],
                    forall|kk: int|
                        0 <= kk < k ==> #[trigger] contents@[e * config.spec_input_length() + kk]
                            == row@[kk],
                decreases row@.len() - k,
            {
                proof {
                    assert((e + 1) * config.spec_input_length() == e * config.spec_input_length()
                        + config.spec_input_length()) by (nonlinear_arith);
                }
                contents.push(row[k]);
                proof {
                    assert forall|x: int, kk: int|
                        0 <= x < e && 0 <= kk < config.spec_input_length()
                            implies #[trigger] contents@[x * config.spec_input_length() + kk]
                            == inputs@[x]@[kk] by {
                        lemma_row_index_bound(x, e as int, kk, config.spec_input_length());
                    }
                }
                k = k + 1;
            }
            proof {
                assert((e + 1) * config.spec_input_length() == e * config.spec_input_length()
                    + config.spec_input_length()) by (nonlinear_arith);
                assert forall|x: int, kk: int|
                    0 <= x < e + 1 && 0 <= kk < config.spec_input_length()
                        implies #[trigger] contents@[x * config.spec_input_length() + kk]
                        == inputs@[x]@[kk] by {
                    if x < e {
                        lemma_row_index_bound(x, e as int, kk, config.spec_input_length());
                        assert(contents@[x * config.spec_input_length() + kk] == inputs@[x]@[kk]);
                    }
                }
            }
            e = e + 1;
        }
        proof {
            assert(invocations * config.spec_input_length() == config.spec_input_length()
                * invocations) by (nonlinear_arith);
        }
        Self::with_input_contents(gpu, config, invocations, contents)
    }

    /// Builds the chain descriptors around given input-buffer contents.
    fn with_input_contents(
        gpu: &GpuDeviceData,
        config: &Config,
        invocations: usize,
        input_contents: Vec<Scalar>,
    ) -> (r: Self)
        requires
            config.wf(),
            layer_values_fits(*config, invocations as int),
            input_contents@.len() == config.spec_input_length() * invocations,
        ensures
            layer_values_matches(r, *config, invocations as int, gpu.mappable_primary),
            r.input_contents@ == input_contents@,
    {
        broadcast use vstd::layout::layout_of_primitives;

        let scalar_bytes: u64 = size_of::<Scalar>();
        let input_len = config.input_length();
        proof {
            assert(input_len * (invocations as int) * 4 <= u64::MAX);
        }
        let input_scalars: u64 = input_len * (invocations as u64);
        let mut buffers: Vec<BufferPlan> = Vec::new();
        buffers.push(
            BufferPlan {
                scalars: input_scalars,
                bytes: input_scalars * scalar_bytes,
                usage: BufferUse::Storage,
            },
        );
        let layers = config.layers();
        let n = layers.len();
        let mut i: usize = 0;
        while i < n
            invariant
                0 <= i <= n,
                config.wf(),
                n == config.spec_layers().len(),
                n == layers@.len(),
                scalar_bytes == 4,
                forall|j: int|
                    0 <= j < n ==> #[trigger] layers@[j].size == config.spec_layers()[j],
                forall|j: int|
                    0 <= j < config.spec_layers().len() ==> #[trigger] (config.spec_layers()[j]
                        * (invocations as int) * 4) <= u64::MAX,
                buffers@.len() == i + 1,
                buffers@[0].scalars == config.spec_input_length() * invocations,
                buffers@[0].bytes == buffers@[0].scalars * 4,
                buffers@[0].usage == BufferUse::Storage,
                forall|j: int|
                    1 <= j <= i ==> #[trigger] buffers@[j].scalars == config.spec_layers()[j - 1]
                        * invocations,
                forall|j: int|
                    1 <= j <= i ==> #[trigger] buffers@[j].bytes == buffers@[j].scalars * 4,
                forall|j: int|
                    1 <= j <= i ==> #[trigger] buffers@[j].usage == (if j == n
                        && gpu.mappable_primary {
                        BufferUse::StorageMapRead
                    } else if j == n {
                        BufferUse::StorageCopySrc
                    } else {
                        BufferUse::Storage
                    }),
            decreases n - i,
        {
            proof {
                assert(config.spec_layers()[i as int] * (invocations as int) * 4 <= u64::MAX);
                assert(config.spec_layers()[i as int] * (invocations as int) <= u64::MAX);
            }
            let scalars: u64 = layers[i].size * (invocations as u64);
            let usage = if i == n - 1 {
                readable_buffer_use(gpu.mappable_primary)
            } else {
                BufferUse::Storage
            };
            buffers.push(BufferPlan { scalars, bytes: scalars * scalar_bytes, usage });
            i = i + 1;
        }
        proof {
            assert(config.spec_layers()[n - 1] * (invocations as int) * 4 <= u64::MAX);
        }
        let size_of_last_layer: u64 = layers[n - 1].size * (invocations as u64) * scalar_bytes;
        LayerValues { buffers, size_of_last_layer, input_contents }
    }
}

/// A buffer the host will map: the compute buffer itself, or a staging
/// buffer that a recorded copy fills first.
#[derive(Debug, PartialEq, Eq, Structural, Clone, Copy)]
pub enum ReadableBuf {
    /// Map the compute buffer directly.
    Primary,
    /// Create a staging buffer, record a copy into it, submit, and map the
    /// staging buffer once the device is done.
    Staging,
}

/// The readback plan of the final activation buffer.
#[derive(Debug, Clone, Copy)]
pub struct ReadbackPlan {
    /// How the host reaches the scalars.
    pub source: ReadableBuf,
    /// Index of the output buffer in the chain.
    pub buffer_index: usize,
    /// Bytes to map, and to copy first when staged.
    pub bytes: u64,
}

impl LayerValues {
    /// How to read the final layer's activations back: map the output buffer
    /// directly on a device with host-mappable storage, otherwise copy it to
    /// a staging buffer of the same size and map that.
    pub fn read_output(&self, gpu: &GpuDeviceData) -> (r: ReadbackPlan)
        requires
            self.buffers@.len() >= 1,
        ensures
            r.source == (if gpu.mappable_primary {
                ReadableBuf::Primary
            } else {
                ReadableBuf::Staging
            }),
            r.buffer_index == self.buffers@.len() - 1,
            r.bytes == self.size_of_last_layer,
    {
        let source = if gpu.mappable_primary {
            ReadableBuf::Primary
        } else {
            ReadableBuf::Staging
        };
        ReadbackPlan {
            source,
            buffer_index: self.buffers.len() - 1,
            bytes: self.size_of_last_layer,
        }
    }
}

/// The readback plan of one layer's parameter buffers: map them directly on
/// a device with host-mappable storage, otherwise create two staging buffers
/// of the same sizes, record copies into them, submit and wait, then map the
/// staging buffers.
#[derive(Debug, Clone, Copy)]
pub struct ParameterReadback {
    /// How the host reaches the scalars of both buffers.
    pub source: ReadableBuf,
    /// Bytes of the weights buffer, to map or to stage.
    pub weights_bytes: u64,
    /// Bytes of the biases buffer, to map or to stage.
    pub biases_bytes: u64,
}

impl LayerParameters {
    /// The readback plan of this layer's buffers, resolved once from the
    /// device capability and reused for every readback.
    pub fn readback_plan(&self, gpu: &GpuDeviceData) -> (r: ParameterReadback)
        requires
            self.weights@.len() * 4 <= u64::MAX,
            self.biases@.len() * 4 <= u64::MAX,
        ensures
            r.source == (if gpu.mappable_primary {
                ReadableBuf::Primary
            } else {
                ReadableBuf::Staging
            }),
            r.weights_bytes == self.weights@.len() * 4,
            r.biases_bytes == self.biases@.len() * 4,
    {
        broadcast use vstd::layout::layout_of_primitives;

        let scalar_bytes: u64 = size_of::<Scalar>();
        let source = if gpu.mappable_primary {
            ReadableBuf::Primary
        } else {
            ReadableBuf::Staging
        };
        ParameterReadback {
            source,
            weights_bytes: (self.weights.len() as u64) * scalar_bytes,
            biases_bytes: (self.biases.len() as u64) * scalar_bytes,
        }
    }
}

} // verus!
