//! Network configuration: input length, training fraction and layer sizes.

use vstd::prelude::*;
use crate::layer::Scalar;
use crate::string::get_input_size;
use crate::string::SLOTS_PER_CHAR;

verus! {

/// The size feeding a layer: the encoded input vector for the first layer,
/// the preceding layer's size for every other.
pub open spec fn spec_prev_size(c: Config, i: int) -> int {
    if i == 0 {
        c.spec_input_length()
    } else {
        c.spec_layers()[i - 1] as int
    }
}

/// The serialized record of one layer of the trained-parameter file:
/// weights row-major as `previous_size * size` scalars, biases as `size`
/// scalars.
pub struct JsonNetworkLayer {
    pub weights: Vec<Scalar>,
    pub biases: Vec<Scalar>,
}

/// The trained-parameter file: one record per layer, in layer order.
pub type JsonNetworkParameters = Vec<JsonNetworkLayer>;

/// Why a configuration was rejected.
#[derive(Debug, PartialEq, Eq, Structural, Clone, Copy)]
pub enum ConfigError {
    /// The configured input length was zero or too large to size buffers.
    BadInputLength,
    /// The list of layer sizes was empty.
    NoLayers,
    /// Some layer size was zero.
    ZeroLayerSize,
    /// The training fraction was above one (more than 10000 myriadths).
    BadTrainingFraction,
}

/// The network topology and the dataset-split fraction, fixed for a whole
/// training run.
#[derive(Clone)]
pub struct Config {
    /// Maximum number of characters of an encoded text label; the feature
    /// vector holds `SLOTS_PER_CHAR` slots for each.
    input_length: u64,
    /// Fraction of the dataset assigned to the training subset, in
    /// ten-thousandths.
    training_per_myriad: u32,
    /// Size of each layer, first hidden layer to output layer.
    layers: Vec<u64>,
}

/// Sizes a single layer needs to compile its pipelines.
#[derive(Clone, Copy)]
pub struct LayerConfig {
    /// Size of the preceding layer (the input vector for the first layer).
    pub previous_size: u64,
    pub size: u64,
    /// Size of the layer afterwards. Is None iff this is the last layer.
    pub next_size: Option<u64>,
}

impl Config {
    /// The configured maximum character count.
    pub closed spec fn spec_max_chars(self) -> u64 {
        self.input_length
    }

    /// The training fraction in ten-thousandths.
    pub closed spec fn spec_training_per_myriad(self) -> u32 {
        self.training_per_myriad
    }

    /// The layer sizes, first hidden layer to output layer.
    pub closed spec fn spec_layers(self) -> Seq<u64> {
        self.layers@
    }

    /// Length of the encoded feature vector.
    pub open spec fn spec_input_length(self) -> int {
        self.spec_max_chars() * SLOTS_PER_CHAR
    }

    /// A valid configuration: at least one layer, no zero sizes, an input
    /// length the feature-vector sizing cannot overflow on, and a training
    /// fraction of at most one.
    pub open spec fn wf(self) -> bool {
        &&& 1 <= self.spec_max_chars()
        &&& self.spec_max_chars() * SLOTS_PER_CHAR <= u64::MAX
        &&& self.spec_layers().len() >= 1
        &&& forall|i: int|
            0 <= i < self.spec_layers().len() ==> #[trigger] self.spec_layers()[i] >= 1
        &&& self.spec_training_per_myriad() <= 10000
    }

    /// Builds a configuration, rejecting structurally invalid input before
    /// any resource is sized from it.
    pub fn new(input_length: u64, training_per_myriad: u32, layers: Vec<u64>) -> (r: Result<
        Self,
        ConfigError,
    >)
        ensures
            match r {
                Ok(c) => {
                    &&& c.wf()
                    &&& c.spec_max_chars() == input_length
                    &&& c.spec_training_per_myriad() == training_per_myriad
                    &&& c.spec_layers() == layers@
                },
                Err(e) => {
                    &&& (e == ConfigError::BadInputLength <==> (input_length == 0 || input_length
                        * SLOTS_PER_CHAR > u64::MAX))
                    &&& (e == ConfigError::NoLayers <==> (input_length >= 1 && input_length
                        * SLOTS_PER_CHAR <= u64::MAX && layers@.len() == 0))
                    &&& (e == ConfigError::ZeroLayerSize <==> (input_length >= 1 && input_length
                        * SLOTS_PER_CHAR <= u64::MAX && layers@.len() >= 1 && exists|i: int|
                        0 <= i < layers@.len() && layers@[i] == 0))
                    &&& (e == ConfigError::BadTrainingFraction <==> (input_length >= 1
                        && input_length * SLOTS_PER_CHAR <= u64::MAX && layers@.len() >= 1 && (
                    forall|i: int| 0 <= i < layers@.len() ==> #[trigger] layers@[i] >= 1)
                        && training_per_myriad > 10000))
                },
            },
            (r is Err) <==> (input_length == 0 || input_length * SLOTS_PER_CHAR > u64::MAX
                || layers@.len() == 0 || (exists|i: int| 0 <= i < layers@.len() && layers@[i] == 0)
                || training_per_myriad > 10000),
    {
        if input_length == 0 || input_length > u64::MAX / SLOTS_PER_CHAR {
            assert(input_length > u64::MAX / SLOTS_PER_CHAR && input_length != 0
                ==> input_length * SLOTS_PER_CHAR > u64::MAX) by (nonlinear_arith);
            assert(input_length != 0 && input_length <= u64::MAX / SLOTS_PER_CHAR
                ==> input_length * SLOTS_PER_CHAR <= u64::MAX) by (nonlinear_arith);
            return Err(ConfigError::BadInputLength);
        }
        assert(input_length * SLOTS_PER_CHAR <= u64::MAX) by (nonlinear_arith)
            requires input_length <= u64::MAX / SLOTS_PER_CHAR;
        if layers.len() == 0 {
            return Err(ConfigError::NoLayers);
        }
        let mut i: usize = 0;
        while i < layers.len()
            invariant
                0 <= i <= layers@.len(),
                1 <= input_length,
                input_length * SLOTS_PER_CHAR <= u64::MAX,
                layers@.len() >= 1,
                forall|j: int| 0 <= j < i ==> #[trigger] layers@[j] >= 1,
            decreases layers@.len() - i,
        {
            if layers[i] == 0 {
                return Err(ConfigError::ZeroLayerSize);
            }
            i = i + 1;
        }
        if training_per_myriad > 10000 {
            return Err(ConfigError::BadTrainingFraction);
        }
        Ok(Config { input_length, training_per_myriad, layers })
    }

    /// The sizing record of every layer, in order: each layer's previous
    /// size chains to the preceding layer (or the input vector), and only the
    /// last layer has no next size.
    pub fn layers(&self) -> (r: Vec<LayerConfig>)
        requires
            self.wf(),
        ensures
            r@.len() == self.spec_layers().len(),
            forall|i: int|
                0 <= i < r@.len() ==> #[trigger] r@[i].previous_size == (if i == 0 {
                    self.spec_input_length()
                } else {
                    self.spec_layers()[i - 1] as int
                }),
            forall|i: int| 0 <= i < r@.len() ==> #[trigger] r@[i].size == self.spec_layers()[i],
            forall|i: int|
                0 <= i < r@.len() ==> #[trigger] r@[i].next_size == (if i + 1
                    < self.spec_layers().len() {
                    Some(self.spec_layers()[i + 1])
                } else {
                    None::<u64>
                }),
    {
        let mut output: Vec<LayerConfig> = Vec::new();
        let input_len = self.input_length();
        let n = self.layers.len();
        let mut i: usize = 0;
        while i < n
            invariant
                0 <= i <= n,
                n == self.spec_layers().len(),
                input_len == self.spec_input_length(),
                output@.len() == i,
                forall|j: int|
                    0 <= j < i ==> #[trigger] output@[j].previous_size == (if j == 0 {
                        self.spec_input_length()
                    } else {
                        self.spec_layers()[j - 1] as int
                    }),
                forall|j: int|
                    0 <= j < i ==> #[trigger] output@[j].size == self.spec_layers()[j],
                forall|j: int|
                    0 <= j < i ==> #[trigger] output@[j].next_size == (if j + 1
                        < self.spec_layers().len() {
                        Some(self.spec_layers()[j + 1])
                    } else {
                        None::<u64>
                    }),
            decreases n - i,
        {
            let previous_size = if i == 0 {
                input_len
            } else {
                self.layers[i - 1]
            };
            let next_size = if i + 1 < n {
                Some(self.layers[i + 1])
            } else {
                None
            };
            output.push(LayerConfig { previous_size, size: self.layers[i], next_size });
            i = i + 1;
        }
        output
    }

    /// The number of layers in the neural network.
    /// Does not count the input layer, but does count the output layer.
    pub fn num_layers(&self) -> (r: usize)
        ensures
            r == self.spec_layers().len(),
    {
        self.layers.len()
    }

    /// Length of the encoded feature vector each example occupies.
    pub fn input_length(&self) -> (r: u64)
        requires
            self.wf(),
        ensures
            r == self.spec_input_length(),
    {
        get_input_size(self.input_length)
    }

    /// The configured maximum character count of a text label.
    pub fn input_length_max_chars(&self) -> (r: u64)
        ensures
            r == self.spec_max_chars(),
    {
        self.input_length
    }

    /// The training fraction in ten-thousandths, as handed to the dataset
    /// split.
    pub fn training_per_myriad(&self) -> (r: u32)
        ensures
            r == self.spec_training_per_myriad(),
    {
        self.training_per_myriad
    }
}

} // verus!
