use trainer::input::Config;
use trainer::layer::{
    create_parameters, from_json, readable_buffer_use, to_json, BufferUse, LayerParameters,
    LayerValues, ParamsError, ReadableBuf,
};
use trainer::gpu::GpuDeviceData;

fn config() -> Config {
    Config::new(10, 5000, vec![4, 3]).unwrap()
}

#[test]
fn create_zero_fills_both_buffers() {
    let layer = LayerParameters::create(270, 4);
    assert_eq!(layer.previous_size, 270);
    assert_eq!(layer.size, 4);
    assert_eq!(layer.weights.len(), 270 * 4);
    assert_eq!(layer.biases.len(), 4);
    assert!(layer.weights.iter().all(|&w| w == 0));
    assert!(layer.biases.iter().all(|&b| b == 0));
}

#[test]
fn store_has_one_zeroed_pair_per_layer() {
    let config = config();
    let store = create_parameters(&config);
    assert_eq!(store.len(), 2);
    assert_eq!(store[0].weights.len(), 270 * 4);
    assert_eq!(store[0].biases.len(), 4);
    assert_eq!(store[1].weights.len(), 4 * 3);
    assert_eq!(store[1].biases.len(), 3);
    for layer in &store {
        assert!(layer.weights.iter().all(|&w| w == 0));
        assert!(layer.biases.iter().all(|&b| b == 0));
    }
}

#[test]
fn records_round_trip_bit_for_bit() {
    let config = Config::new(1, 5000, vec![2, 3]).unwrap();
    let mut store = create_parameters(&config);
    // Arbitrary bit patterns, including ones that are not ordinary numbers
    // as floats, must survive unchanged.
    store[0].weights[0] = 0x3F80_0000;
    store[0].weights[53] = 0xFFC0_0001;
    store[0].biases[1] = 0x0000_0001;
    store[1].weights[5] = 0xDEAD_BEEF;
    store[1].biases[2] = 0x8000_0000;

    let records = to_json(&store);
    assert_eq!(records.len(), 2);
    let rebuilt = from_json(&records, &config).unwrap();
    assert_eq!(rebuilt.len(), store.len());
    for (a, b) in store.iter().zip(rebuilt.iter()) {
        assert_eq!(a.previous_size, b.previous_size);
        assert_eq!(a.size, b.size);
        assert_eq!(a.weights, b.weights);
        assert_eq!(a.biases, b.biases);
    }
}

#[test]
fn from_json_rejects_wrong_layer_count() {
    let config = config();
    let store = create_parameters(&config);
    let mut records = to_json(&store);
    records.pop();
    assert_eq!(from_json(&records, &config).err(), Some(ParamsError::WrongLayerCount));
}

#[test]
fn from_json_rejects_wrong_buffer_length() {
    let config = config();
    let store = create_parameters(&config);
    let mut records = to_json(&store);
    records[1].biases.push(0);
    assert_eq!(from_json(&records, &config).err(), Some(ParamsError::WrongBufferLength));
}

#[test]
fn readback_strategy_follows_capability() {
    assert_eq!(readable_buffer_use(true), BufferUse::StorageMapRead);
    assert_eq!(readable_buffer_use(false), BufferUse::StorageCopySrc);

    let layer = LayerParameters::create(2, 3);
    let mappable = GpuDeviceData::new(true, 64);
    let staged = GpuDeviceData::new(false, 64);
    let direct = layer.readback_plan(&mappable);
    assert_eq!(direct.source, ReadableBuf::Primary);
    assert_eq!(direct.weights_bytes, 6 * 4);
    assert_eq!(direct.biases_bytes, 3 * 4);
    let via_staging = layer.readback_plan(&staged);
    assert_eq!(via_staging.source, ReadableBuf::Staging);
    assert_eq!(via_staging.weights_bytes, 6 * 4);
}

#[test]
fn activation_chain_sizes_and_usages() {
    let config = config();
    let gpu = GpuDeviceData::new(false, 64);
    let chain = LayerValues::create(&gpu, &config, 2);
    assert_eq!(chain.buffers.len(), 3);
    assert_eq!(chain.buffers[0].scalars, 270 * 2);
    assert_eq!(chain.buffers[0].bytes, 270 * 2 * 4);
    assert_eq!(chain.buffers[0].usage, BufferUse::Storage);
    assert_eq!(chain.buffers[1].scalars, 4 * 2);
    assert_eq!(chain.buffers[1].usage, BufferUse::Storage);
    assert_eq!(chain.buffers[2].scalars, 3 * 2);
    assert_eq!(chain.buffers[2].usage, BufferUse::StorageCopySrc);
    assert_eq!(chain.size_of_last_layer, 3 * 2 * 4);
    assert!(chain.input_contents.iter().all(|&s| s == 0));

    let output = chain.read_output(&gpu);
    assert_eq!(output.source, ReadableBuf::Staging);
    assert_eq!(output.buffer_index, 2);
    assert_eq!(output.bytes, 3 * 2 * 4);
}

#[test]
fn activation_chain_lays_inputs_contiguously() {
    let config = Config::new(1, 5000, vec![3]).unwrap();
    let gpu = GpuDeviceData::new(true, 64);
    let first: Vec<u32> = (0..27).collect();
    let second: Vec<u32> = (100..127).collect();
    let inputs = vec![first.clone(), second.clone()];
    let chain = LayerValues::create_with_input(&gpu, &config, 2, &inputs);
    assert_eq!(chain.input_contents.len(), 54);
    assert_eq!(&chain.input_contents[..27], &first[..]);
    assert_eq!(&chain.input_contents[27..], &second[..]);
    assert_eq!(chain.buffers[1].usage, BufferUse::StorageMapRead);
}
