use trainer::gpu::{wants_mappable_primary, DeviceKind, GpuDeviceData};
use trainer::input::{Config, ConfigError};
use trainer::misc::{ceil_div, floor_div, size_of, IterPow2};

#[test]
fn size_of_scalar_is_four_bytes() {
    assert_eq!(size_of::<u32>(), 4);
    assert_eq!(size_of::<u8>(), 1);
    assert_eq!(size_of::<u64>(), 8);
}

#[test]
fn ceil_div_rounds_up() {
    assert_eq!(ceil_div(0, 32), 0);
    assert_eq!(ceil_div(1, 32), 1);
    assert_eq!(ceil_div(32, 32), 1);
    assert_eq!(ceil_div(33, 32), 2);
    assert_eq!(ceil_div(3, 2), 2);
    assert_eq!(ceil_div(u32::MAX, 1), u32::MAX);
}

#[test]
fn floor_div_rounds_down() {
    assert_eq!(floor_div(0, 3), 0);
    assert_eq!(floor_div(7, 2), 3);
    assert_eq!(floor_div(8, 2), 4);
    assert_eq!(floor_div(37, 4), 9);
}

#[test]
fn iter_pow2_yields_powers_below_target() {
    let mut it = IterPow2::range(37);
    let mut got: Vec<usize> = Vec::new();
    while let Some(v) = it.next() {
        got.push(v);
    }
    assert_eq!(got, vec![1, 2, 4, 8, 16, 32]);

    let mut empty = IterPow2::range(1);
    assert_eq!(empty.next(), None);
}

#[test]
fn mappable_primary_only_for_host_reachable_devices() {
    assert!(wants_mappable_primary(DeviceKind::Cpu));
    assert!(wants_mappable_primary(DeviceKind::IntegratedGpu));
    assert!(!wants_mappable_primary(DeviceKind::DiscreteGpu));
    assert!(!wants_mappable_primary(DeviceKind::VirtualGpu));
    assert!(!wants_mappable_primary(DeviceKind::Other));
}

#[test]
fn gpu_context_records_capabilities() {
    let gpu = GpuDeviceData::new(true, 256);
    assert!(gpu.mappable_primary);
    assert_eq!(gpu.max_workgroup_size_x, 256);
}

#[test]
fn config_validation() {
    assert!(Config::new(10, 5000, vec![4, 3]).is_ok());
    assert_eq!(
        Config::new(0, 5000, vec![4, 3]).err(),
        Some(ConfigError::BadInputLength)
    );
    assert_eq!(Config::new(10, 5000, vec![]).err(), Some(ConfigError::NoLayers));
    assert_eq!(
        Config::new(10, 5000, vec![4, 0]).err(),
        Some(ConfigError::ZeroLayerSize)
    );
    assert_eq!(
        Config::new(10, 10001, vec![4, 3]).err(),
        Some(ConfigError::BadTrainingFraction)
    );
    // An input length so large that the feature vector cannot be sized is
    // rejected up front.
    assert_eq!(
        Config::new(u64::MAX, 5000, vec![4, 3]).err(),
        Some(ConfigError::BadInputLength)
    );
}

#[test]
fn config_layers_chain_sizes() {
    let config = Config::new(10, 5000, vec![4, 3]).unwrap();
    assert_eq!(config.input_length(), 270);
    assert_eq!(config.input_length_max_chars(), 10);
    assert_eq!(config.num_layers(), 2);
    assert_eq!(config.training_per_myriad(), 5000);

    let layers = config.layers();
    assert_eq!(layers.len(), 2);
    assert_eq!(layers[0].previous_size, 270);
    assert_eq!(layers[0].size, 4);
    assert_eq!(layers[0].next_size, Some(3));
    assert_eq!(layers[1].previous_size, 4);
    assert_eq!(layers[1].size, 3);
    assert_eq!(layers[1].next_size, None);
}
