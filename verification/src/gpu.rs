//! The host's view of the compute device: the capabilities detected once at
//! start-up and the shader components shared by every pipeline.
//!
//! Acquiring the adapter and device is the runner's job; it hands the
//! detected capabilities to [`GpuDeviceData::new`].

use vstd::prelude::*;
use crate::shaders::ShaderComponents;

verus! {

/// The class of compute device the adapter reported.
#[derive(Debug, PartialEq, Eq, Structural, Clone, Copy)]
pub enum DeviceKind {
    Cpu,
    IntegratedGpu,
    DiscreteGpu,
    VirtualGpu,
    Other,
}

/// Whether the device should be opened with host-mappable storage buffers:
/// only devices whose memory the host can reach directly are asked for the
/// capability.
pub fn wants_mappable_primary(kind: DeviceKind) -> (r: bool)
    ensures
        r == (kind == DeviceKind::Cpu || kind == DeviceKind::IntegratedGpu),
{
    kind == DeviceKind::Cpu || kind == DeviceKind::IntegratedGpu
}

/// Everything of the device the engine consults after start-up: the two
/// capabilities that gate buffer readback and workgroup sizing, and the
/// shader components compiled once per context.
pub struct GpuDeviceData {
    /// Whether storage buffers can also be mapped for direct host reads.
    pub mappable_primary: bool,
    /// The device's maximum workgroup width.
    pub max_workgroup_size_x: u32,
    /// The bind-group layouts and shader modules shared by all pipelines.
    pub shader_components: ShaderComponents,
}

impl GpuDeviceData {
    /// A usable context: a device must allow at least one worker per
    /// workgroup.
    pub open spec fn wf(self) -> bool {
        &&& self.max_workgroup_size_x >= 1
        &&& self.shader_components.wf()
    }

    /// Records the detected capabilities and compiles the shared shader
    /// components, once per context.
    pub fn new(mappable_primary: bool, max_workgroup_size_x: u32) -> (r: Self)
        requires
            max_workgroup_size_x >= 1,
        ensures
            r.wf(),
            r.mappable_primary == mappable_primary,
            r.max_workgroup_size_x == max_workgroup_size_x,
    {
        GpuDeviceData {
            mappable_primary,
            max_workgroup_size_x,
            shader_components: ShaderComponents::init(),
        }
    }
}

} // verus!
