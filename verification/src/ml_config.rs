//! Settings of the machine-learning stage that hold no fractional values.

use vstd::prelude::*;

verus! {

/// Colormap used to visualize depth maps.
#[derive(Debug, Clone, Copy, PartialEq, Eq, Structural)]
pub enum DepthColormap {
    Turbo,
    Viridis,
    Grayscale,
    Plasma,
    Inferno,
}

impl Default for DepthColormap {
    fn default() -> (c: DepthColormap)
        ensures
            c == DepthColormap::Turbo,
    {
        DepthColormap::Turbo
    }
}

/// Where the models run.
#[derive(Debug, Clone, Copy, PartialEq, Eq, Structural)]
pub enum ExecutionMode {
    CpuOnly,
    GpuSequential,
    GpuParallel,
}

impl Default for ExecutionMode {
    fn default() -> (m: ExecutionMode)
        ensures
            m == ExecutionMode::GpuSequential,
    {
        ExecutionMode::GpuSequential
    }
}

/// Execution configuration: the mode and the GPU device index.
#[derive(Debug, Clone, Copy, PartialEq, Eq, Structural)]
pub struct ExecutionConfig {
    pub mode: ExecutionMode,
    pub gpu_device: usize,
}

impl Default for ExecutionConfig {
    fn default() -> (c: ExecutionConfig)
        ensures
            c.mode == ExecutionMode::GpuSequential,
            c.gpu_device == 0,
    {
        ExecutionConfig { mode: ExecutionMode::GpuSequential, gpu_device: 0 }
    }
}

} // verus!
