//! Hardware descriptors and the memory budget resolver.
//!
//! A `SystemSpecs` value describes one machine. `resolve_pools` turns it
//! into the ordered list of candidate memory pools that a model may be
//! placed in, each tagged with the run mode that pool implies.

use vstd::prelude::*;

verus! {

/// Upper bound on any memory size in megabytes that the engine accepts
/// (one exabyte). Keeps every derived product inside `u64`.
pub const RAM_MB_LIMIT: u64 = 1_000_000_000_000;

/// Percentage of total system memory treated as usable for model weights
/// when the model shares memory with the OS (unified memory or CPU-only),
/// reserving headroom for the OS and other applications.
pub const USABLE_RAM_PCT: u64 = 75;

/// Which GPU compute backend the machine exposes, if any.
#[derive(Clone, Copy, Debug, PartialEq, Eq, Structural)]
pub enum GpuBackend {
    NoGpu,
    Cuda,
    Metal,
    Rocm,
    Vulkan,
    Cpu,
}

impl GpuBackend {
    /// Whether this backend can actually drive a GPU.
    pub open spec fn spec_is_gpu(&self) -> bool {
        match self {
            GpuBackend::Cuda | GpuBackend::Metal | GpuBackend::Rocm | GpuBackend::Vulkan => true,
            GpuBackend::NoGpu | GpuBackend::Cpu => false,
        }
    }

    /// Whether this backend addresses a dedicated (discrete) GPU memory
    /// pool rather than memory shared with the CPU.
    pub open spec fn spec_is_discrete(&self) -> bool {
        match self {
            GpuBackend::Cuda | GpuBackend::Rocm | GpuBackend::Vulkan => true,
            _ => false,
        }
    }

    #[verifier::when_used_as_spec(spec_is_gpu)]
    pub fn is_gpu(&self) -> (r: bool)
        ensures
            r == self.spec_is_gpu(),
    {
        match self {
            GpuBackend::Cuda | GpuBackend::Metal | GpuBackend::Rocm | GpuBackend::Vulkan => true,
            GpuBackend::NoGpu | GpuBackend::Cpu => false,
        }
    }

    #[verifier::when_used_as_spec(spec_is_discrete)]
    pub fn is_discrete(&self) -> (r: bool)
        ensures
            r == self.spec_is_discrete(),
    {
        match self {
            GpuBackend::Cuda | GpuBackend::Rocm | GpuBackend::Vulkan => true,
            _ => false,
        }
    }
}

/// Immutable description of one machine, supplied by an external prober.
/// All sizes are in megabytes.
pub struct SystemSpecs {
    pub cpu_name: String,
    pub cpu_cores: u64,
    pub total_ram_mb: u64,
    pub gpu_name: Option<String>,
    pub gpu_backend: GpuBackend,
    /// Present only when a discrete/dedicated GPU memory pool exists.
    pub gpu_vram_mb: Option<u64>,
    /// True when CPU and GPU share one physical memory pool; the dedicated
    /// pool size is then advisory, not a separate budget.
    pub unified_memory: bool,
}

/// Mathematical model of a `SystemSpecs` value.
#[verifier::ext_equal]
pub struct SystemSpecsView {
    pub cpu_name: Seq<char>,
    pub cpu_cores: u64,
    pub total_ram_mb: u64,
    pub gpu_name: Option<Seq<char>>,
    pub gpu_backend: GpuBackend,
    pub gpu_vram_mb: Option<u64>,
    pub unified_memory: bool,
}

impl View for SystemSpecs {
    type V = SystemSpecsView;

    open spec fn view(&self) -> SystemSpecsView {
        SystemSpecsView {
            cpu_name: self.cpu_name@,
            cpu_cores: self.cpu_cores,
            total_ram_mb: self.total_ram_mb,
            gpu_name: match self.gpu_name {
                Some(n) => Some(n@),
                None => None,
            },
            gpu_backend: self.gpu_backend,
            gpu_vram_mb: self.gpu_vram_mb,
            unified_memory: self.unified_memory,
        }
    }
}

impl SystemSpecs {
    /// Well-formedness: at least one CPU core, and every size small enough
    /// that downstream arithmetic stays in `u64`.
    pub open spec fn wf(&self) -> bool {
        &&& self.cpu_cores >= 1
        &&& self.total_ram_mb <= RAM_MB_LIMIT
        &&& (self.gpu_vram_mb matches Some(v) ==> v <= RAM_MB_LIMIT)
    }
}

/// The run mode a memory pool implies if a model is placed in it.
#[derive(Clone, Copy, Debug, PartialEq, Eq, Structural)]
pub enum PoolTag {
    Gpu,
    CpuOffload,
    CpuOnly,
}

/// One candidate memory budget.
#[derive(Clone, Copy, Debug, PartialEq, Eq, Structural)]
pub struct MemoryPool {
    pub size_mb: u64,
    pub tag: PoolTag,
}

/// The pools `resolve_pools` produces, in preference order.
pub open spec fn spec_resolve_pools(specs: SystemSpecsView) -> Seq<MemoryPool> {
    if specs.gpu_vram_mb is Some && !specs.unified_memory {
        let v = specs.gpu_vram_mb->0;
        seq![
            MemoryPool { size_mb: v, tag: PoolTag::Gpu },
            MemoryPool { size_mb: (v + specs.total_ram_mb) as u64, tag: PoolTag::CpuOffload },
        ]
    } else {
        let usable = (specs.total_ram_mb * USABLE_RAM_PCT / 100) as u64;
        if specs.unified_memory && specs.gpu_backend.spec_is_gpu() {
            seq![MemoryPool { size_mb: usable, tag: PoolTag::Gpu }]
        } else {
            seq![MemoryPool { size_mb: usable, tag: PoolTag::CpuOnly }]
        }
    }
}

/// Resolve the ordered set of candidate memory pools for a machine.
///
/// A machine with a dedicated, non-unified GPU pool may try the GPU memory
/// alone (run fully on the GPU) and then GPU plus system memory (split the
/// model). A unified-memory machine offers a single pool of a fixed
/// fraction of system memory, GPU-tagged when a GPU backend is present.
/// Any other machine offers the same fraction of system memory, CPU-only.
/// Never fails: a machine with zero memory yields a pool of size zero.
pub fn resolve_pools(specs: &SystemSpecs) -> (pools: Vec<MemoryPool>)
    requires
        specs.wf(),
    ensures
        pools@ == spec_resolve_pools(specs@),
        pools@.len() >= 1,
        forall|j: int| 0 <= j < pools@.len() ==> (#[trigger] pools@[j]).size_mb <= 2 * RAM_MB_LIMIT,
{
    let mut pools: Vec<MemoryPool> = Vec::new();
    match specs.gpu_vram_mb {
        Some(v) if !specs.unified_memory => {
            pools.push(MemoryPool { size_mb: v, tag: PoolTag::Gpu });
            pools.push(MemoryPool { size_mb: v + specs.total_ram_mb, tag: PoolTag::CpuOffload });
        }
        _ => {
            let usable = specs.total_ram_mb * USABLE_RAM_PCT / 100;
            let tag = if specs.unified_memory && specs.gpu_backend.is_gpu() {
                PoolTag::Gpu
            } else {
                PoolTag::CpuOnly
            };
            pools.push(MemoryPool { size_mb: usable, tag });
        }
    }
    assert(pools@ =~= spec_resolve_pools(specs@));
    pools
}

} // verus!
