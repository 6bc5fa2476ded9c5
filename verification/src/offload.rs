//! Layer offload planning: how many of a model's layers go to GPU VRAM, to
//! CPU RAM, to mesh peers, and whether the rest must be memory-mapped from
//! disk.
use vstd::prelude::*;

use crate::types::OffloadConfig;

verus! {

/// A GPU of the machine, as offload planning sees it.
#[derive(Clone, Debug)]
pub struct GpuInfo {
    pub name: String,
    pub vram_bytes: u64,
}

/// System memory of the machine.
#[derive(Clone, Copy, Debug)]
pub struct MemoryInfo {
    pub total_bytes: u64,
    pub available_bytes: u64,
}

/// The hardware resources that offload planning reads.
#[derive(Clone, Debug)]
pub struct HardwareProfile {
    pub memory: MemoryInfo,
    pub gpus: Vec<GpuInfo>,
}

/// Total VRAM of the GPUs.
pub open spec fn total_vram(gpus: Seq<GpuInfo>) -> nat
    decreases gpus.len(),
{
    if gpus.len() == 0 {
        0
    } else {
        total_vram(gpus.drop_last()) + gpus.last().vram_bytes as nat
    }
}

/// The share of available RAM that inference may use: 85%, rounded down.
pub open spec fn ram_budget(available: u64) -> nat {
    (available as nat) * 17 / 20
}

/// KV-cache reserve for a context length: 256 KiB per token.
pub open spec fn kv_overhead(context_length: u32) -> nat {
    (context_length as nat) * 256 * 1024
}

/// `a - b`, or 0 when `b > a`.
pub open spec fn sat_sub(a: nat, b: nat) -> nat {
    if a >= b {
        (a - b) as nat
    } else {
        0
    }
}

/// Approximate bytes per layer; the whole model when it has no layers.
pub open spec fn bytes_per_layer(model_size: u64, num_layers: u32) -> nat {
    if num_layers == 0 {
        model_size as nat
    } else {
        (model_size / (num_layers as u64)) as nat
    }
}

/// `n` taken modulo 2^32, as a `u64 as u32` cast does.
pub open spec fn low32(n: nat) -> nat {
    n % 0x1_0000_0000
}

/// The offload plan for a model of `model_size` bytes with `num_layers`
/// layers, on a machine with `vram` bytes of VRAM and `available` bytes of
/// available RAM, at the given context length and with optional mesh
/// capacity.
///
/// The GPU takes as many layers as fit in VRAM beyond the KV-cache reserve
/// (none when there is no VRAM), the CPU as many of the rest as fit in 85% of
/// available RAM, mesh
/// peers as many of what remains as fit in their capacity, and disk mmap is
/// flagged when layers are still left over. A layer count that fits is
/// reduced modulo 2^32 before it is compared for the CPU and mesh shares.
pub open spec fn offload_plan(
    model_size: u64,
    num_layers: u32,
    vram: nat,
    available: u64,
    context_length: u32,
    mesh_capacity: Option<u64>,
) -> OffloadConfig {
    {
        let usable_vram = sat_sub(vram, kv_overhead(context_length));
        let bpl = bytes_per_layer(model_size, num_layers);
        let gpu: nat = if vram == 0 {
            0
        } else if bpl == 0 {
            num_layers as nat
        } else {
            vstd::math::min((usable_vram / bpl) as int, num_layers as int) as nat
        };
        let rem1 = (num_layers - gpu) as nat;
        let cpu: nat = if bpl == 0 {
            rem1
        } else {
            vstd::math::min(low32(ram_budget(available) / bpl) as int, rem1 as int) as nat
        };
        let rem2 = (rem1 - cpu) as nat;
        let mesh: nat = if rem2 > 0 {
            match mesh_capacity {
                Some(cap) => if bpl == 0 {
                    rem2
                } else {
                    vstd::math::min(low32((cap as nat) / bpl) as int, rem2 as int) as nat
                },
                None => 0,
            }
        } else {
            0
        };
        let rem3 = (rem2 - mesh) as nat;
        OffloadConfig {
            gpu_layers: Some(gpu as u32),
            cpu_layers: Some(cpu as u32),
            disk_mmap: rem3 > 0,
            mesh_layers: if mesh > 0 {
                Some(mesh as u32)
            } else {
                None
            },
            auto: false,
        }
    }
}

/// Sum of the GPUs' VRAM.
pub(crate) fn sum_vram(gpus: &Vec<GpuInfo>) -> (r: u64)
    requires
        total_vram(gpus@) <= u64::MAX,
    ensures
        r == total_vram(gpus@),
{
    let mut total: u64 = 0;
    let mut i: usize = 0;
    while i < gpus.len()
        invariant
            i <= gpus@.len(),
            total == total_vram(gpus@.take(i as int)),
            total_vram(gpus@) <= u64::MAX,
        decreases gpus@.len() - i,
    {
        proof {
            assert(gpus@.take(i + 1).drop_last() =~= gpus@.take(i as int));
            lemma_total_vram_prefix(gpus@, i + 1);
        }
        total = total + gpus[i].vram_bytes;
        i = i + 1;
    }
    proof {
        assert(gpus@.take(gpus@.len() as int) =~= gpus@);
    }
    total
}

proof fn lemma_total_vram_prefix(gpus: Seq<GpuInfo>, k: int)
    requires
        0 <= k <= gpus.len(),
    ensures
        total_vram(gpus.take(k)) <= total_vram(gpus),
    decreases gpus.len() - k,
{
    if k < gpus.len() {
        lemma_total_vram_prefix(gpus, k + 1);
        assert(gpus.take(k + 1).drop_last() =~= gpus.take(k));
    } else {
        assert(gpus.take(k) =~= gpus);
    }
}

/// Plan layer offloading for a model on this hardware, without mesh peers.
pub fn calculate_offload(
    model_size_bytes: u64,
    num_layers: u32,
    profile: &HardwareProfile,
    context_length: u32,
) -> (c: OffloadConfig)
    requires
        total_vram(profile.gpus@) <= u64::MAX,
    ensures
        c == offload_plan(
            model_size_bytes,
            num_layers,
            total_vram(profile.gpus@),
            profile.memory.available_bytes,
            context_length,
            None,
        ),
{
    calculate_offload_with_mesh(model_size_bytes, num_layers, profile, context_length, None)
}

/// Plan layer offloading for a model on this hardware, spilling layers that
/// do not fit locally to mesh peers before falling back to disk mmap.
pub fn calculate_offload_with_mesh(
    model_size_bytes: u64,
    num_layers: u32,
    profile: &HardwareProfile,
    context_length: u32,
    mesh_capacity_bytes: Option<u64>,
) -> (c: OffloadConfig)
    requires
        total_vram(profile.gpus@) <= u64::MAX,
    ensures
        c == offload_plan(
            model_size_bytes,
            num_layers,
            total_vram(profile.gpus@),
            profile.memory.available_bytes,
            context_length,
            mesh_capacity_bytes,
        ),
{
    let vram = sum_vram(&profile.gpus);
    let avail = profile.memory.available_bytes;
    let available_ram: u64 = avail / 20 * 17 + (avail % 20) * 17 / 20;
    proof {
        assert(available_ram == ram_budget(avail)) by (nonlinear_arith)
            requires
                available_ram == avail / 20 * 17 + (avail % 20) * 17 / 20,
        ;
    }
    let kv: u64 = (context_length as u64) * 256 * 1024;
    let usable_vram: u64 = if vram >= kv {
        vram - kv
    } else {
        0
    };
    let bpl: u64 = if num_layers == 0 {
        model_size_bytes
    } else {
        model_size_bytes / (num_layers as u64)
    };
    let gpu_layers: u32 = if vram == 0 {
        0
    } else if bpl == 0 {
        num_layers
    } else {
        let fit = usable_vram / bpl;
        if fit < num_layers as u64 {
            fit as u32
        } else {
            num_layers
        }
    };
    let mut remaining: u32 = num_layers - gpu_layers;
    let cpu_layers: u32 = if bpl == 0 {
        remaining
    } else {
        let fit = ((available_ram / bpl) % 0x1_0000_0000) as u32;
        if fit < remaining {
            fit
        } else {
            remaining
        }
    };
    remaining = remaining - cpu_layers;
    let mesh_layers: Option<u32> = if remaining > 0 {
        match mesh_capacity_bytes {
            Some(cap) => {
                let fit: u32 = if bpl == 0 {
                    remaining
                } else {
                    ((cap / bpl) % 0x1_0000_0000) as u32
                };
                let assigned = if fit < remaining {
                    fit
                } else {
                    remaining
                };
                remaining = remaining - assigned;
                if assigned > 0 {
                    Some(assigned)
                } else {
                    None
                }
            },
            None => None,
        }
    } else {
        None
    };
    OffloadConfig {
        gpu_layers: Some(gpu_layers),
        cpu_layers: Some(cpu_layers),
        disk_mmap: remaining > 0,
        mesh_layers,
        auto: false,
    }
}

/// Every plan places each layer at most once, and flags disk mmap exactly
/// when GPU, CPU and mesh together hold fewer layers than the model has.
pub proof fn offload_accounts_for_every_layer(
    model_size: u64,
    num_layers: u32,
    vram: nat,
    available: u64,
    context_length: u32,
    mesh_capacity: Option<u64>,
)
    ensures
        ({
            let c = offload_plan(
                model_size,
                num_layers,
                vram,
                available,
                context_length,
                mesh_capacity,
            );
            let placed = c.gpu_layers.unwrap() + c.cpu_layers.unwrap() + match c.mesh_layers {
                Some(m) => m as int,
                None => 0,
            };
            &&& placed <= num_layers
            &&& c.disk_mmap <==> placed < num_layers
        }),
{
}

/// Without VRAM no layer is placed on the GPU: the plan starts with CPU RAM,
/// then mesh peers, then disk mmap.
pub proof fn offload_without_gpu_starts_in_ram(
    model_size: u64,
    num_layers: u32,
    available: u64,
    context_length: u32,
    mesh_capacity: Option<u64>,
)
    ensures
        offload_plan(model_size, num_layers, 0, available, context_length, mesh_capacity).gpu_layers
            == Some(0u32),
{
}

/// The GPU takes as many whole layers as fit in VRAM beyond the KV-cache
/// reserve of 256 KiB per token, and the CPU as many of the rest as fit in
/// 85% of available RAM: each share fits its budget, and one more layer
/// would not fit unless none is left. (Layers take at least a byte; the
/// CPU's count of layers that fit is taken to fit in 32 bits.)
pub proof fn local_shares_fill_their_budgets(
    model_size: u64,
    num_layers: u32,
    vram: nat,
    available: u64,
    context_length: u32,
    mesh_capacity: Option<u64>,
)
    requires
        0 < num_layers <= model_size,
        (available as int) * 17 / 20 / (bytes_per_layer(model_size, num_layers) as int) < 0x1_0000_0000,
    ensures
        ({
            let c = offload_plan(model_size, num_layers, vram, available, context_length, mesh_capacity);
            let bpl: int = (model_size / (num_layers as u64)) as int;
            let gpu: int = c.gpu_layers.unwrap() as int;
            let cpu: int = c.cpu_layers.unwrap() as int;
            let vram_budget: int = vram - (context_length as int) * 256 * 1024;
            let ram_budget: int = (available as int) * 17 / 20;
            &&& gpu * bpl <= vram_budget || gpu == 0
            &&& vram > 0 && (gpu + 1) * bpl <= vram_budget ==> gpu == num_layers
            &&& vram == 0 ==> gpu == 0
            &&& cpu * bpl <= ram_budget
            &&& (cpu + 1) * bpl <= ram_budget ==> gpu + cpu == num_layers
        }),
{
    let n = num_layers as int;
    let m = model_size as int;
    let bpl = bytes_per_layer(model_size, num_layers) as int;
    assert(bpl == m / n);
    assert(bpl >= 1) by (nonlinear_arith)
        requires
            bpl == m / n,
            0 < n <= m,
    ;
    let usable = sat_sub(vram, kv_overhead(context_length)) as int;
    let q = usable / bpl;
    assert(q * bpl <= usable && (q + 1) * bpl > usable) by (nonlinear_arith)
        requires
            bpl >= 1,
            q == usable / bpl,
            usable >= 0,
    ;
    let budget = ram_budget(available) as int;
    assert(budget == (available as int) * 17 / 20);
    let rq = budget / bpl;
    assert(rq * bpl <= budget && (rq + 1) * bpl > budget) by (nonlinear_arith)
        requires
            bpl >= 1,
            rq == budget / bpl,
            budget >= 0,
    ;
    assert(low32(rq as nat) == rq);
    let c = offload_plan(model_size, num_layers, vram, available, context_length, mesh_capacity);
    let gpu = c.gpu_layers.unwrap() as int;
    let cpu = c.cpu_layers.unwrap() as int;
    assert(gpu <= q || vram == 0);
    assert(gpu * bpl <= q * bpl || vram == 0) by (nonlinear_arith)
        requires
            gpu <= q || vram == 0,
            bpl >= 1,
            gpu >= 0,
    ;
    assert(cpu <= rq);
    assert(cpu * bpl <= rq * bpl) by (nonlinear_arith)
        requires
            cpu <= rq,
            bpl >= 1,
            cpu >= 0,
    ;
    if vram > 0 && (gpu + 1) * bpl <= (vram - (context_length as int) * 256 * 1024) {
        assert(gpu < q) by (nonlinear_arith)
            requires
                (gpu + 1) * bpl <= usable,
                (q + 1) * bpl > usable,
                bpl >= 1,
        ;
    }
    if (cpu + 1) * bpl <= budget {
        assert(cpu < rq) by (nonlinear_arith)
            requires
                (cpu + 1) * bpl <= budget,
                (rq + 1) * bpl > budget,
                bpl >= 1,
        ;
    }
}

/// Layers left over after the GPU and CPU shares go to mesh peers, as many
/// as their capacity holds (a layer count that fits is reduced modulo 2^32),
/// whatever the machine's VRAM; only what the mesh cannot hold is left to
/// disk mmap.
pub proof fn mesh_takes_what_remains(
    model_size: u64,
    num_layers: u32,
    vram: nat,
    available: u64,
    context_length: u32,
    cap: u64,
)
    ensures
        ({
            let c = offload_plan(model_size, num_layers, vram, available, context_length, Some(cap));
            let bpl = bytes_per_layer(model_size, num_layers);
            let rem: int = num_layers - c.gpu_layers.unwrap() - c.cpu_layers.unwrap();
            let fits: int = if bpl == 0 {
                rem
            } else {
                ((cap as nat) / bpl) as int % 0x1_0000_0000
            };
            let share: int = if fits < rem {
                fits
            } else {
                rem
            };
            &&& 0 <= rem
            &&& c.mesh_layers == (if share > 0 {
                Some(share as u32)
            } else {
                None::<u32>
            })
            &&& c.disk_mmap == (share < rem)
        }),
{
}

/// When mesh peers can hold the whole model, nothing is left to disk: GPU,
/// CPU and mesh together hold every layer. (Each layer is taken to be at
/// least a byte, and the mesh's layer count to fit in 32 bits.)
pub proof fn mesh_holding_the_model_avoids_disk(
    model_size: u64,
    num_layers: u32,
    vram: nat,
    available: u64,
    context_length: u32,
    cap: u64,
)
    requires
        0 < num_layers <= model_size <= cap,
        (cap as nat) / bytes_per_layer(model_size, num_layers) < 0x1_0000_0000,
    ensures
        ({
            let c = offload_plan(model_size, num_layers, vram, available, context_length, Some(cap));
            &&& !c.disk_mmap
            &&& c.gpu_layers.unwrap() + c.cpu_layers.unwrap() + match c.mesh_layers {
                Some(m) => m as int,
                None => 0,
            } == num_layers
        }),
{
    let bpl = bytes_per_layer(model_size, num_layers);
    let n = num_layers as nat;
    let m = model_size as nat;
    assert(bpl == m / n);
    assert(bpl >= 1 && bpl * n <= m) by (nonlinear_arith)
        requires
            bpl == m / n,
            0 < n <= m,
    ;
    assert((cap as nat) / bpl >= n) by (nonlinear_arith)
        requires
            bpl >= 1,
            bpl * n <= m,
            m <= cap,
    ;
    mesh_takes_what_remains(model_size, num_layers, vram, available, context_length, cap);
    offload_accounts_for_every_layer(model_size, num_layers, vram, available, context_length, Some(cap));
}

/// Without mesh capacity, no layer is ever sent to mesh peers.
pub proof fn offload_without_mesh_uses_no_peers(
    model_size: u64,
    num_layers: u32,
    vram: nat,
    available: u64,
    context_length: u32,
)
    ensures
        offload_plan(model_size, num_layers, vram, available, context_length, None).mesh_layers
            is None,
{
}

} // verus!
