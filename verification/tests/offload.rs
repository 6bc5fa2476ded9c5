use hivebear::offload::{calculate_offload, calculate_offload_with_mesh, GpuInfo, HardwareProfile, MemoryInfo};

fn profile_with_vram(ram_gb: u64, vram_gb: u64) -> HardwareProfile {
    let gb = 1024 * 1024 * 1024;
    HardwareProfile {
        memory: MemoryInfo {
            total_bytes: ram_gb * gb,
            available_bytes: (ram_gb as f64 * 0.8) as u64 * gb,
        },
        gpus: if vram_gb > 0 {
            vec![GpuInfo {
                name: "Test GPU".into(),
                vram_bytes: vram_gb * gb,
            }]
        } else {
            vec![]
        },
    }
}

#[test]
fn test_no_gpu_all_cpu() {
    let profile = profile_with_vram(16, 0);
    let config = calculate_offload(4 * 1024 * 1024 * 1024, 32, &profile, 4096);
    assert_eq!(config.gpu_layers, Some(0));
    assert_eq!(config.cpu_layers, Some(32));
    assert!(!config.disk_mmap);
}

#[test]
fn test_model_fits_in_vram() {
    let profile = profile_with_vram(16, 8);
    // 4GB model, 32 layers, 8GB VRAM — should fit entirely on GPU
    let config = calculate_offload(4 * 1024 * 1024 * 1024, 32, &profile, 4096);
    assert_eq!(config.gpu_layers, Some(32));
    assert_eq!(config.cpu_layers, Some(0));
    assert!(!config.disk_mmap);
}

#[test]
fn test_model_split_gpu_cpu() {
    let profile = profile_with_vram(16, 4);
    // 8GB model, 32 layers, 4GB VRAM — should split
    let config = calculate_offload(8 * 1024 * 1024 * 1024, 32, &profile, 4096);
    assert!(config.gpu_layers.unwrap() > 0);
    assert!(config.gpu_layers.unwrap() < 32);
    assert!(config.cpu_layers.unwrap() > 0);
    assert!(!config.disk_mmap);
}

#[test]
fn test_huge_model_needs_disk() {
    let profile = profile_with_vram(8, 4);
    // 100GB model, 80 layers, 4GB VRAM + 8GB RAM — needs disk mmap
    let config = calculate_offload(100 * 1024 * 1024 * 1024, 80, &profile, 4096);
    assert!(config.disk_mmap);
}

#[test]
fn offload_exact_split_values() {
    // 8 GiB model, 32 layers of 256 MiB; 4 GiB VRAM minus 1 GiB KV reserve
    // holds 12 layers; 85% of 12 GiB available RAM holds the other 20.
    let profile = profile_with_vram(16, 4);
    let config = calculate_offload(8 * 1024 * 1024 * 1024, 32, &profile, 4096);
    assert_eq!(config.gpu_layers, Some(12));
    assert_eq!(config.cpu_layers, Some(20));
    assert_eq!(config.mesh_layers, None);
    assert!(!config.auto);
}

#[test]
fn offload_spills_to_mesh_before_disk() {
    let gb: u64 = 1024 * 1024 * 1024;
    let profile = HardwareProfile {
        memory: MemoryInfo { total_bytes: 4 * gb, available_bytes: 2 * gb },
        gpus: vec![],
    };
    // 40 layers of 1 GiB: RAM budget 1.7 GiB holds 1 layer, mesh holds 10.
    let config = calculate_offload_with_mesh(40 * gb, 40, &profile, 0, Some(10 * gb));
    assert_eq!(config.gpu_layers, Some(0));
    assert_eq!(config.cpu_layers, Some(1));
    assert_eq!(config.mesh_layers, Some(10));
    assert!(config.disk_mmap);
    let all = calculate_offload_with_mesh(40 * gb, 40, &profile, 0, Some(100 * gb));
    assert_eq!(all.mesh_layers, Some(39));
    assert!(!all.disk_mmap);
}

#[test]
fn offload_zero_layers_and_sum_of_gpus() {
    let gb: u64 = 1024 * 1024 * 1024;
    let profile = HardwareProfile {
        memory: MemoryInfo { total_bytes: 8 * gb, available_bytes: 8 * gb },
        gpus: vec![
            GpuInfo { name: "a".into(), vram_bytes: 2 * gb },
            GpuInfo { name: "b".into(), vram_bytes: 2 * gb },
        ],
    };
    let config = calculate_offload(gb, 0, &profile, 0);
    assert_eq!(config.gpu_layers, Some(0));
    assert_eq!(config.cpu_layers, Some(0));
    assert!(!config.disk_mmap);
    // 4 GiB of VRAM across two GPUs holds all 4 layers of a 4 GiB model.
    let config = calculate_offload(4 * gb, 4, &profile, 0);
    assert_eq!(config.gpu_layers, Some(4));
}

#[test]
fn offload_without_gpu_overflows_ram_to_disk() {
    // 6 GiB available RAM, 85% holds 4 layers of 1.25 GiB; the other 76 go
    // to disk mmap.
    let profile = profile_with_vram(8, 0);
    let config = calculate_offload(100 * 1024 * 1024 * 1024, 80, &profile, 4096);
    assert_eq!(config.gpu_layers, Some(0));
    assert_eq!(config.cpu_layers, Some(4));
    assert_eq!(config.mesh_layers, None);
    assert!(config.disk_mmap);
}
