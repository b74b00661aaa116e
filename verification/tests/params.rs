use llama_tune::hardware::{GpuInfo, GpuVendor, HardwareInfo};
use llama_tune::params::{
    compute, compute_described, compute_gpu_layers, LlamaCppParams, ModelRequirements, GB,
};

fn hw(vram_gb: u64, dedicated: bool, ram_gb: u64) -> HardwareInfo {
    let gpus = if vram_gb > 0 {
        vec![GpuInfo {
            name: "Test GPU".to_string(),
            vram_bytes: vram_gb * GB,
            vendor: GpuVendor::Nvidia,
            dedicated,
        }]
    } else {
        Vec::new()
    };
    HardwareInfo {
        cpu_name: "Test CPU".to_string(),
        cpu_physical_cores: 8,
        cpu_logical_cores: 16,
        total_ram_bytes: ram_gb * GB,
        available_ram_bytes: ram_gb * GB,
        gpus,
    }
}

fn model(file_size_gb: u64, num_layers: u32, quant: &str) -> ModelRequirements {
    ModelRequirements {
        file_size_bytes: file_size_gb * GB,
        num_layers,
        quantization: quant.to_string(),
    }
}

#[test]
fn no_gpu_runs_cpu_only() {
    let params = compute(&hw(0, false, 32), None);
    assert_eq!(params.n_gpu_layers, 0);
    assert!(!params.flash_attn);
    assert_eq!(params.threads, 8);
}

#[test]
fn dedicated_gpu_no_model_offloads_all() {
    let params = compute(&hw(24, true, 32), None);
    assert_eq!(params.n_gpu_layers, -1);
    assert!(params.flash_attn);
}

#[test]
fn ctx_size_scales_with_vram_tiers() {
    assert_eq!(compute(&hw(24, true, 8), None).ctx_size, 32768);
    assert_eq!(compute(&hw(16, true, 8), None).ctx_size, 16384);
    assert_eq!(compute(&hw(8, true, 8), None).ctx_size, 8192);
    assert_eq!(compute(&hw(4, true, 8), None).ctx_size, 4096);
}

#[test]
fn ctx_size_falls_back_to_ram_tiers_without_gpu() {
    assert_eq!(compute(&hw(0, false, 32), None).ctx_size, 8192);
    assert_eq!(compute(&hw(0, false, 16), None).ctx_size, 4096);
    assert_eq!(compute(&hw(0, false, 8), None).ctx_size, 2048);
}

#[test]
fn batch_size_scales_with_memory() {
    let big = compute(&hw(8, true, 8), None);
    assert_eq!(big.batch_size, 2048);
    assert_eq!(big.ubatch_size, 512);

    let small = compute(&hw(4, true, 8), None);
    assert_eq!(small.batch_size, 512);
    assert_eq!(small.ubatch_size, 128);
}

#[test]
fn mlock_only_when_cpu_only_and_enough_ram() {
    assert!(compute(&hw(0, false, 16), None).use_mlock);
    assert!(!compute(&hw(0, false, 8), None).use_mlock);
    // Enough RAM but a GPU is offloading layers: mlock shouldn't apply.
    assert!(!compute(&hw(24, true, 32), None).use_mlock);
}

#[test]
fn full_model_fits_in_vram() {
    let m = model(10, 40, "Q4_K_M");
    let params = compute(&hw(24, true, 32), Some(&m));
    assert_eq!(params.n_gpu_layers, 40);
}

#[test]
fn partial_offload_when_model_exceeds_vram() {
    let m = model(80, 80, "Q8_0");
    let params = compute(&hw(8, true, 32), Some(&m));
    assert!(params.n_gpu_layers > 0);
    assert!(params.n_gpu_layers < 80);
}

#[test]
fn falls_back_to_cpu_when_vram_cant_fit_kv_cache() {
    // A huge layer count blows up the estimated KV-cache size past what a
    // 1GB card can hold, even before accounting for the weights.
    let m = model(1, 1000, "Q4_K_M");
    let params = compute(&hw(1, true, 8), Some(&m));
    assert_eq!(params.n_gpu_layers, 0);
    assert!(!params.flash_attn);
}

#[test]
fn zero_layers_offloads_all_for_lack_of_data() {
    let m = model(0, 0, "unknown");
    let params = compute(&hw(24, true, 32), Some(&m));
    assert_eq!(params.n_gpu_layers, -1);
}

#[test]
fn bytes_per_layer_falls_back_to_file_size_when_layers_unknown() {
    let m = model(5, 0, "Q4_K_M");
    assert_eq!(m.bytes_per_layer(), 5 * GB);
}

#[test]
fn bytes_per_layer_divides_evenly() {
    let m = model(40, 40, "Q4_K_M");
    assert_eq!(m.bytes_per_layer(), GB);
}

#[test]
fn cli_string_reflects_flags() {
    let params = compute(&hw(0, false, 16), None);
    let s = params.to_cli_string();
    assert!(s.contains("--n-gpu-layers 0"));
    assert!(s.contains("--no-mmap") != params.use_mmap);
    assert!(s.contains("--mlock"));
    assert!(!s.contains("--flash-attn"));
}

#[test]
fn cli_args_omit_disabled_flags() {
    let params = compute(&hw(24, true, 32), None);
    let args = params.to_cli_args();
    assert!(args.contains(&"--flash-attn".to_string()));
    assert!(!args.contains(&"--no-mmap".to_string()));
    assert!(!args.contains(&"--mlock".to_string()));
}

#[test]
fn exact_command_lines() {
    let params = LlamaCppParams {
        n_gpu_layers: -1,
        ctx_size: 4096,
        threads: 8,
        batch_size: 512,
        ubatch_size: 128,
        use_mmap: false,
        use_mlock: true,
        flash_attn: true,
        rationale: Vec::new(),
    };
    assert_eq!(
        params.to_cli_string(),
        "--n-gpu-layers -1 \\\n  --ctx-size 4096 \\\n  --threads 8 \\\n  --batch-size 512 \\\n  --ubatch-size 128 \\\n  --no-mmap \\\n  --mlock \\\n  --flash-attn"
    );
    assert_eq!(
        params.to_cli_args(),
        vec![
            "--n-gpu-layers", "-1", "--ctx-size", "4096", "--threads", "8", "--batch-size", "512",
            "--ubatch-size", "128", "--no-mmap", "--mlock", "--flash-attn",
        ]
    );
}

#[test]
fn shown_command_line_is_the_passed_one() {
    for bits in 0..8u32 {
        let params = LlamaCppParams {
            n_gpu_layers: bits as i32 - 3,
            ctx_size: 4096,
            threads: 0,
            batch_size: 512,
            ubatch_size: 128,
            use_mmap: bits & 1 == 0,
            use_mlock: bits & 2 == 0,
            flash_attn: bits & 4 == 0,
            rationale: Vec::new(),
        };
        let (shown, args) = (params.to_cli_string(), params.to_cli_args());
        assert_eq!(shown.replace(" \\\n  ", " "), args.join(" "));
        for (switch, there) in [
            ("--no-mmap", !params.use_mmap),
            ("--mlock", params.use_mlock),
            ("--flash-attn", params.flash_attn),
        ] {
            assert_eq!(shown.contains(switch), there);
            assert_eq!(args.contains(&switch.to_string()), there);
        }
    }
}

#[test]
fn cache_size_is_not_needed_without_bytes_per_layer() {
    let m = ModelRequirements {
        file_size_bytes: 0,
        num_layers: u32::MAX,
        quantization: "unknown".to_string(),
    };
    let mut reasons = Vec::new();
    assert_eq!(compute_gpu_layers(&hw(1, true, 8), &m, u32::MAX, &mut reasons), -1);
}

#[test]
fn exact_reasons_without_a_gpu() {
    let params = compute_described(&hw(0, false, 16), None, "No GPU", "sixteen");
    assert_eq!(
        params.rationale,
        vec![
            "--threads 8: matches your 8 physical CPU cores for best throughput",
            "--ctx-size 4096: balanced for your VRAM (No GPU) / RAM (sixteen)",
            "--n-gpu-layers 0: no GPU detected, running CPU-only",
            "--batch-size 512 --ubatch-size 128: optimizes prompt throughput",
            "--mlock: enough RAM to keep model pages locked (CPU-only mode)",
        ]
    );
    let shown = compute(&hw(0, false, 16), None).rationale;
    assert_eq!(
        shown[1],
        format!(
            "--ctx-size 4096: balanced for your VRAM (No GPU) / RAM ({})",
            bytesize::ByteSize(16 * GB)
        )
    );
}

#[test]
fn exact_reasons_for_a_partial_offload_into_shared_memory() {
    // 8192 tokens and 80 layers need 320 MB of cache; the rest of nine tenths
    // of 8 GB holds 6 layers of 1 GB.
    let params = compute_described(&hw(8, false, 32), Some(&model(80, 80, "Q8_0")), "eight", "ram");
    assert_eq!(params.n_gpu_layers, 6);
    assert_eq!(
        params.rationale,
        vec![
            "--threads 8: matches your 8 physical CPU cores for best throughput",
            "--ctx-size 8192: balanced for your VRAM (eight) / RAM (ram)",
            "Layer size estimated from Q8_0 quantization: ~1024MB/layer",
            "--n-gpu-layers 6: partial offload — 6/80 layers fit in eight",
            "Note: GPU memory is shared with system RAM (integrated graphics) — offload only helps if your llama.cpp build has GPU backend support (Vulkan/Metal/etc.); a CPU-only build ignores -ngl",
            "--batch-size 2048 --ubatch-size 512: optimizes prompt throughput",
            "--flash-attn: reduces VRAM usage for KV cache on GPU",
        ]
    );
}

#[test]
fn exact_reasons_for_the_other_offloads() {
    let mut reasons = vec!["first".to_string()];
    assert_eq!(compute_gpu_layers(&hw(24, true, 32), &model(10, 40, "Q4_K_M"), 32768, &mut reasons), 40);
    assert_eq!(reasons[0], "first");
    assert_eq!(reasons[1], "Layer size estimated from Q4_K_M quantization: ~256MB/layer");
    assert_eq!(
        reasons[2],
        format!("--n-gpu-layers 40: full model fits in VRAM ({})", bytesize::ByteSize(24 * GB))
    );

    let mut reasons = Vec::new();
    assert_eq!(compute_gpu_layers(&hw(1, true, 8), &model(1, 1000, "Q4_K_M"), 2048, &mut reasons), 0);
    assert_eq!(
        reasons[1],
        format!(
            "--n-gpu-layers 0: insufficient VRAM ({}) even for KV cache (~1000MB)",
            bytesize::ByteSize(GB)
        )
    );

    let mut reasons = Vec::new();
    assert_eq!(compute_gpu_layers(&hw(1, true, 8), &model(0, 0, "unknown"), 2048, &mut reasons), -1);
    assert_eq!(reasons[1], "--n-gpu-layers -1: no per-layer data; offloading all");
    let mut no_model = compute(&hw(24, true, 8), None).rationale;
    assert_eq!(
        no_model.remove(2),
        "--n-gpu-layers -1: offload all layers (adjust down if you get OOM)"
    );
}

#[test]
fn cache_size_is_half_a_megabyte_per_layer_and_kilotoken() {
    assert_eq!(model(1, 32, "Q4_0").kv_cache_bytes(8192), 32 * 8 * 512 * 1024);
    assert_eq!(model(1, 32, "Q4_0").kv_cache_bytes(1023), 0);
}

#[test]
fn context_grows_with_memory_of_one_kind() {
    let mut last = 0;
    for vram in [4, 5, 8, 12, 16, 20, 24, 48] {
        let ctx = compute(&hw(vram, true, 8), None).ctx_size;
        assert!(ctx >= last);
        last = ctx;
    }
}
