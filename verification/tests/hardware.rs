use llama_tune::hardware::{GpuInfo, GpuVendor, HardwareInfo};

fn gpu(name: &str, vram_gb: u64, vendor: GpuVendor, dedicated: bool) -> GpuInfo {
    GpuInfo {
        name: name.to_string(),
        vram_bytes: vram_gb * 1_073_741_824,
        vendor,
        dedicated,
    }
}

fn hw(gpus: Vec<GpuInfo>, ram_gb: u64, available_ram_gb: u64) -> HardwareInfo {
    HardwareInfo {
        cpu_name: "Test CPU".to_string(),
        cpu_physical_cores: 8,
        cpu_logical_cores: 16,
        total_ram_bytes: ram_gb * 1_073_741_824,
        available_ram_bytes: available_ram_gb * 1_073_741_824,
        gpus,
    }
}

#[test]
fn no_gpus_report_zero_vram_and_no_gpu() {
    let info = hw(vec![], 32, 16);
    assert_eq!(info.primary_vram_bytes(), 0);
    assert!(!info.has_gpu());
    assert!(!info.has_dedicated_gpu());
    assert_eq!(info.vram_display(), "No GPU");
}

#[test]
fn primary_vram_prefers_dedicated_even_if_not_first() {
    let info = hw(
        vec![
            gpu("Integrated", 8, GpuVendor::Intel, false),
            gpu("Discrete", 12, GpuVendor::Nvidia, true),
        ],
        32,
        16,
    );
    assert_eq!(info.primary_vram_bytes(), 12 * 1_073_741_824);
    assert!(info.has_dedicated_gpu());
}

#[test]
fn primary_vram_falls_back_to_first_when_no_dedicated() {
    let info = hw(
        vec![
            gpu("Integrated A", 4, GpuVendor::Intel, false),
            gpu("Integrated B", 6, GpuVendor::Amd, false),
        ],
        32,
        16,
    );
    assert_eq!(info.primary_vram_bytes(), 4 * 1_073_741_824);
    assert!(!info.has_dedicated_gpu());
}

#[test]
fn total_dedicated_vram_excludes_shared_gpus() {
    let info = hw(
        vec![
            gpu("Discrete 1", 8, GpuVendor::Nvidia, true),
            gpu("Discrete 2", 8, GpuVendor::Amd, true),
            gpu("Integrated", 16, GpuVendor::Intel, false),
        ],
        32,
        16,
    );
    assert_eq!(info.total_dedicated_vram_bytes(), 16 * 1_073_741_824);
}

#[test]
fn model_memory_uses_vram_only_when_dedicated() {
    let dedicated = hw(vec![gpu("Discrete", 12, GpuVendor::Nvidia, true)], 32, 16);
    assert_eq!(dedicated.model_memory_bytes(), 12 * 1_073_741_824);

    let integrated = hw(vec![gpu("Integrated", 16, GpuVendor::Intel, false)], 32, 16);
    assert_eq!(integrated.model_memory_bytes(), 16 * 1_073_741_824);

    let none = hw(vec![], 32, 16);
    assert_eq!(none.model_memory_bytes(), 16 * 1_073_741_824);
}

#[test]
fn gpu_vendor_display_formats_known_and_unknown_vendors() {
    assert_eq!(GpuVendor::Nvidia.to_string(), "NVIDIA");
    assert_eq!(GpuVendor::Amd.to_string(), "AMD");
    assert_eq!(GpuVendor::Intel.to_string(), "Intel");
    assert_eq!(GpuVendor::Apple.to_string(), "Apple Silicon");
    assert_eq!(GpuVendor::Other("0x1234".to_string()).to_string(), "0x1234");
}

#[test]
fn vendor_ids_map_to_vendors() {
    assert!(GpuVendor::from(0x10DE).is_nvidia());
    assert_eq!(GpuVendor::from(0x10DE).to_string(), "NVIDIA");
    assert_eq!(GpuVendor::from(0x1002).to_string(), "AMD");
    assert_eq!(GpuVendor::from(0x1022).to_string(), "AMD");
    assert_eq!(GpuVendor::from(0x8086).to_string(), "Intel");
    for id in [0u32, 0x7, 0xA, 0x1AB, 0x1414, 0x5143, 0xFFFF, 0x1_0000, u32::MAX] {
        assert_eq!(GpuVendor::from(id).to_string(), format!("0x{id:04X}"));
        assert!(!GpuVendor::from(id).is_nvidia());
    }
}

#[test]
fn memory_is_shown_as_bytesize_shows_it() {
    let info = hw(vec![gpu("Discrete", 12, GpuVendor::Nvidia, true)], 32, 16);
    assert_eq!(info.ram_display(), bytesize::ByteSize(32 * 1_073_741_824).to_string());
    assert_eq!(
        info.available_ram_display(),
        bytesize::ByteSize(16 * 1_073_741_824).to_string()
    );
    assert_eq!(info.vram_display(), bytesize::ByteSize(12 * 1_073_741_824).to_string());
    let mut tiny = hw(vec![], 0, 0);
    tiny.total_ram_bytes = 215;
    assert_eq!(tiny.ram_display(), "215 B");
}

#[test]
fn shared_memory_is_never_part_of_the_budget() {
    let with_shared = hw(
        vec![
            gpu("Integrated", 64, GpuVendor::Intel, false),
            gpu("Discrete", 8, GpuVendor::Amd, true),
        ],
        32,
        16,
    );
    let without = hw(vec![gpu("Discrete", 8, GpuVendor::Amd, true)], 32, 16);
    assert_eq!(with_shared.model_memory_bytes(), without.model_memory_bytes());
    assert_eq!(
        with_shared.total_dedicated_vram_bytes(),
        without.total_dedicated_vram_bytes()
    );
}
