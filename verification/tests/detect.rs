use llama_tune::detect::{
    apple_gpu_named, detect, detect_apple_silicon, detect_gpus, detect_linux_sysfs_gpus,
    detect_nvidia_nvml, detect_windows_dxgi, dxgi_gpu_named, sysfs_gpu, DrmEntry, DxgiAdapter,
};
use llama_tune::hardware::{GpuInfo, GpuVendor};

fn gpu(name: &str, vendor: GpuVendor) -> GpuInfo {
    GpuInfo { name: name.to_string(), vram_bytes: 1, vendor, dedicated: true }
}

fn adapter(name: &str, dedicated_bytes: u64, shared_bytes: u64, vendor_id: u32) -> DxgiAdapter {
    let mut description: Vec<u16> = name.encode_utf16().collect();
    description.push(0);
    description.push(65);
    DxgiAdapter { description, software: false, dedicated_bytes, shared_bytes, vendor_id }
}

fn entry(name: &str, vendor: Option<&str>, vram_total: Option<&str>) -> DrmEntry {
    DrmEntry {
        name: name.to_string(),
        vendor: vendor.map(String::from),
        vram_total: vram_total.map(String::from),
    }
}

fn names(gpus: &[GpuInfo]) -> Vec<&str> {
    gpus.iter().map(|g| g.name.as_str()).collect()
}

#[test]
fn machine_is_taken_as_reported() {
    let hw = detect(Some("CPU X".to_string()), 16, Some(6), 100, 50, vec![gpu("g", GpuVendor::Amd)]);
    assert_eq!(hw.cpu_name, "CPU X");
    assert_eq!((hw.cpu_physical_cores, hw.cpu_logical_cores), (6, 16));
    assert_eq!((hw.total_ram_bytes, hw.available_ram_bytes), (100, 50));
    assert_eq!(names(&hw.gpus), vec!["g"]);
}

#[test]
fn missing_reports_have_fallbacks() {
    let hw = detect(None, 16, None, 0, 0, vec![]);
    assert_eq!(hw.cpu_name, "Unknown CPU");
    assert_eq!(hw.cpu_physical_cores, 8);
    assert_eq!(detect(None, 1, None, 0, 0, vec![]).cpu_physical_cores, 1);
    assert_eq!(detect(None, 0, None, 0, 0, vec![]).cpu_physical_cores, 1);
    assert_eq!(detect(None, 4, Some(0), 0, 0, vec![]).cpu_physical_cores, 1);
}

#[test]
fn sources_are_merged_without_a_second_nvidia_entry() {
    let gpus = detect_gpus(
        Some(vec![gpu("nvml", GpuVendor::Nvidia)]),
        Some(gpu("apple", GpuVendor::Apple)),
        vec![gpu("dxgi-nvidia", GpuVendor::Nvidia), gpu("dxgi-intel", GpuVendor::Intel)],
        vec![gpu("sysfs", GpuVendor::Amd)],
    );
    assert_eq!(names(&gpus), vec!["nvml", "dxgi-intel", "sysfs"]);
}

#[test]
fn other_sources_count_without_nvidias_library() {
    let gpus = detect_gpus(
        None,
        Some(gpu("apple", GpuVendor::Apple)),
        vec![gpu("dxgi-nvidia", GpuVendor::Nvidia), gpu("dxgi-amd", GpuVendor::Amd)],
        vec![],
    );
    assert_eq!(names(&gpus), vec!["apple", "dxgi-nvidia", "dxgi-amd"]);
    let none = detect_gpus(Some(vec![]), None, vec![], vec![]);
    assert!(none.is_empty());
    let apple = detect_gpus(Some(vec![]), Some(gpu("apple", GpuVendor::Apple)), vec![], vec![]);
    assert_eq!(names(&apple), vec!["apple"]);
}

#[test]
fn nvidia_devices_have_memory_of_their_own() {
    let gpus = detect_nvidia_nvml(vec![("A".to_string(), 8), ("B".to_string(), 9)]);
    assert_eq!(names(&gpus), vec!["A", "B"]);
    assert_eq!((gpus[1].vram_bytes, gpus[1].dedicated), (9, true));
    assert!(gpus[0].vendor.is_nvidia());
}

#[test]
fn adapters_of_windows_are_judged_by_their_larger_memory() {
    let mut software = adapter("Basic Render", 5, 5, 0x1414);
    software.software = true;
    let gpus = detect_windows_dxgi(&vec![
        adapter("Radeon", 100, 40, 0x1002),
        software,
        adapter("Iris", 10, 60, 0x8086),
        adapter("nothing", 0, 0, 0x8086),
        adapter("Equal", 7, 7, 0x10DE),
    ]);
    assert_eq!(names(&gpus), vec!["Radeon", "Iris", "Equal"]);
    let facts: Vec<(u64, bool, String)> =
        gpus.iter().map(|g| (g.vram_bytes, g.dedicated, g.vendor.to_string())).collect();
    assert_eq!(
        facts,
        vec![
            (100, true, "AMD".to_string()),
            (60, false, "Intel".to_string()),
            (7, true, "NVIDIA".to_string()),
        ]
    );
}

#[test]
fn adapter_names_are_decoded_up_to_the_first_zero() {
    let mut a = adapter("Grün 🦙", 1, 0, 0x1234);
    assert_eq!(detect_windows_dxgi(&vec![adapter("Grün 🦙", 1, 0, 0x1234)])[0].name, "Grün 🦙");
    a.description = vec![0xD800, 66];
    assert_eq!(
        detect_windows_dxgi(&vec![a])[0].name,
        String::from_utf16_lossy(&[0xD800, 66])
    );
    for units in [
        vec![0xD834, 0xDD1E, 0x6D, 0xDD1E, 0x69, 0xD834],
        vec![0xD800, 0xD800, 0xDC00],
        vec![0xDC00, 0xD800],
        vec![0xD7FF, 0xE000, 0xFFFF],
        vec![0xDBFF, 0xDFFF],
    ] {
        let mut odd = adapter("", 1, 0, 0x1234);
        odd.description = units.clone();
        assert_eq!(detect_windows_dxgi(&vec![odd])[0].name, String::from_utf16_lossy(&units));
    }
    let named = dxgi_gpu_named(&adapter("x", 1, 0, 0x1234), "Y".to_string()).unwrap();
    assert_eq!((named.name.as_str(), named.vendor.to_string().as_str()), ("Y", "0x1234"));
}

#[test]
fn unified_memory_needs_an_apple_chip_and_a_size() {
    let text = |s: &str| Some(s.to_string());
    let g = detect_apple_silicon(text("17179869184\n"), text("\n"), text("Apple M2 Pro\n")).unwrap();
    assert_eq!((g.name.as_str(), g.vram_bytes, g.dedicated), ("Apple M2 Pro", 17179869184, false));
    let g = detect_apple_silicon(text("16"), text(" APPLE M1 "), None).unwrap();
    assert_eq!(g.name, "APPLE M1");
    assert_eq!(g.vendor.to_string(), "Apple Silicon");
    assert!(detect_apple_silicon(text("16"), text("Intel(R) Core(TM)"), None).is_none());
    assert!(detect_apple_silicon(text("x16"), text("Apple"), None).is_none());
    assert!(detect_apple_silicon(None, text("Apple"), None).is_none());
    assert!(apple_gpu_named("APPLE", 1, String::new(), String::new()).is_none());
    let g = apple_gpu_named("apple", 1, "cpu".to_string(), " \n".to_string()).unwrap();
    assert_eq!(g.name, "cpu");
}

#[test]
fn nodes_of_linux_are_devices_of_amd_or_intel() {
    let entries = vec![
        entry("card0", Some("0x1002\n"), Some("8589934592\n")),
        entry("card0-DP-1", Some("0x1002\n"), Some("8589934592\n")),
        entry("card1", Some("0x8086\n"), None),
        entry("renderD128", Some("0x8086\n"), None),
        entry("card2", Some("0x10de\n"), Some("1")),
        entry("card3", Some("0x1002"), None),
        entry("card4", Some("0x1002"), Some("0")),
        entry("card5", Some("0x1002"), Some("many")),
        entry("card6", None, Some("1")),
    ];
    let gpus = detect_linux_sysfs_gpus(&entries, 32);
    assert_eq!(names(&gpus), vec!["AMD GPU (card0)", "Intel GPU (card1)"]);
    assert_eq!((gpus[0].vram_bytes, gpus[0].dedicated), (8589934592, true));
    assert_eq!((gpus[1].vram_bytes, gpus[1].dedicated), (32, false));
    assert!(sysfs_gpu(&entries[2], 0).is_none());
}
