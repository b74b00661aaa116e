//! From what the machine reports to a snapshot of its hardware: one way for
//! each source of graphics processors, and the merge of what they found.

use vstd::prelude::*;
use vstd::string::*;

#[allow(unused_imports)]
use crate::hardware;
use crate::hardware::{GpuInfo, GpuVendor, GpuView, HardwareInfo, HardwareView, VendorView};
#[allow(unused_imports)]
use crate::outside;
use crate::text;

verus! {

/// A display adapter as Windows describes it.
#[derive(Debug)]
pub struct DxgiAdapter {
    /// The name in UTF-16, up to the first zero.
    pub description: Vec<u16>,
    /// Whether the adapter is a software rasterizer.
    pub software: bool,
    pub dedicated_bytes: u64,
    pub shared_bytes: u64,
    /// PCI vendor id.
    pub vendor_id: u32,
}

/// A node below `/sys/class/drm`.
#[derive(Debug)]
pub struct DrmEntry {
    pub name: String,
    /// What its `device/vendor` file holds, where that could be read.
    pub vendor: Option<String>,
    /// What its `device/mem_info_vram_total` file holds, where that could be
    /// read.
    pub vram_total: Option<String>,
}

// ---------------------------------------------------------------------------
// The machine
// ---------------------------------------------------------------------------

/// The number of physical cores: as reported, else half the logical ones, and
/// at least one.
pub open spec fn physical_cores(reported: Option<usize>, logical: usize) -> usize {
    let cores = match reported {
        Some(n) => n,
        None => logical / 2,
    };
    if cores < 1 {
        1
    } else {
        cores
    }
}

/// A snapshot of the machine out of what it reports.
pub fn detect(
    cpu_brand: Option<String>,
    cpu_logical_cores: usize,
    reported_physical_cores: Option<usize>,
    total_ram_bytes: u64,
    available_ram_bytes: u64,
    gpus: Vec<GpuInfo>,
) -> (hw: HardwareInfo)
    ensures
        hw@ == (HardwareView {
            cpu_name: match cpu_brand {
                Some(b) => b@,
                None => "Unknown CPU"@,
            },
            cpu_physical_cores: physical_cores(reported_physical_cores, cpu_logical_cores),
            cpu_logical_cores,
            total_ram_bytes,
            available_ram_bytes,
            gpus: hardware::gpu_views(gpus@),
        }),
{
    let cpu_name = match cpu_brand {
        Some(b) => b,
        None => "Unknown CPU".to_owned(),
    };
    let cores: usize = match reported_physical_cores {
        Some(n) => n,
        None => cpu_logical_cores / 2,
    };
    let cpu_physical_cores: usize = if cores < 1 {
        1
    } else {
        cores
    };
    HardwareInfo {
        cpu_name,
        cpu_physical_cores,
        cpu_logical_cores,
        total_ram_bytes,
        available_ram_bytes,
        gpus,
    }
}

// ---------------------------------------------------------------------------
// The merge
// ---------------------------------------------------------------------------

/// One of the graphics processors is NVIDIA's.
pub open spec fn has_nvidia(gpus: Seq<GpuView>) -> bool {
    exists|i: int| 0 <= i < gpus.len() && (#[trigger] gpus[i]).vendor == VendorView::Nvidia
}

/// `known` with the adapters of `dxgi` behind it, but for an NVIDIA one where
/// one is known already.
pub open spec fn with_dxgi(known: Seq<GpuView>, dxgi: Seq<GpuView>) -> Seq<GpuView>
    decreases dxgi.len(),
{
    if dxgi.len() == 0 {
        known
    } else {
        let before = with_dxgi(known, dxgi.drop_last());
        if dxgi.last().vendor == VendorView::Nvidia && has_nvidia(before) {
            before
        } else {
            before.push(dxgi.last())
        }
    }
}

/// The view of a list that may be missing.
pub open spec fn list_or_empty(gpus: Option<Vec<GpuInfo>>) -> Seq<GpuView> {
    match gpus {
        Some(g) => hardware::gpu_views(g@),
        None => Seq::empty(),
    }
}

/// What was found before the adapters of Windows and the nodes of Linux: what
/// NVIDIA's library reports, else Apple's unified memory.
pub open spec fn vendor_gpus(nvml: Seq<GpuView>, apple: Option<GpuInfo>) -> Seq<GpuView> {
    if nvml.len() == 0 {
        match apple {
            Some(g) => seq![g@],
            None => nvml,
        }
    } else {
        nvml
    }
}

fn any_nvidia(gpus: &Vec<GpuInfo>) -> (r: bool)
    ensures
        r == has_nvidia(hardware::gpu_views(gpus@)),
{
    for i in 0..gpus.len()
        invariant
            forall|j: int| 0 <= j < i ==> (#[trigger] gpus@[j])@.vendor != VendorView::Nvidia,
    {
        if gpus[i].vendor.is_nvidia() {
            assert(hardware::gpu_views(gpus@)[i as int].vendor == VendorView::Nvidia);
            return true;
        }
    }
    assert forall|j: int| 0 <= j < gpus@.len() implies (#[trigger] hardware::gpu_views(
        gpus@,
    )[j]).vendor != VendorView::Nvidia by {
        assert(hardware::gpu_views(gpus@)[j] == gpus@[j]@);
    }
    false
}

/// Appends a graphics processor to a list.
fn push_gpu(gpus: &mut Vec<GpuInfo>, g: GpuInfo)
    ensures
        hardware::gpu_views(final(gpus)@) == hardware::gpu_views(old(gpus)@).push(g@),
{
    let ghost before = gpus@;
    let ghost value = g;
    gpus.push(g);
    assert(hardware::gpu_views(before.push(value)) =~= hardware::gpu_views(before).push(value@));
}

/// The graphics processors of the machine out of what each source found. A
/// source that a platform does not have finds nothing.
pub fn detect_gpus(
    nvml: Option<Vec<GpuInfo>>,
    apple: Option<GpuInfo>,
    dxgi: Vec<GpuInfo>,
    sysfs: Vec<GpuInfo>,
) -> (gpus: Vec<GpuInfo>)
    ensures
        hardware::gpu_views(gpus@) == with_dxgi(
            vendor_gpus(list_or_empty(nvml), apple),
            hardware::gpu_views(dxgi@),
        ) + hardware::gpu_views(sysfs@),
{
    let ghost known = vendor_gpus(list_or_empty(nvml), apple);
    let mut gpus: Vec<GpuInfo> = match nvml {
        Some(g) => g,
        None => Vec::new(),
    };
    assert(hardware::gpu_views(gpus@) =~= list_or_empty(nvml));
    if gpus.len() == 0 {
        if let Some(g) = apple {
            push_gpu(&mut gpus, g);
        }
    }
    assert(hardware::gpu_views(gpus@) =~= known);

    let ghost adapters = hardware::gpu_views(dxgi@);
    assert(with_dxgi(known, adapters.take(0)) =~= known);
    for g in it: dxgi
        invariant
            it.seq() == dxgi@,
            adapters == hardware::gpu_views(dxgi@),
            hardware::gpu_views(gpus@) == with_dxgi(known, adapters.take(it.index() as int)),
    {
        proof {
            let i = it.index() as int;
            assert(adapters.take(i + 1).drop_last() =~= adapters.take(i));
            assert(adapters.take(i + 1).last() == g@);
        }
        if !(g.vendor.is_nvidia() && any_nvidia(&gpus)) {
            push_gpu(&mut gpus, g);
        }
    }
    assert(adapters.take(adapters.len() as int) =~= adapters);

    let ghost merged = hardware::gpu_views(gpus@);
    let ghost nodes = hardware::gpu_views(sysfs@);
    assert(merged + nodes.take(0) =~= merged);
    for g in it: sysfs
        invariant
            it.seq() == sysfs@,
            nodes == hardware::gpu_views(sysfs@),
            hardware::gpu_views(gpus@) == merged + nodes.take(it.index() as int),
    {
        let ghost i = it.index() as int;
        let ghost value = g@;
        push_gpu(&mut gpus, g);
        assert((merged + nodes.take(i)).push(value) =~= merged + nodes.take(i + 1));
    }
    assert(nodes.take(nodes.len() as int) =~= nodes);
    gpus
}

// ---------------------------------------------------------------------------
// NVIDIA
// ---------------------------------------------------------------------------

/// A device that NVIDIA's library reports, with its memory.
pub open spec fn nvidia_gpu(device: (String, u64)) -> GpuView {
    GpuView {
        name: device.0@,
        vram_bytes: device.1,
        vendor: VendorView::Nvidia,
        dedicated: true,
    }
}

/// The devices that NVIDIA's library reports, by name and total memory.
pub fn detect_nvidia_nvml(devices: Vec<(String, u64)>) -> (gpus: Vec<GpuInfo>)
    ensures
        hardware::gpu_views(gpus@) == devices@.map_values(|d: (String, u64)| nvidia_gpu(d)),
        gpus@.len() == devices@.len(),
        forall|i: int|
            0 <= i < gpus@.len() ==> (#[trigger] gpus@[i]).vram_bytes == devices@[i].1
                && gpus@[i].name@ == devices@[i].0@ && gpus@[i].vendor is Nvidia
                && gpus@[i].dedicated,
{
    let ghost all = devices@.map_values(|d: (String, u64)| nvidia_gpu(d));
    let mut gpus: Vec<GpuInfo> = Vec::new();
    assert(hardware::gpu_views(gpus@) =~= all.take(0));
    for d in it: devices
        invariant
            it.seq() == devices@,
            all == devices@.map_values(|d: (String, u64)| nvidia_gpu(d)),
            hardware::gpu_views(gpus@) == all.take(it.index() as int),
    {
        let ghost i = it.index() as int;
        assert(all[i] == nvidia_gpu(d));
        let g = GpuInfo { name: d.0, vram_bytes: d.1, vendor: GpuVendor::Nvidia, dedicated: true };
        assert(all.take(i).push(g@) =~= all.take(i + 1));
        push_gpu(&mut gpus, g);
    }
    assert(all.take(all.len() as int) =~= all);
    proof {
        law_nvidia_devices_are_listed_as_reported(devices@, gpus@);
    }
    gpus
}

// ---------------------------------------------------------------------------
// Apple
// ---------------------------------------------------------------------------

/// Apple's unified memory, given the two chip names in lower case: there where
/// they speak of Apple. The chip's own name is shown, or else the processor's.
pub open spec fn apple_gpu(
    lower: Seq<char>,
    mem_bytes: u64,
    cpu_name: Seq<char>,
    chip_name: Seq<char>,
) -> Option<GpuView> {
    if text::contains_text(lower, "apple"@) {
        let label = if text::trimmed(chip_name).len() == 0 {
            cpu_name
        } else {
            chip_name
        };
        Some(
            GpuView {
                name: text::trimmed(label),
                vram_bytes: mem_bytes,
                vendor: VendorView::Apple,
                dedicated: false,
            },
        )
    } else {
        None
    }
}

/// The view of a graphics processor that may be missing.
pub open spec fn gpu_view(g: Option<GpuInfo>) -> Option<GpuView> {
    match g {
        Some(g) => Some(g@),
        None => None,
    }
}

/// A text, or nothing where it is missing.
pub open spec fn text_or_empty(s: Option<String>) -> Seq<char> {
    match s {
        Some(t) => t@,
        None => Seq::empty(),
    }
}

/// Apple's unified memory, given the two chip names in lower case.
pub fn apple_gpu_named(lower: &str, mem_bytes: u64, cpu_name: String, chip_name: String) -> (gpu:
    Option<GpuInfo>)
    ensures
        gpu_view(gpu) == apple_gpu(lower@, mem_bytes, cpu_name@, chip_name@),
{
    if text::contains(lower, "apple") {
        let trimmed_chip = text::trim(chip_name.as_str());
        let name = if trimmed_chip.as_str().is_empty() {
            text::trim(cpu_name.as_str())
        } else {
            trimmed_chip
        };
        Some(GpuInfo { name, vram_bytes: mem_bytes, vendor: GpuVendor::Apple, dedicated: false })
    } else {
        None
    }
}

/// Apple's unified memory out of what `sysctl` prints for the memory size, the
/// processor and the chip. Without a readable memory size there is none.
pub fn detect_apple_silicon(
    memsize: Option<String>,
    cpu_brand: Option<String>,
    chip: Option<String>,
) -> (gpu: Option<GpuInfo>)
    ensures
        gpu_view(gpu) == match memsize {
            None => None,
            Some(s) => match text::parsed_u64(text::trimmed(s@)) {
                None => None,
                Some(bytes) => apple_gpu(
                    outside::unicode_lowercase(
                        text_or_empty(cpu_brand) + " "@ + text_or_empty(chip),
                    ),
                    bytes,
                    text_or_empty(cpu_brand),
                    text_or_empty(chip),
                ),
            },
        },
{
    let mem_text = match memsize {
        None => return None,
        Some(s) => text::trim(s.as_str()),
    };
    let mem_bytes: u64 = match text::parse_u64(mem_text.as_str()) {
        None => return None,
        Some(n) => n,
    };
    let cpu_name = match cpu_brand {
        Some(s) => s,
        None => String::new(),
    };
    let chip_name = match chip {
        Some(s) => s,
        None => String::new(),
    };
    let lower = cpu_name.clone().concat(" ").concat(chip_name.as_str()).to_lowercase();
    apple_gpu_named(lower.as_str(), mem_bytes, cpu_name, chip_name)
}

// ---------------------------------------------------------------------------
// Windows
// ---------------------------------------------------------------------------

/// The units of a name in front of the first zero.
pub open spec fn until_zero(units: Seq<u16>) -> Seq<u16>
    decreases units.len(),
{
    if units.len() == 0 || units[0] == 0 {
        Seq::empty()
    } else {
        seq![units[0]] + until_zero(units.drop_first())
    }
}

/// The graphics processor behind an adapter, given its name. Software adapters
/// and those without memory are none. An integrated one has little memory of
/// its own and a large shared budget, a discrete one the reverse, so the larger
/// figure is what can be used and tells which of the two it is.
pub open spec fn dxgi_gpu(a: DxgiAdapter, name: Seq<char>) -> Option<GpuView> {
    let larger = if a.dedicated_bytes >= a.shared_bytes {
        a.dedicated_bytes
    } else {
        a.shared_bytes
    };
    if a.software || larger == 0 {
        None
    } else {
        Some(
            GpuView {
                name,
                vram_bytes: larger,
                vendor: VendorView::of_id(a.vendor_id),
                dedicated: a.dedicated_bytes >= a.shared_bytes,
            },
        )
    }
}

/// The graphics processors behind a list of adapters.
pub open spec fn dxgi_gpus(adapters: Seq<DxgiAdapter>) -> Seq<GpuView>
    decreases adapters.len(),
{
    if adapters.len() == 0 {
        Seq::empty()
    } else {
        let before = dxgi_gpus(adapters.drop_last());
        let a = adapters.last();
        match dxgi_gpu(a, outside::utf16_lossy_text(until_zero(a.description@))) {
            Some(g) => before.push(g),
            None => before,
        }
    }
}

fn name_units(units: &Vec<u16>) -> (r: Vec<u16>)
    ensures
        r@ == until_zero(units@),
{
    let mut r: Vec<u16> = Vec::new();
    let mut i: usize = 0;
    assert(units@.skip(0) =~= units@);
    assert(Seq::<u16>::empty() + until_zero(units@) =~= until_zero(units@));
    while i < units.len() && units[i] != 0
        invariant
            i <= units@.len(),
            until_zero(units@) == r@ + until_zero(units@.skip(i as int)),
        decreases units@.len() - i,
    {
        proof {
            let rest = units@.skip(i as int);
            assert(rest.drop_first() =~= units@.skip(i + 1));
            assert(r@ + (seq![rest[0]] + until_zero(units@.skip(i + 1))) =~= r@.push(rest[0])
                + until_zero(units@.skip(i + 1)));
        }
        r.push(units[i]);
        i = i + 1;
    }
    assert(until_zero(units@.skip(i as int)) =~= Seq::empty());
    assert(r@ =~= until_zero(units@));
    r
}

/// The graphics processor behind an adapter, given its name.
pub fn dxgi_gpu_named(a: &DxgiAdapter, name: String) -> (gpu: Option<GpuInfo>)
    ensures
        gpu_view(gpu) == dxgi_gpu(*a, name@),
{
    if a.software {
        return None;
    }
    let dedicated = a.dedicated_bytes >= a.shared_bytes;
    let vram_bytes: u64 = if dedicated {
        a.dedicated_bytes
    } else {
        a.shared_bytes
    };
    if vram_bytes == 0 {
        return None;
    }
    Some(GpuInfo { name, vram_bytes, vendor: GpuVendor::from(a.vendor_id), dedicated })
}

/// The graphics processors behind the adapters that Windows lists.
pub fn detect_windows_dxgi(adapters: &Vec<DxgiAdapter>) -> (gpus: Vec<GpuInfo>)
    ensures
        hardware::gpu_views(gpus@) == dxgi_gpus(adapters@),
{
    let mut gpus: Vec<GpuInfo> = Vec::new();
    assert(hardware::gpu_views(gpus@) =~= dxgi_gpus(adapters@.take(0)));
    for i in 0..adapters.len()
        invariant
            hardware::gpu_views(gpus@) == dxgi_gpus(adapters@.take(i as int)),
    {
        assert(adapters@.take(i + 1).drop_last() =~= adapters@.take(i as int));
        let units = name_units(&adapters[i].description);
        let name = String::from_utf16_lossy(units.as_slice());
        if let Some(g) = dxgi_gpu_named(&adapters[i], name) {
            push_gpu(&mut gpus, g);
        }
    }
    assert(adapters@.take(adapters@.len() as int) =~= adapters@);
    gpus
}

// ---------------------------------------------------------------------------
// Linux
// ---------------------------------------------------------------------------

/// A node of a device itself, such as `card0`, and not of a connector, such as
/// `card0-DP-1`.
pub open spec fn is_device_node(name: Seq<char>) -> bool {
    text::begins_with(name, "card"@) && !name.contains('-')
}

/// The graphics processor behind a node. AMD's driver reports the memory; for
/// Intel's the system's memory is the shared budget.
pub open spec fn drm_gpu(e: DrmEntry, total_ram_bytes: u64) -> Option<GpuView> {
    if !is_device_node(e.name@) || e.vendor is None {
        None
    } else if text::trimmed(e.vendor->0@) == "0x1002"@ {
        match e.vram_total {
            Some(s) => match text::parsed_u64(text::trimmed(s@)) {
                Some(bytes) => if bytes > 0 {
                    Some(
                        GpuView {
                            name: "AMD GPU ("@ + e.name@ + ")"@,
                            vram_bytes: bytes,
                            vendor: VendorView::Amd,
                            dedicated: true,
                        },
                    )
                } else {
                    None
                },
                None => None,
            },
            None => None,
        }
    } else if text::trimmed(e.vendor->0@) == "0x8086"@ && total_ram_bytes > 0 {
        Some(
            GpuView {
                name: "Intel GPU ("@ + e.name@ + ")"@,
                vram_bytes: total_ram_bytes,
                vendor: VendorView::Intel,
                dedicated: false,
            },
        )
    } else {
        None
    }
}

/// The graphics processors behind a list of nodes.
pub open spec fn drm_gpus(entries: Seq<DrmEntry>, total_ram_bytes: u64) -> Seq<GpuView>
    decreases entries.len(),
{
    if entries.len() == 0 {
        Seq::empty()
    } else {
        let before = drm_gpus(entries.drop_last(), total_ram_bytes);
        match drm_gpu(entries.last(), total_ram_bytes) {
            Some(g) => before.push(g),
            None => before,
        }
    }
}

/// The graphics processor behind a node.
pub fn sysfs_gpu(e: &DrmEntry, total_ram_bytes: u64) -> (gpu: Option<GpuInfo>)
    ensures
        gpu_view(gpu) == drm_gpu(*e, total_ram_bytes),
{
    if !text::starts_with(e.name.as_str(), "card") || text::contains_char(e.name.as_str(), '-') {
        return None;
    }
    let vendor = match &e.vendor {
        Some(v) => text::trim(v.as_str()),
        None => return None,
    };
    proof {
        reveal_strlit("0x1002");
        reveal_strlit("0x8086");
        assert("0x1002"@[2] != "0x8086"@[2]);
    }
    if text::same_text(vendor.as_str(), "0x1002") {
        let total = match &e.vram_total {
            Some(s) => text::trim(s.as_str()),
            None => return None,
        };
        match text::parse_u64(total.as_str()) {
            Some(vram_bytes) => if vram_bytes > 0 {
                Some(
                    GpuInfo {
                        name: "AMD GPU (".to_owned().concat(e.name.as_str()).concat(")"),
                        vram_bytes,
                        vendor: GpuVendor::Amd,
                        dedicated: true,
                    },
                )
            } else {
                None
            },
            None => None,
        }
    } else if text::same_text(vendor.as_str(), "0x8086") && total_ram_bytes > 0 {
        Some(
            GpuInfo {
                name: "Intel GPU (".to_owned().concat(e.name.as_str()).concat(")"),
                vram_bytes: total_ram_bytes,
                vendor: GpuVendor::Intel,
                dedicated: false,
            },
        )
    } else {
        None
    }
}

/// The AMD and Intel graphics processors behind the nodes of `/sys/class/drm`.
/// NVIDIA's are left to its own library, which reports more.
pub fn detect_linux_sysfs_gpus(entries: &Vec<DrmEntry>, total_ram_bytes: u64) -> (gpus: Vec<
    GpuInfo,
>)
    ensures
        hardware::gpu_views(gpus@) == drm_gpus(entries@, total_ram_bytes),
{
    let mut gpus: Vec<GpuInfo> = Vec::new();
    assert(hardware::gpu_views(gpus@) =~= drm_gpus(entries@.take(0), total_ram_bytes));
    for i in 0..entries.len()
        invariant
            hardware::gpu_views(gpus@) == drm_gpus(entries@.take(i as int), total_ram_bytes),
    {
        assert(entries@.take(i + 1).drop_last() =~= entries@.take(i as int));
        if let Some(g) = sysfs_gpu(&entries[i], total_ram_bytes) {
            push_gpu(&mut gpus, g);
        }
    }
    assert(entries@.take(entries@.len() as int) =~= entries@);
    gpus
}

// ---------------------------------------------------------------------------
// Laws
// ---------------------------------------------------------------------------

/// The NVIDIA processors of a list.
pub open spec fn nvidia_only(gpus: Seq<GpuView>) -> Seq<GpuView>
    decreases gpus.len(),
{
    if gpus.len() == 0 {
        gpus
    } else if gpus.last().vendor == VendorView::Nvidia {
        nvidia_only(gpus.drop_last()).push(gpus.last())
    } else {
        nvidia_only(gpus.drop_last())
    }
}

/// The processors of a list that are not NVIDIA's.
pub open spec fn without_nvidia(gpus: Seq<GpuView>) -> Seq<GpuView>
    decreases gpus.len(),
{
    if gpus.len() == 0 {
        gpus
    } else if gpus.last().vendor == VendorView::Nvidia {
        without_nvidia(gpus.drop_last())
    } else {
        without_nvidia(gpus.drop_last()).push(gpus.last())
    }
}

/// Where NVIDIA's own library has reported a processor, the adapters of Windows
/// add none of NVIDIA's to it, so that none is listed twice. All the others are
/// added, behind those that are known.
pub proof fn law_no_nvidia_processor_twice(known: Seq<GpuView>, dxgi: Seq<GpuView>)
    requires
        has_nvidia(known),
    ensures
        nvidia_only(with_dxgi(known, dxgi)) == nvidia_only(known),
        without_nvidia(with_dxgi(known, dxgi)) == without_nvidia(known) + without_nvidia(dxgi),
        has_nvidia(with_dxgi(known, dxgi)),
    decreases dxgi.len(),
{
    if dxgi.len() == 0 {
        assert(without_nvidia(known) + without_nvidia(dxgi) =~= without_nvidia(known));
    } else {
        law_no_nvidia_processor_twice(known, dxgi.drop_last());
        let before = with_dxgi(known, dxgi.drop_last());
        if dxgi.last().vendor != VendorView::Nvidia {
            let now = before.push(dxgi.last());
            assert(now.drop_last() =~= before);
            assert(without_nvidia(now) =~= without_nvidia(known) + without_nvidia(dxgi));
            let i = choose|i: int|
                0 <= i < before.len() && (#[trigger] before[i]).vendor == VendorView::Nvidia;
            assert(now[i].vendor == VendorView::Nvidia);
        }
    }
}

/// What Windows or Linux lists has memory, and what Linux lists is Intel's with
/// shared memory or AMD's with memory of its own.
pub proof fn law_listed_processors_have_memory(
    adapters: Seq<DxgiAdapter>,
    entries: Seq<DrmEntry>,
    total_ram_bytes: u64,
    i: int,
)
    ensures
        0 <= i < dxgi_gpus(adapters).len() ==> dxgi_gpus(adapters)[i].vram_bytes > 0,
        0 <= i < drm_gpus(entries, total_ram_bytes).len() ==> {
            let g = drm_gpus(entries, total_ram_bytes)[i];
            &&& g.vram_bytes > 0
            &&& g.dedicated ==> g.vendor == VendorView::Amd
            &&& !g.dedicated ==> g.vendor == VendorView::Intel && g.vram_bytes == total_ram_bytes
        },
    decreases adapters.len() + entries.len(),
{
    if adapters.len() > 0 {
        law_listed_processors_have_memory(adapters.drop_last(), entries, total_ram_bytes, i);
    }
    if entries.len() > 0 {
        law_listed_processors_have_memory(adapters, entries.drop_last(), total_ram_bytes, i);
    }
}

/// The physical cores are those that are reported, where any are; without a
/// report they are half the logical ones; and there is always one.
pub proof fn law_physical_cores(n: usize, logical: usize)
    ensures
        n > 0 ==> physical_cores(Some(n), logical) == n,
        physical_cores(Some(0), logical) == 1,
        logical >= 2 ==> 2 * physical_cores(None, logical) <= logical < 2 * physical_cores(
            None,
            logical,
        ) + 2,
        logical < 2 ==> physical_cores(None, logical) == 1,
{
}

/// Each device that NVIDIA's library reports is listed, at the same place, with
/// the name and the whole memory that were reported, as NVIDIA's with memory of
/// its own. The two lists are the argument and the result of
/// `detect_nvidia_nvml`.
pub proof fn law_nvidia_devices_are_listed_as_reported(
    devices: Seq<(String, u64)>,
    gpus: Seq<GpuInfo>,
)
    requires
        hardware::gpu_views(gpus) == devices.map_values(|d: (String, u64)| nvidia_gpu(d)),
    ensures
        gpus.len() == devices.len(),
        forall|i: int|
            0 <= i < gpus.len() ==> {
                &&& (#[trigger] gpus[i]).vram_bytes == devices[i].1
                &&& gpus[i].name@ == devices[i].0@
                &&& gpus[i].vendor is Nvidia
                &&& gpus[i].dedicated
            },
{
    let views = hardware::gpu_views(gpus);
    assert(views.len() == gpus.len());
    assert forall|i: int| 0 <= i < gpus.len() implies {
        &&& (#[trigger] gpus[i]).vram_bytes == devices[i].1
        &&& gpus[i].name@ == devices[i].0@
        &&& gpus[i].vendor is Nvidia
        &&& gpus[i].dedicated
    } by {
        assert(views[i] == gpus[i]@);
        assert(views[i] == nvidia_gpu(devices[i]));
    }
}

/// A device that NVIDIA's library reports keeps its name and its whole memory.
pub proof fn law_nvidia_device(device: (String, u64))
    ensures
        nvidia_gpu(device).vram_bytes == device.1,
        nvidia_gpu(device).name == device.0@,
        nvidia_gpu(device).vendor == VendorView::Nvidia,
        nvidia_gpu(device).dedicated,
{
}

/// Apple's unified memory is listed exactly where the chip's names speak of
/// Apple: with all the memory there is, as shared, under a name that is the
/// chip's, or the processor's where the chip has none.
pub proof fn law_apple_memory(
    lower: Seq<char>,
    mem_bytes: u64,
    cpu_name: Seq<char>,
    chip_name: Seq<char>,
)
    ensures
        apple_gpu(lower, mem_bytes, cpu_name, chip_name) is Some <==> text::contains_text(
            lower,
            "apple"@,
        ),
        apple_gpu(lower, mem_bytes, cpu_name, chip_name) matches Some(g) ==> {
            &&& g.vram_bytes == mem_bytes
            &&& !g.dedicated
            &&& g.vendor == VendorView::Apple
            &&& text::trimmed(chip_name).len() > 0 ==> g.name == text::trimmed(chip_name)
            &&& text::trimmed(chip_name).len() == 0 ==> g.name == text::trimmed(cpu_name)
        },
{
}

/// An adapter of Windows is a graphics processor where it is no software and has
/// memory. It has the larger of its two figures, and is dedicated where that is
/// the memory of its own.
pub proof fn law_windows_adapter(a: DxgiAdapter, name: Seq<char>)
    ensures
        dxgi_gpu(a, name) is Some <==> !a.software && a.dedicated_bytes + a.shared_bytes > 0,
        dxgi_gpu(a, name) matches Some(g) ==> {
            &&& g.vram_bytes >= a.dedicated_bytes
            &&& g.vram_bytes >= a.shared_bytes
            &&& g.dedicated ==> g.vram_bytes == a.dedicated_bytes
            &&& !g.dedicated ==> g.vram_bytes == a.shared_bytes && a.dedicated_bytes
                < a.shared_bytes
            &&& g.vendor == VendorView::of_id(a.vendor_id)
            &&& g.name == name
        },
{
}

/// The adapters of two lists together give what each gives, in order; one adapter
/// gives itself, or nothing.
pub proof fn law_windows_adapters_in_order(
    a: Seq<DxgiAdapter>,
    b: Seq<DxgiAdapter>,
    one: DxgiAdapter,
)
    ensures
        dxgi_gpus(a + b) == dxgi_gpus(a) + dxgi_gpus(b),
        dxgi_gpus(seq![one]) == (match dxgi_gpu(
            one,
            outside::utf16_lossy_text(until_zero(one.description@)),
        ) {
            Some(g) => seq![g],
            None => Seq::empty(),
        }),
        dxgi_gpus(Seq::empty()) == Seq::<GpuView>::empty(),
    decreases b.len(),
{
    if b.len() == 0 {
        assert(a + b =~= a);
        assert(dxgi_gpus(a) + dxgi_gpus(b) =~= dxgi_gpus(a));
    } else {
        assert((a + b).drop_last() =~= a + b.drop_last());
        law_windows_adapters_in_order(a, b.drop_last(), one);
        assert(dxgi_gpus(a + b) =~= dxgi_gpus(a) + dxgi_gpus(b));
    }
    assert(seq![one].drop_last() =~= Seq::empty());
    assert(seq![one].last() == one);
    assert(dxgi_gpus(seq![one].drop_last()) =~= Seq::empty());
    assert(dxgi_gpus(seq![one]) =~= match dxgi_gpu(
        one,
        outside::utf16_lossy_text(until_zero(one.description@)),
    ) {
        Some(g) => seq![g],
        None => Seq::empty(),
    });
}

/// A name goes up to the first zero, or to its end where there is none.
pub proof fn law_name_until_zero(units: Seq<u16>)
    ensures
        until_zero(units).len() <= units.len(),
        until_zero(units) == units.take(until_zero(units).len() as int),
        !until_zero(units).contains(0u16),
        until_zero(units).len() < units.len() ==> units[until_zero(units).len() as int] == 0,
    decreases units.len(),
{
    if units.len() > 0 && units[0] != 0 {
        let rest = units.drop_first();
        law_name_until_zero(rest);
        let out = until_zero(units);
        assert(out =~= units.take(out.len() as int)) by {
            assert forall|i: int| 0 <= i < out.len() implies out[i] == units[i] by {
                if i > 0 {
                    assert(out[i] == until_zero(rest)[i - 1]);
                    assert(until_zero(rest)[i - 1] == rest[i - 1]);
                }
            }
        }
        assert forall|i: int| 0 <= i < out.len() implies out[i] != 0 by {
            if i > 0 {
                assert(out[i] == until_zero(rest)[i - 1]);
            }
        }
    } else {
        assert(until_zero(units) =~= units.take(0));
    }
}

/// A node of Linux is a graphics processor where it is a device of AMD that
/// reports memory, or one of Intel. The first has the memory that it reports, as
/// its own; the second borrows all the memory there is.
pub proof fn law_linux_node(e: DrmEntry, total_ram_bytes: u64)
    ensures
        is_device_node(e.name@) <==> text::begins_with(e.name@, "card"@) && !e.name@.contains('-'),
        drm_gpu(e, total_ram_bytes) matches Some(g) ==> {
            &&& is_device_node(e.name@)
            &&& e.vendor matches Some(v) && (if g.dedicated {
                text::trimmed(v@) == "0x1002"@
            } else {
                text::trimmed(v@) == "0x8086"@
            })
            &&& g.dedicated ==> g.vendor == VendorView::Amd && g.vram_bytes > 0 && (
            e.vram_total matches Some(t) && text::parsed_u64(text::trimmed(t@)) == Some(
                g.vram_bytes,
            )) && g.name == "AMD GPU ("@ + e.name@ + ")"@
            &&& !g.dedicated ==> g.vendor == VendorView::Intel && g.vram_bytes == total_ram_bytes
                && g.name == "Intel GPU ("@ + e.name@ + ")"@
        },
        is_device_node(e.name@) && (e.vendor matches Some(v) && text::trimmed(v@) == "0x1002"@) && (
        e.vram_total matches Some(t) && (text::parsed_u64(text::trimmed(t@)) matches Some(n) && n
            > 0)) ==> drm_gpu(e, total_ram_bytes) is Some,
        is_device_node(e.name@) && (e.vendor matches Some(v) && text::trimmed(v@) == "0x8086"@)
            && total_ram_bytes > 0 ==> drm_gpu(e, total_ram_bytes) is Some,
{
    reveal_strlit("0x1002");
    reveal_strlit("0x8086");
    assert("0x1002"@[2] != "0x8086"@[2]);
}

/// The nodes of two lists together give what each gives, in order; one node gives
/// itself, or nothing.
pub proof fn law_linux_nodes_in_order(
    a: Seq<DrmEntry>,
    b: Seq<DrmEntry>,
    one: DrmEntry,
    total_ram_bytes: u64,
)
    ensures
        drm_gpus(a + b, total_ram_bytes) == drm_gpus(a, total_ram_bytes) + drm_gpus(
            b,
            total_ram_bytes,
        ),
        drm_gpus(seq![one], total_ram_bytes) == (match drm_gpu(one, total_ram_bytes) {
            Some(g) => seq![g],
            None => Seq::empty(),
        }),
        drm_gpus(Seq::empty(), total_ram_bytes) == Seq::<GpuView>::empty(),
    decreases b.len(),
{
    if b.len() == 0 {
        assert(a + b =~= a);
        assert(drm_gpus(a, total_ram_bytes) + drm_gpus(b, total_ram_bytes) =~= drm_gpus(
            a,
            total_ram_bytes,
        ));
    } else {
        assert((a + b).drop_last() =~= a + b.drop_last());
        law_linux_nodes_in_order(a, b.drop_last(), one, total_ram_bytes);
        assert(drm_gpus(a + b, total_ram_bytes) =~= drm_gpus(a, total_ram_bytes) + drm_gpus(
            b,
            total_ram_bytes,
        ));
    }
    assert(seq![one].drop_last() =~= Seq::empty());
    assert(seq![one].last() == one);
    assert(drm_gpus(seq![one].drop_last(), total_ram_bytes) =~= Seq::empty());
    assert(drm_gpus(seq![one], total_ram_bytes) =~= match drm_gpu(one, total_ram_bytes) {
        Some(g) => seq![g],
        None => Seq::empty(),
    });
}

/// What is known stays in front, as it is; of the adapters of Windows all that are
/// not NVIDIA's follow in their order; and of those that are NVIDIA's the first
/// follows where none was known, and no other.
pub proof fn law_merge_with_windows(known: Seq<GpuView>, dxgi: Seq<GpuView>)
    ensures
        with_dxgi(known, dxgi).len() >= known.len(),
        with_dxgi(known, dxgi).take(known.len() as int) == known,
        without_nvidia(with_dxgi(known, dxgi)) == without_nvidia(known) + without_nvidia(dxgi),
        nvidia_only(with_dxgi(known, dxgi)) == (if has_nvidia(known) || !has_nvidia(dxgi) {
            nvidia_only(known)
        } else {
            nvidia_only(known).push(nvidia_only(dxgi)[0])
        }),
        has_nvidia(with_dxgi(known, dxgi)) <==> has_nvidia(known) || has_nvidia(dxgi),
        has_nvidia(dxgi) <==> nvidia_only(dxgi).len() > 0,
    decreases dxgi.len(),
{
    let out = with_dxgi(known, dxgi);
    if dxgi.len() == 0 {
        assert(out.take(known.len() as int) =~= known);
        assert(without_nvidia(known) + without_nvidia(dxgi) =~= without_nvidia(known));
    } else {
        let fewer = dxgi.drop_last();
        let last = dxgi.last();
        law_merge_with_windows(known, fewer);
        let before = with_dxgi(known, fewer);
        lemma_nvidia_of_push(fewer, last);
        assert(fewer.push(last) =~= dxgi);
        lemma_nvidia_of_push(before, last);
        assert(out.take(known.len() as int) =~= before.take(known.len() as int));
        assert(before.push(last).drop_last() =~= before);
        if last.vendor == VendorView::Nvidia {
            assert(without_nvidia(out) == without_nvidia(before));
            assert(has_nvidia(dxgi));
            if has_nvidia(fewer) {
                assert(nvidia_only(dxgi)[0] == nvidia_only(fewer)[0]);
            } else {
                assert(nvidia_only(fewer) =~= Seq::empty());
                assert(nvidia_only(dxgi)[0] == last);
            }
        } else {
            assert(without_nvidia(out) =~= without_nvidia(known) + without_nvidia(dxgi));
        }
    }
}

proof fn lemma_nvidia_of_push(gpus: Seq<GpuView>, g: GpuView)
    ensures
        has_nvidia(gpus.push(g)) <==> has_nvidia(gpus) || g.vendor == VendorView::Nvidia,
        gpus.push(g).drop_last() == gpus,
{
    let more = gpus.push(g);
    assert(more.drop_last() =~= gpus);
    if has_nvidia(gpus) {
        let i = choose|i: int|
            0 <= i < gpus.len() && (#[trigger] gpus[i]).vendor == VendorView::Nvidia;
        assert(more[i].vendor == VendorView::Nvidia);
    }
    if g.vendor == VendorView::Nvidia {
        assert(more[gpus.len() as int].vendor == VendorView::Nvidia);
    }
    if has_nvidia(more) {
        let i = choose|i: int|
            0 <= i < more.len() && (#[trigger] more[i]).vendor == VendorView::Nvidia;
        if i < gpus.len() {
            assert(gpus[i].vendor == VendorView::Nvidia);
        }
    }
}

/// What NVIDIA's library reports is taken over as it is, and Apple's memory counts
/// where it reports nothing.
pub proof fn law_first_sources(nvml: Seq<GpuView>, apple: Option<GpuInfo>)
    ensures
        nvml.len() > 0 ==> vendor_gpus(nvml, apple) == nvml,
        nvml.len() == 0 ==> (apple matches Some(g) ==> vendor_gpus(nvml, apple) == seq![g@]),
        nvml.len() == 0 && apple is None ==> vendor_gpus(nvml, apple).len() == 0,
{
}

/// What may be missing is taken as it is where it is there, and as nothing where it
/// is not.
pub proof fn law_missing_reports(g: GpuInfo, gpus: Vec<GpuInfo>, s: String)
    ensures
        gpu_view(Some(g)) == Some(g@),
        gpu_view(None) is None,
        list_or_empty(Some(gpus)) == hardware::gpu_views(gpus@),
        list_or_empty(None).len() == 0,
        text_or_empty(Some(s)) == s@,
        text_or_empty(None).len() == 0,
{
}

} // verus!
