//! The machine as the recommendations see it: processor, memory, and the
//! graphics processors with the memory each can use.

use vstd::prelude::*;
use vstd::string::*;

use crate::outside;
use crate::text;

verus! {

/// Who made a graphics processor.
#[derive(Debug)]
pub enum GpuVendor {
    Nvidia,
    Amd,
    Intel,
    Apple,
    Other(String),
}

/// A detected graphics processor.
#[derive(Debug)]
pub struct GpuInfo {
    pub name: String,
    pub vram_bytes: u64,
    pub vendor: GpuVendor,
    /// True for a chip with memory of its own; false where `vram_bytes` is a
    /// budget borrowed from the system's memory.
    pub dedicated: bool,
}

/// A snapshot of the machine.
#[derive(Debug)]
pub struct HardwareInfo {
    pub cpu_name: String,
    pub cpu_physical_cores: usize,
    pub cpu_logical_cores: usize,
    pub total_ram_bytes: u64,
    pub available_ram_bytes: u64,
    pub gpus: Vec<GpuInfo>,
}

// ---------------------------------------------------------------------------
// Models
// ---------------------------------------------------------------------------

/// A vendor as a mathematical value.
pub enum VendorView {
    Nvidia,
    Amd,
    Intel,
    Apple,
    Other(Seq<char>),
}

impl View for GpuVendor {
    type V = VendorView;

    open spec fn view(&self) -> VendorView {
        match self {
            GpuVendor::Nvidia => VendorView::Nvidia,
            GpuVendor::Amd => VendorView::Amd,
            GpuVendor::Intel => VendorView::Intel,
            GpuVendor::Apple => VendorView::Apple,
            GpuVendor::Other(s) => VendorView::Other(s@),
        }
    }
}

impl VendorView {
    /// The vendor's name as it is shown.
    pub open spec fn shown(self) -> Seq<char> {
        match self {
            VendorView::Nvidia => "NVIDIA"@,
            VendorView::Amd => "AMD"@,
            VendorView::Intel => "Intel"@,
            VendorView::Apple => "Apple Silicon"@,
            VendorView::Other(s) => s,
        }
    }

    /// The vendor behind a PCI vendor id.
    pub open spec fn of_id(vendor_id: u32) -> VendorView {
        if vendor_id == 0x10DE {
            VendorView::Nvidia
        } else if vendor_id == 0x1002 || vendor_id == 0x1022 {
            VendorView::Amd
        } else if vendor_id == 0x8086 {
            VendorView::Intel
        } else {
            VendorView::Other("0x"@ + text::hex4(vendor_id as nat))
        }
    }
}

/// A graphics processor as a mathematical value.
#[verifier::ext_equal]
pub struct GpuView {
    pub name: Seq<char>,
    pub vram_bytes: u64,
    pub vendor: VendorView,
    pub dedicated: bool,
}

impl View for GpuInfo {
    type V = GpuView;

    open spec fn view(&self) -> GpuView {
        GpuView {
            name: self.name@,
            vram_bytes: self.vram_bytes,
            vendor: self.vendor@,
            dedicated: self.dedicated,
        }
    }
}

/// The views of a sequence of graphics processors.
pub open spec fn gpu_views(gpus: Seq<GpuInfo>) -> Seq<GpuView> {
    gpus.map_values(|g: GpuInfo| g@)
}

/// The machine as a mathematical value.
#[verifier::ext_equal]
pub struct HardwareView {
    pub cpu_name: Seq<char>,
    pub cpu_physical_cores: usize,
    pub cpu_logical_cores: usize,
    pub total_ram_bytes: u64,
    pub available_ram_bytes: u64,
    pub gpus: Seq<GpuView>,
}

impl View for HardwareInfo {
    type V = HardwareView;

    open spec fn view(&self) -> HardwareView {
        HardwareView {
            cpu_name: self.cpu_name@,
            cpu_physical_cores: self.cpu_physical_cores,
            cpu_logical_cores: self.cpu_logical_cores,
            total_ram_bytes: self.total_ram_bytes,
            available_ram_bytes: self.available_ram_bytes,
            gpus: gpu_views(self.gpus@),
        }
    }
}

/// The first dedicated graphics processor of a list.
pub open spec fn first_dedicated(gpus: Seq<GpuView>) -> Option<GpuView>
    decreases gpus.len(),
{
    if gpus.len() == 0 {
        None
    } else if gpus[0].dedicated {
        Some(gpus[0])
    } else {
        first_dedicated(gpus.drop_first())
    }
}

/// The memory of all dedicated graphics processors together.
pub open spec fn dedicated_sum(gpus: Seq<GpuView>) -> nat
    decreases gpus.len(),
{
    if gpus.len() == 0 {
        0
    } else {
        dedicated_sum(gpus.drop_last()) + (if gpus.last().dedicated {
            gpus.last().vram_bytes as nat
        } else {
            0
        })
    }
}

impl HardwareView {
    pub open spec fn has_gpu(self) -> bool {
        self.gpus.len() > 0
    }

    pub open spec fn has_dedicated_gpu(self) -> bool {
        first_dedicated(self.gpus) is Some
    }

    /// The memory of the first dedicated graphics processor, else of the first
    /// one, else nothing.
    pub open spec fn primary_vram(self) -> u64 {
        match first_dedicated(self.gpus) {
            Some(g) => g.vram_bytes,
            None => if self.gpus.len() > 0 {
                self.gpus[0].vram_bytes
            } else {
                0
            },
        }
    }

    /// The memory a model has to fit in.
    pub open spec fn model_memory(self) -> u64 {
        if self.has_dedicated_gpu() {
            self.primary_vram()
        } else {
            self.available_ram_bytes
        }
    }

    /// The primary graphics memory as it is shown.
    pub open spec fn vram_shown(self) -> Seq<char> {
        if self.has_gpu() {
            outside::byte_size_text(self.primary_vram())
        } else {
            "No GPU"@
        }
    }
}

/// There is a dedicated graphics processor exactly where one is in the list.
pub proof fn lemma_first_dedicated(gpus: Seq<GpuView>)
    ensures
        first_dedicated(gpus) is Some <==> exists|i: int|
            0 <= i < gpus.len() && #[trigger] gpus[i].dedicated,
        first_dedicated(gpus) matches Some(g) ==> exists|i: int|
            0 <= i < gpus.len() && #[trigger] gpus[i] == g && g.dedicated && forall|j: int|
                0 <= j < i ==> !#[trigger] gpus[j].dedicated,
    decreases gpus.len(),
{
    if gpus.len() > 0 {
        if gpus[0].dedicated {
        } else {
            let rest = gpus.drop_first();
            lemma_first_dedicated(rest);
            if first_dedicated(gpus) is Some {
                let g = first_dedicated(gpus)->0;
                let i = choose|i: int|
                    0 <= i < rest.len() && #[trigger] rest[i] == g && g.dedicated && forall|j: int|
                        0 <= j < i ==> !#[trigger] rest[j].dedicated;
                assert(gpus[i + 1] == g);
                assert forall|j: int| 0 <= j < i + 1 implies !#[trigger] gpus[j].dedicated by {
                    if j > 0 {
                        assert(gpus[j] == rest[j - 1]);
                    }
                }
            } else {
                assert forall|i: int| 0 <= i < gpus.len() implies !#[trigger] gpus[i].dedicated by {
                    if i > 0 {
                        assert(gpus[i] == rest[i - 1]);
                    }
                }
            }
        }
    }
}

proof fn lemma_dedicated_sum_prefix(gpus: Seq<GpuView>, i: int)
    requires
        0 <= i <= gpus.len(),
    ensures
        dedicated_sum(gpus.take(i)) <= dedicated_sum(gpus),
    decreases gpus.len() - i,
{
    if i == gpus.len() {
        assert(gpus.take(i) =~= gpus);
    } else {
        lemma_dedicated_sum_prefix(gpus, i + 1);
        assert(gpus.take(i + 1).drop_last() =~= gpus.take(i));
    }
}

// ---------------------------------------------------------------------------
// Vendors
// ---------------------------------------------------------------------------

impl GpuVendor {
    /// The vendor's name as it is shown.
    pub fn to_string(&self) -> (shown: String)
        ensures
            shown@ == self@.shown(),
    {
        match self {
            GpuVendor::Nvidia => "NVIDIA".to_owned(),
            GpuVendor::Amd => "AMD".to_owned(),
            GpuVendor::Intel => "Intel".to_owned(),
            GpuVendor::Apple => "Apple Silicon".to_owned(),
            GpuVendor::Other(s) => s.clone(),
        }
    }

    /// Whether this is NVIDIA.
    pub fn is_nvidia(&self) -> (r: bool)
        ensures
            r == (self@ == VendorView::Nvidia),
    {
        match self {
            GpuVendor::Nvidia => true,
            _ => false,
        }
    }
}

// What `from` returns is stated on `from` itself, over the vendor's view: a
// string in it is fixed by its characters alone.
impl vstd::std_specs::convert::FromSpecImpl<u32> for GpuVendor {
    open spec fn obeys_from_spec() -> bool {
        false
    }

    open spec fn from_spec(vendor_id: u32) -> GpuVendor {
        GpuVendor::Nvidia
    }
}

/// The vendor behind a PCI vendor id.
impl From<u32> for GpuVendor {
    fn from(vendor_id: u32) -> (vendor: GpuVendor)
        ensures
            vendor@ == VendorView::of_id(vendor_id),
    {
        match vendor_id {
            0x10DE => GpuVendor::Nvidia,
            0x1002 | 0x1022 => GpuVendor::Amd,
            0x8086 => GpuVendor::Intel,
            other => {
                let digits = text::hex4_string(other);
                GpuVendor::Other("0x".to_owned().concat(digits.as_str()))
            },
        }
    }
}

// ---------------------------------------------------------------------------
// Queries
// ---------------------------------------------------------------------------

impl HardwareInfo {
    fn first_dedicated_vram(&self) -> (r: Option<u64>)
        ensures
            match first_dedicated(self@.gpus) {
                Some(g) => r == Some(g.vram_bytes),
                None => r is None,
            },
    {
        assert(self@.gpus.skip(0) =~= self@.gpus);
        for i in 0..self.gpus.len()
            invariant
                first_dedicated(self@.gpus) == first_dedicated(self@.gpus.skip(i as int)),
        {
            assert(self@.gpus.skip(i as int)[0] == self.gpus@[i as int]@);
            assert(self@.gpus.skip(i as int).drop_first() =~= self@.gpus.skip(i + 1));
            if self.gpus[i].dedicated {
                return Some(self.gpus[i].vram_bytes);
            }
        }
        None
    }

    /// The best graphics memory there is: a dedicated processor's where one is
    /// present, even if it is not the first in the list, else the first one's
    /// shared figure, else 0.
    pub fn primary_vram_bytes(&self) -> (bytes: u64)
        ensures
            bytes == self@.primary_vram(),
    {
        match self.first_dedicated_vram() {
            Some(bytes) => bytes,
            None => if self.gpus.len() > 0 {
                self.gpus[0].vram_bytes
            } else {
                0
            },
        }
    }

    /// The memory of all dedicated graphics processors together.
    pub fn total_dedicated_vram_bytes(&self) -> (bytes: u64)
        requires
            dedicated_sum(self@.gpus) <= u64::MAX,
        ensures
            bytes == dedicated_sum(self@.gpus),
    {
        let mut sum: u64 = 0;
        for i in 0..self.gpus.len()
            invariant
                dedicated_sum(self@.gpus) <= u64::MAX,
                sum == dedicated_sum(self@.gpus.take(i as int)),
        {
            proof {
                lemma_dedicated_sum_prefix(self@.gpus, i + 1);
                assert(self@.gpus.take(i + 1).drop_last() =~= self@.gpus.take(i as int));
                assert(self@.gpus.take(i + 1).last() == self.gpus@[i as int]@);
            }
            if self.gpus[i].dedicated {
                sum = sum + self.gpus[i].vram_bytes;
            }
        }
        assert(self@.gpus.take(self.gpus@.len() as int) =~= self@.gpus);
        sum
    }

    /// Whether there is a graphics processor.
    pub fn has_gpu(&self) -> (r: bool)
        ensures
            r == self@.has_gpu(),
    {
        self.gpus.len() > 0
    }

    /// Whether there is a dedicated graphics processor.
    pub fn has_dedicated_gpu(&self) -> (r: bool)
        ensures
            r == self@.has_dedicated_gpu(),
    {
        self.first_dedicated_vram().is_some()
    }

    /// The memory that models are judged against: dedicated graphics memory
    /// where there is some, else the available system memory. A shared
    /// processor's memory is not counted, since it comes out of that same pool.
    pub fn model_memory_bytes(&self) -> (bytes: u64)
        ensures
            bytes == self@.model_memory(),
    {
        if self.has_dedicated_gpu() {
            self.primary_vram_bytes()
        } else {
            self.available_ram_bytes
        }
    }

    /// The total memory as it is shown.
    pub fn ram_display(&self) -> (shown: String)
        ensures
            shown@ == outside::byte_size_text(self.total_ram_bytes),
    {
        outside::byte_size(self.total_ram_bytes)
    }

    /// The available memory as it is shown.
    pub fn available_ram_display(&self) -> (shown: String)
        ensures
            shown@ == outside::byte_size_text(self.available_ram_bytes),
    {
        outside::byte_size(self.available_ram_bytes)
    }

    /// The primary graphics memory as it is shown.
    pub fn vram_display(&self) -> (shown: String)
        ensures
            shown@ == self@.vram_shown(),
    {
        if self.has_gpu() {
            outside::byte_size(self.primary_vram_bytes())
        } else {
            "No GPU".to_owned()
        }
    }
}

// ---------------------------------------------------------------------------
// Laws
// ---------------------------------------------------------------------------

/// The memory of a shared graphics processor never enters the budget: without
/// a dedicated one the budget is the available memory, whatever else is listed.
pub proof fn law_shared_memory_is_not_counted(hw: HardwareView)
    requires
        forall|i: int| 0 <= i < hw.gpus.len() ==> !#[trigger] hw.gpus[i].dedicated,
    ensures
        hw.model_memory() == hw.available_ram_bytes,
        dedicated_sum(hw.gpus) == 0,
    decreases hw.gpus.len(),
{
    lemma_first_dedicated(hw.gpus);
    if hw.gpus.len() > 0 {
        let fewer = HardwareView { gpus: hw.gpus.drop_last(), ..hw };
        assert forall|i: int| 0 <= i < fewer.gpus.len() implies !#[trigger] fewer.gpus[i].dedicated by {
            assert(fewer.gpus[i] == hw.gpus[i]);
        }
        law_shared_memory_is_not_counted(fewer);
    }
}

/// A dedicated graphics processor decides the budget wherever it stands in the
/// list: shared ones in front of it change nothing.
pub proof fn law_dedicated_wins_over_shared(hw: HardwareView, shared: GpuView)
    requires
        !shared.dedicated,
        hw.has_dedicated_gpu(),
    ensures
        ({
            let more = HardwareView { gpus: seq![shared] + hw.gpus, ..hw };
            more.primary_vram() == hw.primary_vram() && more.model_memory() == hw.model_memory()
        }),
{
    let more = seq![shared] + hw.gpus;
    assert(more.drop_first() =~= hw.gpus);
    assert(more[0] == shared);
}

/// The memory that counts is that of the first dedicated graphics processor; where
/// there is none, that of the first one; and without any it is nothing. Models
/// have to fit in the first of these, or else in the available memory.
pub proof fn law_memory_that_counts(hw: HardwareView, i: int)
    ensures
        hw.has_gpu() <==> hw.gpus.len() > 0,
        hw.has_dedicated_gpu() <==> exists|k: int|
            0 <= k < hw.gpus.len() && #[trigger] hw.gpus[k].dedicated,
        0 <= i < hw.gpus.len() && hw.gpus[i].dedicated && (forall|j: int|
            0 <= j < i ==> !#[trigger] hw.gpus[j].dedicated) ==> hw.primary_vram()
            == hw.gpus[i].vram_bytes && hw.model_memory() == hw.gpus[i].vram_bytes,
        (forall|j: int| 0 <= j < hw.gpus.len() ==> !#[trigger] hw.gpus[j].dedicated)
            ==> hw.model_memory() == hw.available_ram_bytes && (hw.gpus.len() > 0
            ==> hw.primary_vram() == hw.gpus[0].vram_bytes),
        hw.gpus.len() == 0 ==> hw.primary_vram() == 0,
{
    lemma_first_dedicated(hw.gpus);
    if 0 <= i < hw.gpus.len() && hw.gpus[i].dedicated && (forall|j: int|
        0 <= j < i ==> !#[trigger] hw.gpus[j].dedicated) {
        let g = first_dedicated(hw.gpus)->0;
        let k = choose|k: int|
            0 <= k < hw.gpus.len() && #[trigger] hw.gpus[k] == g && g.dedicated && forall|j: int|
                0 <= j < k ==> !#[trigger] hw.gpus[j].dedicated;
        assert(k == i);
    }
}

/// The dedicated memory of two lists together is that of each; a single processor
/// counts what it has, where it is dedicated.
pub proof fn law_dedicated_memory_adds_up(a: Seq<GpuView>, b: Seq<GpuView>, g: GpuView)
    ensures
        dedicated_sum(a + b) == dedicated_sum(a) + dedicated_sum(b),
        dedicated_sum(seq![g]) == (if g.dedicated {
            g.vram_bytes as nat
        } else {
            0nat
        }),
        dedicated_sum(Seq::empty()) == 0,
    decreases b.len(),
{
    if b.len() == 0 {
        assert(a + b =~= a);
    } else {
        assert((a + b).drop_last() =~= a + b.drop_last());
        law_dedicated_memory_adds_up(a, b.drop_last(), g);
    }
    assert(seq![g].drop_last() =~= Seq::empty());
    assert(dedicated_sum(seq![g].drop_last()) == 0);
    assert(seq![g].last() == g);
}

/// The four vendors that are known by their PCI ids, and how each is shown. Any
/// other is shown by its id in hexadecimal.
pub proof fn law_vendors(vendor_id: u32, name: Seq<char>)
    ensures
        VendorView::of_id(vendor_id) == VendorView::Nvidia <==> vendor_id == 4318,
        VendorView::of_id(vendor_id) == VendorView::Amd <==> vendor_id == 4098 || vendor_id == 4130,
        VendorView::of_id(vendor_id) == VendorView::Intel <==> vendor_id == 32902,
        VendorView::of_id(vendor_id) != VendorView::Apple,
        VendorView::of_id(vendor_id) matches VendorView::Other(shown) ==> shown.len() >= 6
            && shown.take(2) == "0x"@ && text::hex_value(shown.skip(2)) == vendor_id,
        VendorView::Nvidia.shown() == "NVIDIA"@,
        VendorView::Amd.shown() == "AMD"@,
        VendorView::Intel.shown() == "Intel"@,
        VendorView::Apple.shown() == "Apple Silicon"@,
        VendorView::Other(name).shown() == name,
{
    reveal_strlit("0x");
    text::law_hex_reads_back(vendor_id as nat);
    if let VendorView::Other(shown) = VendorView::of_id(vendor_id) {
        assert(shown.take(2) =~= "0x"@);
        assert(shown.skip(2) =~= text::hex4(vendor_id as nat));
    }
}

/// The graphics memory is shown as the size of what counts, or as missing where
/// there is no graphics processor.
pub proof fn law_graphics_memory_is_shown(hw: HardwareView)
    ensures
        hw.gpus.len() > 0 ==> hw.vram_shown() == outside::byte_size_text(hw.primary_vram()),
        hw.gpus.len() == 0 ==> hw.vram_shown() == "No GPU"@,
{
}

/// What the contracts speak of are the fields themselves.
pub proof fn law_views_hold_the_fields(hw: HardwareInfo, g: GpuInfo, gpus: Seq<GpuInfo>, i: int)
    ensures
        g@.name == g.name@,
        g@.vram_bytes == g.vram_bytes,
        g@.dedicated == g.dedicated,
        g@.vendor == g.vendor@,
        g.vendor is Nvidia <==> g.vendor@ == VendorView::Nvidia,
        g.vendor is Amd <==> g.vendor@ == VendorView::Amd,
        g.vendor is Intel <==> g.vendor@ == VendorView::Intel,
        g.vendor is Apple <==> g.vendor@ == VendorView::Apple,
        g.vendor matches GpuVendor::Other(s) ==> g.vendor@ == VendorView::Other(s@),
        gpu_views(gpus).len() == gpus.len(),
        0 <= i < gpus.len() ==> gpu_views(gpus)[i] == gpus[i]@,
        hw@.cpu_name == hw.cpu_name@,
        hw@.cpu_physical_cores == hw.cpu_physical_cores,
        hw@.cpu_logical_cores == hw.cpu_logical_cores,
        hw@.total_ram_bytes == hw.total_ram_bytes,
        hw@.available_ram_bytes == hw.available_ram_bytes,
        hw@.gpus == gpu_views(hw.gpus@),
{
}

} // verus!
