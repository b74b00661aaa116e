//! The recommended llama.cpp parameters for a machine and, where one is chosen,
//! a model, each with the reason for its value.

use vstd::prelude::*;
use vstd::string::*;

use crate::hardware::{HardwareInfo, HardwareView};
#[allow(unused_imports)]
use crate::outside;
use crate::share;
use crate::text;

verus! {

/// 2^30 bytes.
pub const GB: u64 = 1_073_741_824;

/// 2^20 bytes.
pub const MB: u64 = 1_048_576;

/// A set of llama.cpp parameters.
#[derive(Debug)]
pub struct LlamaCppParams {
    /// Number of layers on the graphics processor; -1 for all of them.
    pub n_gpu_layers: i32,
    /// Context window in tokens.
    pub ctx_size: u32,
    /// Threads on the processor.
    pub threads: u32,
    /// Batch size for prompts.
    pub batch_size: u32,
    /// Micro-batch size.
    pub ubatch_size: u32,
    /// Whether the model file is mapped into memory.
    pub use_mmap: bool,
    /// Whether the model is locked into memory.
    pub use_mlock: bool,
    /// Whether flash attention is used.
    pub flash_attn: bool,
    /// The reasons for the values, in words.
    pub rationale: Vec<String>,
}

/// What a model needs, as far as the number of offloaded layers depends on it.
#[derive(Debug)]
pub struct ModelRequirements {
    /// Size of the model file in bytes.
    pub file_size_bytes: u64,
    /// Number of layers.
    pub num_layers: u32,
    /// Label of the quantization.
    pub quantization: String,
}

// ---------------------------------------------------------------------------
// Models
// ---------------------------------------------------------------------------

/// A set of parameters as a mathematical value.
#[verifier::ext_equal]
pub struct ParamsView {
    pub n_gpu_layers: i32,
    pub ctx_size: u32,
    pub threads: u32,
    pub batch_size: u32,
    pub ubatch_size: u32,
    pub use_mmap: bool,
    pub use_mlock: bool,
    pub flash_attn: bool,
    pub rationale: Seq<Seq<char>>,
}

impl View for LlamaCppParams {
    type V = ParamsView;

    open spec fn view(&self) -> ParamsView {
        ParamsView {
            n_gpu_layers: self.n_gpu_layers,
            ctx_size: self.ctx_size,
            threads: self.threads,
            batch_size: self.batch_size,
            ubatch_size: self.ubatch_size,
            use_mmap: self.use_mmap,
            use_mlock: self.use_mlock,
            flash_attn: self.flash_attn,
            rationale: text::texts(self.rationale@),
        }
    }
}

/// What a model needs, as a mathematical value.
#[verifier::ext_equal]
pub struct RequirementsView {
    pub file_size_bytes: u64,
    pub num_layers: u32,
    pub quantization: Seq<char>,
}

impl View for ModelRequirements {
    type V = RequirementsView;

    open spec fn view(&self) -> RequirementsView {
        RequirementsView {
            file_size_bytes: self.file_size_bytes,
            num_layers: self.num_layers,
            quantization: self.quantization@,
        }
    }
}

/// The view of requirements that may be missing.
pub open spec fn requirements_view(model: Option<&ModelRequirements>) -> Option<RequirementsView> {
    match model {
        Some(m) => Some(m@),
        None => None,
    }
}

impl RequirementsView {
    /// Bytes of the file per layer; all of them where the layers are unknown.
    pub open spec fn layer_bytes(self) -> u64 {
        if self.num_layers == 0 {
            self.file_size_bytes
        } else {
            self.file_size_bytes / self.num_layers as u64
        }
    }

    /// Memory for the key-value cache: half a megabyte for every layer and
    /// every 1024 tokens of context.
    pub open spec fn cache_bytes(self, ctx_size: u32) -> nat {
        (self.num_layers as nat) * (ctx_size as nat / 1024) * 512 * 1024
    }
}

/// The context size for the graphics memory, or else the system's memory.
pub open spec fn context_for(vram: u64, ram: u64) -> u32 {
    if vram >= 24 * GB {
        32768
    } else if vram >= 16 * GB {
        16384
    } else if vram >= 8 * GB {
        8192
    } else if vram >= 4 * GB {
        4096
    } else if ram >= 32 * GB {
        8192
    } else if ram >= 16 * GB {
        4096
    } else {
        2048
    }
}

/// The batch size for the memory there is.
pub open spec fn batch_for(vram: u64, ram: u64) -> u32 {
    if vram >= 8 * GB || ram >= 32 * GB {
        2048
    } else {
        512
    }
}

/// How many layers fit beside the cache in nine tenths of the graphics memory.
pub open spec fn layers_that_fit(vram: u64, m: RequirementsView, ctx_size: u32) -> i32 {
    ((share::nine_tenths(vram as nat) - m.cache_bytes(ctx_size)) / (m.layer_bytes() as int)) as i32
}

/// The number of layers to offload for a model.
pub open spec fn offload(vram: u64, m: RequirementsView, ctx_size: u32) -> i32 {
    if m.layer_bytes() == 0 {
        (-1int) as i32
    } else if share::nine_tenths(vram as nat) < m.cache_bytes(ctx_size) {
        0
    } else if layers_that_fit(vram, m, ctx_size) >= m.num_layers as i32 {
        m.num_layers as i32
    } else {
        layers_that_fit(vram, m, ctx_size)
    }
}

/// The reasons for the number of layers to offload for a model.
pub open spec fn offload_reasons(
    vram: u64,
    vram_shown: Seq<char>,
    m: RequirementsView,
    ctx_size: u32,
) -> Seq<Seq<char>> {
    let size = "Layer size estimated from "@ + m.quantization + " quantization: ~"@ + text::decimal(
        (m.layer_bytes() / MB) as nat,
    ) + "MB/layer"@;
    let total = m.num_layers as i32;
    let fit = layers_that_fit(vram, m, ctx_size);
    let verdict = if m.layer_bytes() == 0 {
        "--n-gpu-layers -1: no per-layer data; offloading all"@
    } else if share::nine_tenths(vram as nat) < m.cache_bytes(ctx_size) {
        "--n-gpu-layers 0: insufficient VRAM ("@ + vram_shown + ") even for KV cache (~"@
            + text::decimal(m.cache_bytes(ctx_size) / MB as nat) + "MB)"@
    } else if fit >= total {
        "--n-gpu-layers "@ + text::signed_decimal(total as int) + ": full model fits in VRAM ("@
            + vram_shown + ")"@
    } else {
        "--n-gpu-layers "@ + text::signed_decimal(fit as int) + ": partial offload — "@
            + text::signed_decimal(fit as int) + "/"@ + text::signed_decimal(total as int)
            + " layers fit in "@ + vram_shown
    };
    seq![size, verdict]
}

/// The number of layers to offload.
pub open spec fn layers_for(hw: HardwareView, model: Option<RequirementsView>) -> i32 {
    if !hw.has_gpu() {
        0
    } else {
        match model {
            Some(m) => offload(
                hw.primary_vram(),
                m,
                context_for(hw.primary_vram(), hw.available_ram_bytes),
            ),
            None => (-1int) as i32,
        }
    }
}

/// The reasons for the number of layers to offload.
pub open spec fn layer_reasons(
    hw: HardwareView,
    model: Option<RequirementsView>,
    vram_shown: Seq<char>,
) -> Seq<Seq<char>> {
    if !hw.has_gpu() {
        seq!["--n-gpu-layers 0: no GPU detected, running CPU-only"@]
    } else {
        match model {
            Some(m) => offload_reasons(
                hw.primary_vram(),
                vram_shown,
                m,
                context_for(hw.primary_vram(), hw.available_ram_bytes),
            ),
            None => seq!["--n-gpu-layers -1: offload all layers (adjust down if you get OOM)"@],
        }
    }
}

/// A note on graphics memory that is shared with the system.
pub open spec fn shared_memory_note() -> Seq<char> {
    "Note: GPU memory is shared with system RAM (integrated graphics) — offload only helps if your llama.cpp build has GPU backend support (Vulkan/Metal/etc.); a CPU-only build ignores -ngl"@
}

/// All the reasons, in the order in which they are shown.
pub open spec fn reasons(
    hw: HardwareView,
    model: Option<RequirementsView>,
    vram_shown: Seq<char>,
    ram_shown: Seq<char>,
) -> Seq<Seq<char>> {
    let threads = text::decimal(hw.cpu_physical_cores as u32 as nat);
    let vram = hw.primary_vram();
    let ram = hw.available_ram_bytes;
    let layers = layers_for(hw, model);
    let batch = batch_for(vram, ram);
    let head = seq![
        "--threads "@ + threads + ": matches your "@ + threads
            + " physical CPU cores for best throughput"@,
        "--ctx-size "@ + text::decimal(context_for(vram, ram) as nat)
            + ": balanced for your VRAM ("@ + vram_shown + ") / RAM ("@ + ram_shown + ")"@,
    ];
    let note = if hw.has_gpu() && !hw.has_dedicated_gpu() && layers != 0 {
        seq![shared_memory_note()]
    } else {
        Seq::empty()
    };
    let batches = seq![
        "--batch-size "@ + text::decimal(batch as nat) + " --ubatch-size "@ + text::decimal(
            (batch / 4) as nat,
        ) + ": optimizes prompt throughput"@,
    ];
    let lock = if ram >= 16 * GB && layers == 0 {
        seq!["--mlock: enough RAM to keep model pages locked (CPU-only mode)"@]
    } else {
        Seq::empty()
    };
    let flash = if hw.has_gpu() && layers != 0 {
        seq!["--flash-attn: reduces VRAM usage for KV cache on GPU"@]
    } else {
        Seq::empty()
    };
    head + layer_reasons(hw, model, vram_shown) + note + batches + lock + flash
}

/// The parameters for a machine and a model, given how the machine's memory is
/// shown.
pub open spec fn params_described(
    hw: HardwareView,
    model: Option<RequirementsView>,
    vram_shown: Seq<char>,
    ram_shown: Seq<char>,
) -> ParamsView {
    let vram = hw.primary_vram();
    let ram = hw.available_ram_bytes;
    let layers = layers_for(hw, model);
    ParamsView {
        n_gpu_layers: layers,
        ctx_size: context_for(vram, ram),
        threads: hw.cpu_physical_cores as u32,
        batch_size: batch_for(vram, ram),
        ubatch_size: (batch_for(vram, ram) / 4) as u32,
        use_mmap: true,
        use_mlock: ram >= 16 * GB && layers == 0,
        flash_attn: hw.has_gpu() && layers != 0,
        rationale: reasons(hw, model, vram_shown, ram_shown),
    }
}

/// The parameters for a machine and a model.
pub open spec fn params_for(hw: HardwareView, model: Option<RequirementsView>) -> ParamsView {
    params_described(hw, model, hw.vram_shown(), outside::byte_size_text(hw.total_ram_bytes))
}

/// What stands between two lines of the command line as it is shown: a space, a
/// backslash, the end of the line, and an indentation.
pub open spec fn line_break() -> Seq<char> {
    " \\\n  "@
}

impl ParamsView {
    /// The flags without a value.
    pub open spec fn switches(self) -> Seq<Seq<char>> {
        let mmap = if !self.use_mmap {
            seq!["--no-mmap"@]
        } else {
            Seq::empty()
        };
        let mlock = if self.use_mlock {
            seq!["--mlock"@]
        } else {
            Seq::empty()
        };
        let flash = if self.flash_attn {
            seq!["--flash-attn"@]
        } else {
            Seq::empty()
        };
        mmap + mlock + flash
    }

    /// The flags with a value, and the values, one after the other.
    pub open spec fn valued_args(self) -> Seq<Seq<char>> {
        seq![
            "--n-gpu-layers"@,
            text::signed_decimal(self.n_gpu_layers as int),
            "--ctx-size"@,
            text::decimal(self.ctx_size as nat),
            "--threads"@,
            text::decimal(self.threads as nat),
            "--batch-size"@,
            text::decimal(self.batch_size as nat),
            "--ubatch-size"@,
            text::decimal(self.ubatch_size as nat),
        ]
    }

    /// The arguments of a command line.
    pub open spec fn cli_args(self) -> Seq<Seq<char>> {
        self.valued_args() + self.switches()
    }

    /// The flags with a value, each with its value in one text.
    pub open spec fn valued_lines(self) -> Seq<Seq<char>> {
        seq![
            "--n-gpu-layers "@ + text::signed_decimal(self.n_gpu_layers as int),
            "--ctx-size "@ + text::decimal(self.ctx_size as nat),
            "--threads "@ + text::decimal(self.threads as nat),
            "--batch-size "@ + text::decimal(self.batch_size as nat),
            "--ubatch-size "@ + text::decimal(self.ubatch_size as nat),
        ]
    }

    /// The lines of the command line as it is shown.
    pub open spec fn cli_lines(self) -> Seq<Seq<char>> {
        self.valued_lines() + self.switches()
    }
}

// ---------------------------------------------------------------------------
// Command lines
// ---------------------------------------------------------------------------

impl LlamaCppParams {
    fn push_switches(&self, args: &mut Vec<String>)
        ensures
            text::texts(final(args)@) == text::texts(old(args)@) + self@.switches(),
    {
        if !self.use_mmap {
            text::push_text(args, "--no-mmap".to_owned());
        }
        if self.use_mlock {
            text::push_text(args, "--mlock".to_owned());
        }
        if self.flash_attn {
            text::push_text(args, "--flash-attn".to_owned());
        }
        assert(text::texts(args@) =~= text::texts(old(args)@) + self@.switches());
    }

    /// The command line as it is shown, one flag to a line.
    pub fn to_cli_string(&self) -> (shown: String)
        ensures
            shown@ == text::joined(self@.cli_lines(), line_break()),
    {
        let mut args: Vec<String> = Vec::new();
        let layers = text::signed_decimal_string(self.n_gpu_layers);
        text::push_text(&mut args, "--n-gpu-layers ".to_owned().concat(layers.as_str()));
        let ctx = text::decimal_string(self.ctx_size as u64);
        text::push_text(&mut args, "--ctx-size ".to_owned().concat(ctx.as_str()));
        let threads = text::decimal_string(self.threads as u64);
        text::push_text(&mut args, "--threads ".to_owned().concat(threads.as_str()));
        let batch = text::decimal_string(self.batch_size as u64);
        text::push_text(&mut args, "--batch-size ".to_owned().concat(batch.as_str()));
        let ubatch = text::decimal_string(self.ubatch_size as u64);
        text::push_text(&mut args, "--ubatch-size ".to_owned().concat(ubatch.as_str()));
        assert(text::texts(args@) =~= self@.valued_lines());
        self.push_switches(&mut args);
        text::join(&args, " \\\n  ")
    }

    /// The arguments of the command line, a flag and its value apart.
    pub fn to_cli_args(&self) -> (args: Vec<String>)
        ensures
            text::texts(args@) == self@.cli_args(),
    {
        let mut args: Vec<String> = Vec::new();
        text::push_text(&mut args, "--n-gpu-layers".to_owned());
        text::push_text(&mut args, text::signed_decimal_string(self.n_gpu_layers));
        text::push_text(&mut args, "--ctx-size".to_owned());
        text::push_text(&mut args, text::decimal_string(self.ctx_size as u64));
        text::push_text(&mut args, "--threads".to_owned());
        text::push_text(&mut args, text::decimal_string(self.threads as u64));
        text::push_text(&mut args, "--batch-size".to_owned());
        text::push_text(&mut args, text::decimal_string(self.batch_size as u64));
        text::push_text(&mut args, "--ubatch-size".to_owned());
        text::push_text(&mut args, text::decimal_string(self.ubatch_size as u64));
        assert(text::texts(args@) =~= self@.valued_args());
        self.push_switches(&mut args);
        args
    }
}

// ---------------------------------------------------------------------------
// Requirements
// ---------------------------------------------------------------------------

impl ModelRequirements {
    /// Bytes of the file per layer; all of them where the layers are unknown.
    pub fn bytes_per_layer(&self) -> (bytes: u64)
        ensures
            bytes == self@.layer_bytes(),
    {
        if self.num_layers == 0 {
            return self.file_size_bytes;
        }
        self.file_size_bytes / self.num_layers as u64
    }

    /// An estimate of the memory that the key-value cache takes for a context.
    pub fn kv_cache_bytes(&self, ctx_size: u32) -> (bytes: u64)
        requires
            self@.cache_bytes(ctx_size) <= u64::MAX,
        ensures
            bytes == self@.cache_bytes(ctx_size),
    {
        proof {
            let n = self.num_layers as int;
            let c = ctx_size as int / 1024;
            assert(0 <= n * c) by (nonlinear_arith)
                requires
                    n >= 0,
                    c >= 0,
            ;
        }
        (self.num_layers as u64) * (ctx_size as u64 / 1024) * 512 * 1024
    }
}

// ---------------------------------------------------------------------------
// Recommendations
// ---------------------------------------------------------------------------

/// The number of layers to offload for a model, given the graphics memory and
/// how it is shown; the reasons are appended.
pub fn offload_described(
    vram: u64,
    vram_shown: &str,
    model: &ModelRequirements,
    ctx_size: u32,
    rationale: &mut Vec<String>,
) -> (layers: i32)
    requires
        model@.layer_bytes() > 0 ==> model@.cache_bytes(ctx_size) <= u64::MAX,
    ensures
        layers == offload(vram, model@, ctx_size),
        text::texts(final(rationale)@) == text::texts(old(rationale)@) + offload_reasons(
            vram,
            vram_shown@,
            model@,
            ctx_size,
        ),
{
    let ghost before = text::texts(rationale@);
    let bytes_per_layer = model.bytes_per_layer();
    let size = text::decimal_string(bytes_per_layer / MB);
    text::push_text(
        rationale,
        "Layer size estimated from ".to_owned().concat(model.quantization.as_str()).concat(
            " quantization: ~",
        ).concat(size.as_str()).concat("MB/layer"),
    );
    let ghost expected = before + offload_reasons(vram, vram_shown@, model@, ctx_size);

    if bytes_per_layer == 0 {
        text::push_text(
            rationale,
            "--n-gpu-layers -1: no per-layer data; offloading all".to_owned(),
        );
        assert(text::texts(rationale@) =~= expected);
        return -1;
    }
    let kv_cache = model.kv_cache_bytes(ctx_size);
    let usable_vram = share::usable_share(vram);

    if usable_vram < kv_cache {
        let cache = text::decimal_string(kv_cache / MB);
        text::push_text(
            rationale,
            "--n-gpu-layers 0: insufficient VRAM (".to_owned().concat(vram_shown).concat(
                ") even for KV cache (~",
            ).concat(cache.as_str()).concat("MB)"),
        );
        assert(text::texts(rationale@) =~= expected);
        return 0;
    }
    let vram_for_weights: u64 = usable_vram - kv_cache;
    let max_layers: i32 = (vram_for_weights / bytes_per_layer) as i32;
    let total_layers: i32 = model.num_layers as i32;
    let total = text::signed_decimal_string(total_layers);
    assert(max_layers == layers_that_fit(vram, model@, ctx_size));

    if max_layers >= total_layers {
        text::push_text(
            rationale,
            "--n-gpu-layers ".to_owned().concat(total.as_str()).concat(
                ": full model fits in VRAM (",
            ).concat(vram_shown).concat(")"),
        );
        assert(text::texts(rationale@) =~= expected);
        total_layers
    } else {
        let fit = text::signed_decimal_string(max_layers);
        text::push_text(
            rationale,
            "--n-gpu-layers ".to_owned().concat(fit.as_str()).concat(": partial offload — ").concat(
                fit.as_str(),
            ).concat("/").concat(total.as_str()).concat(" layers fit in ").concat(vram_shown),
        );
        assert(text::texts(rationale@) =~= expected);
        max_layers
    }
}

/// The number of layers to offload for a model; the reasons are appended.
pub fn compute_gpu_layers(
    hw: &HardwareInfo,
    model: &ModelRequirements,
    ctx_size: u32,
    rationale: &mut Vec<String>,
) -> (layers: i32)
    requires
        model@.layer_bytes() > 0 ==> model@.cache_bytes(ctx_size) <= u64::MAX,
    ensures
        layers == offload(hw@.primary_vram(), model@, ctx_size),
        text::texts(final(rationale)@) == text::texts(old(rationale)@) + offload_reasons(
            hw@.primary_vram(),
            hw@.vram_shown(),
            model@,
            ctx_size,
        ),
{
    let vram_shown = hw.vram_display();
    offload_described(hw.primary_vram_bytes(), vram_shown.as_str(), model, ctx_size, rationale)
}

/// The context size for the graphics memory, or else the system's memory.
fn choose_context(vram: u64, ram: u64) -> (ctx_size: u32)
    ensures
        ctx_size == context_for(vram, ram),
{
    if vram >= 24 * GB {
        32768
    } else if vram >= 16 * GB {
        16384
    } else if vram >= 8 * GB {
        8192
    } else if vram >= 4 * GB {
        4096
    } else if ram >= 32 * GB {
        8192
    } else if ram >= 16 * GB {
        4096
    } else {
        2048
    }
}

/// The parameters for a machine and a model, given how the machine's memory is
/// shown.
pub fn compute_described(
    hw: &HardwareInfo,
    model: Option<&ModelRequirements>,
    vram_shown: &str,
    ram_shown: &str,
) -> (params: LlamaCppParams)
    ensures
        params@ == params_described(hw@, requirements_view(model), vram_shown@, ram_shown@),
{
    let ghost m = requirements_view(model);
    let ghost all = reasons(hw@, m, vram_shown@, ram_shown@);
    let mut rationale: Vec<String> = Vec::new();

    let threads: u32 = hw.cpu_physical_cores as u32;
    let threads_text = text::decimal_string(threads as u64);
    text::push_text(
        &mut rationale,
        "--threads ".to_owned().concat(threads_text.as_str()).concat(": matches your ").concat(
            threads_text.as_str(),
        ).concat(" physical CPU cores for best throughput"),
    );

    let vram = hw.primary_vram_bytes();
    let ram = hw.available_ram_bytes;
    let ctx_size: u32 = choose_context(vram, ram);
    let ctx_text = text::decimal_string(ctx_size as u64);
    text::push_text(
        &mut rationale,
        "--ctx-size ".to_owned().concat(ctx_text.as_str()).concat(
            ": balanced for your VRAM (",
        ).concat(vram_shown).concat(") / RAM (").concat(ram_shown).concat(")"),
    );
    let ghost head = text::texts(rationale@);

    let n_gpu_layers: i32 = if !hw.has_gpu() {
        text::push_text(
            &mut rationale,
            "--n-gpu-layers 0: no GPU detected, running CPU-only".to_owned(),
        );
        0
    } else if let Some(m) = model {
        assert(m@.cache_bytes(ctx_size) <= u64::MAX) by {
            let n = m.num_layers as int;
            let c = ctx_size as int / 1024;
            assert(n * c <= 0x1_0000_0000 * 32) by (nonlinear_arith)
                requires
                    0 <= n <= 0x1_0000_0000,
                    0 <= c <= 32,
            ;
        }
        offload_described(vram, vram_shown, m, ctx_size, &mut rationale)
    } else {
        text::push_text(
            &mut rationale,
            "--n-gpu-layers -1: offload all layers (adjust down if you get OOM)".to_owned(),
        );
        -1
    };
    assert(text::texts(rationale@) =~= head + layer_reasons(hw@, m, vram_shown@));

    if hw.has_gpu() && !hw.has_dedicated_gpu() && n_gpu_layers != 0 {
        text::push_text(
            &mut rationale,
            "Note: GPU memory is shared with system RAM (integrated graphics) — offload only helps if your llama.cpp build has GPU backend support (Vulkan/Metal/etc.); a CPU-only build ignores -ngl".to_owned(),
        );
    }

    let batch_size: u32 = if vram >= 8 * GB || ram >= 32 * GB {
        2048
    } else {
        512
    };
    let ubatch_size: u32 = batch_size / 4;
    let batch_text = text::decimal_string(batch_size as u64);
    let ubatch_text = text::decimal_string(ubatch_size as u64);
    text::push_text(
        &mut rationale,
        "--batch-size ".to_owned().concat(batch_text.as_str()).concat(" --ubatch-size ").concat(
            ubatch_text.as_str(),
        ).concat(": optimizes prompt throughput"),
    );

    let use_mlock = ram >= 16 * GB && n_gpu_layers == 0;
    if use_mlock {
        text::push_text(
            &mut rationale,
            "--mlock: enough RAM to keep model pages locked (CPU-only mode)".to_owned(),
        );
    }
    let flash_attn = hw.has_gpu() && n_gpu_layers != 0;
    if flash_attn {
        text::push_text(
            &mut rationale,
            "--flash-attn: reduces VRAM usage for KV cache on GPU".to_owned(),
        );
    }
    assert(text::texts(rationale@) =~= all);

    LlamaCppParams {
        n_gpu_layers,
        ctx_size,
        threads,
        batch_size,
        ubatch_size,
        use_mmap: true,
        use_mlock,
        flash_attn,
        rationale,
    }
}

/// The parameters for a machine, with the number of layers to offload for a
/// model where one is given.
pub fn compute(hw: &HardwareInfo, model: Option<&ModelRequirements>) -> (params: LlamaCppParams)
    ensures
        params@ == params_for(hw@, requirements_view(model)),
{
    let vram_shown = hw.vram_display();
    let ram_shown = hw.ram_display();
    compute_described(hw, model, vram_shown.as_str(), ram_shown.as_str())
}

// ---------------------------------------------------------------------------
// Laws
// ---------------------------------------------------------------------------

/// What holds of every recommendation: the micro-batch is a quarter of the
/// batch; the file is mapped; nothing is offloaded without a graphics
/// processor; flash attention goes with offloading and memory locking with its
/// absence, so the two never come together.
pub proof fn law_recommendation_is_coherent(hw: HardwareView, model: Option<RequirementsView>)
    ensures
        ({
            let p = params_for(hw, model);
            &&& p.batch_size == 4 * p.ubatch_size
            &&& p.use_mmap
            &&& !hw.has_gpu() ==> p.n_gpu_layers == 0
            &&& p.flash_attn <==> p.n_gpu_layers != 0
            &&& p.use_mlock ==> p.n_gpu_layers == 0
            &&& !(p.flash_attn && p.use_mlock)
        }),
{
}

/// The numbers of a recommendation do not depend on how memory is shown.
pub proof fn law_numbers_do_not_depend_on_the_display(
    hw: HardwareView,
    model: Option<RequirementsView>,
    vram_shown: Seq<char>,
    ram_shown: Seq<char>,
)
    ensures
        ({
            let p = params_described(hw, model, vram_shown, ram_shown);
            p == ParamsView { rationale: p.rationale, ..params_for(hw, model) }
        }),
{
}

/// The layers that are offloaded fit: together with the cache they take at most
/// nine tenths of the graphics memory, and they are no more than the model has.
/// Counts of layers beyond the range of the parameter are left out.
pub proof fn law_offloaded_layers_fit(vram: u64, m: RequirementsView, ctx_size: u32)
    requires
        m.layer_bytes() > 0,
        m.num_layers <= i32::MAX,
        share::nine_tenths(vram as nat) / (m.layer_bytes() as nat) <= i32::MAX,
    ensures
        0 <= offload(vram, m, ctx_size) <= m.num_layers,
        offload(vram, m, ctx_size) > 0 ==> offload(vram, m, ctx_size) * m.layer_bytes()
            + m.cache_bytes(ctx_size) <= share::nine_tenths(vram as nat),
        share::nine_tenths(vram as nat) <= vram,
{
    share::law_nine_tenths_at_most(vram as nat);
    let usable = share::nine_tenths(vram as nat) as int;
    let cache = m.cache_bytes(ctx_size) as int;
    let each = m.layer_bytes() as int;
    if usable >= cache {
        assert(0 <= cache) by {
            let n = m.num_layers as int;
            let c = ctx_size as int / 1024;
            assert(0 <= n * c) by (nonlinear_arith)
                requires
                    n >= 0,
                    c >= 0,
            ;
        }
        let fit = (usable - cache) / each;
        vstd::arithmetic::div_mod::lemma_div_is_ordered(usable - cache, usable, each);
        vstd::arithmetic::div_mod::lemma_div_pos_is_pos(usable - cache, each);
        vstd::arithmetic::div_mod::lemma_fundamental_div_mod(usable - cache, each);
        let layers = offload(vram, m, ctx_size) as int;
        assert(layers * each <= each * fit) by (nonlinear_arith)
            requires
                0 <= layers <= fit,
                each > 0,
        ;
    }
}

/// A model that fits as a whole is offloaded as a whole.
pub proof fn law_fitting_model_is_offloaded_whole(vram: u64, m: RequirementsView, ctx_size: u32)
    requires
        m.layer_bytes() > 0,
        m.num_layers <= i32::MAX,
        share::nine_tenths(vram as nat) / (m.layer_bytes() as nat) <= i32::MAX,
        m.num_layers * m.layer_bytes() + m.cache_bytes(ctx_size) <= share::nine_tenths(vram as nat),
    ensures
        offload(vram, m, ctx_size) == m.num_layers,
{
    let usable = share::nine_tenths(vram as nat) as int;
    let cache = m.cache_bytes(ctx_size) as int;
    let each = m.layer_bytes() as int;
    let n = m.num_layers as int;
    let c = ctx_size as int / 1024;
    assert(0 <= n * c && 0 <= n * each) by (nonlinear_arith)
        requires
            n >= 0,
            c >= 0,
            each >= 0,
    ;
    vstd::arithmetic::div_mod::lemma_div_is_ordered(usable - cache, usable, each);
    vstd::arithmetic::div_mod::lemma_div_is_ordered(n * each, usable - cache, each);
    vstd::arithmetic::div_mod::lemma_div_multiples_vanish(n, each);
    assert(each * n == n * each) by (nonlinear_arith);
}

/// A layer takes its share of the file, rounded down to whole bytes, and the
/// cache half a mebibyte for each layer and each 1024 tokens.
pub proof fn law_sizes_of_a_model(m: RequirementsView, ctx_size: u32)
    ensures
        m.num_layers == 0 ==> m.layer_bytes() == m.file_size_bytes,
        m.num_layers > 0 ==> m.layer_bytes() * m.num_layers <= m.file_size_bytes < (m.layer_bytes()
            + 1) * m.num_layers,
        m.cache_bytes(ctx_size) == 524288 * (m.num_layers * (ctx_size as int / 1024)),
{
    let n = m.num_layers as int;
    if n > 0 {
        let each = m.file_size_bytes as int / n;
        vstd::arithmetic::div_mod::lemma_fundamental_div_mod(m.file_size_bytes as int, n);
        vstd::arithmetic::div_mod::lemma_mod_bound(m.file_size_bytes as int, n);
        assert(n * each == each * n && (each + 1) * n == each * n + n) by (nonlinear_arith);
    }
}

/// The offload is as large as it can be: where some of the layers stay behind and
/// the cache fits, one more layer would not fit; and where the cache does not
/// fit, nothing is offloaded.
pub proof fn law_offload_is_maximal(vram: u64, m: RequirementsView, ctx_size: u32)
    requires
        m.layer_bytes() > 0,
        m.num_layers <= i32::MAX,
        share::nine_tenths(vram as nat) / (m.layer_bytes() as nat) <= i32::MAX,
    ensures
        m.cache_bytes(ctx_size) > share::nine_tenths(vram as nat) ==> offload(vram, m, ctx_size)
            == 0,
        m.cache_bytes(ctx_size) <= share::nine_tenths(vram as nat) && offload(vram, m, ctx_size)
            < m.num_layers ==> (offload(vram, m, ctx_size) + 1) * m.layer_bytes() + m.cache_bytes(
            ctx_size,
        ) > share::nine_tenths(vram as nat),
{
    let usable = share::nine_tenths(vram as nat) as int;
    let cache = m.cache_bytes(ctx_size) as int;
    let each = m.layer_bytes() as int;
    if cache <= usable && offload(vram, m, ctx_size) < m.num_layers {
        let n = m.num_layers as int;
        let c = ctx_size as int / 1024;
        assert(0 <= n * c) by (nonlinear_arith)
            requires
                n >= 0,
                c >= 0,
        ;
        let fit = (usable - cache) / each;
        vstd::arithmetic::div_mod::lemma_div_is_ordered(usable - cache, usable, each);
        vstd::arithmetic::div_mod::lemma_div_pos_is_pos(usable - cache, each);
        vstd::arithmetic::div_mod::lemma_fundamental_div_mod(usable - cache, each);
        vstd::arithmetic::div_mod::lemma_mod_bound(usable - cache, each);
        assert(offload(vram, m, ctx_size) == fit);
        assert((fit + 1) * each == each * fit + each) by (nonlinear_arith);
    }
}

/// What is recommended for a model on a machine with a graphics processor: of the
/// model's layers, each its share of the file, as many as fit beside the cache
/// for the recommended context in nine tenths of the graphics memory; no more,
/// and not one less.
pub proof fn law_recommended_layers_fill_the_memory(hw: HardwareView, m: RequirementsView)
    requires
        hw.gpus.len() > 0,
        0 < m.num_layers <= i32::MAX,
        m.num_layers <= m.file_size_bytes,
        hw.primary_vram() < 0x2_0000_0000_0000,
        9 * hw.primary_vram() < 10 * 0x8000_0000 * (m.file_size_bytes as int
            / m.num_layers as int),
    ensures
        ({
            let layers = params_for(hw, Some(m)).n_gpu_layers;
            let each = m.file_size_bytes as int / m.num_layers as int;
            let cache = 524288 * (m.num_layers * (params_for(hw, Some(m)).ctx_size as int / 1024));
            &&& 0 <= layers <= m.num_layers
            &&& layers > 0 ==> 10 * (layers * each + cache) <= 9 * hw.primary_vram()
            &&& layers < m.num_layers && 10 * cache <= 9 * hw.primary_vram() ==> 10 * ((layers + 1)
                * each + cache) > 9 * hw.primary_vram()
            &&& 10 * cache > 9 * hw.primary_vram() ==> layers == 0
        }),
{
    let vram = hw.primary_vram();
    let ctx = context_for(vram, hw.available_ram_bytes);
    let each = m.layer_bytes() as int;
    let usable = share::nine_tenths(vram as nat) as int;
    share::law_nine_tenths_is_exact(vram as nat);
    law_sizes_of_a_model(m, ctx);
    vstd::arithmetic::div_mod::lemma_div_is_ordered(
        m.num_layers as int,
        m.file_size_bytes as int,
        m.num_layers as int,
    );
    vstd::arithmetic::div_mod::lemma_div_by_self(m.num_layers as int);
    assert(each >= 1);
    assert(each == m.file_size_bytes as int / m.num_layers as int);
    assert(10 * usable <= 9 * vram);
    assert(10 * 0x8000_0000 * each == 10 * (0x8000_0000 * each)) by (nonlinear_arith);
    assert(usable < 0x8000_0000 * each);
    assert(usable / each < 0x8000_0000) by (nonlinear_arith)
        requires
            usable < 0x8000_0000 * each,
            each >= 1,
            usable >= 0,
    ;
    law_offload_is_maximal(vram, m, ctx);
    law_offloaded_layers_fit(vram, m, ctx);
}

/// Without a graphics processor nothing is offloaded, and with one everything is
/// where no model is chosen or its layers have no size.
pub proof fn law_layers_without_a_size(hw: HardwareView, m: RequirementsView)
    ensures
        hw.gpus.len() == 0 ==> params_for(hw, Some(m)).n_gpu_layers == 0 && params_for(
            hw,
            None,
        ).n_gpu_layers == 0,
        hw.gpus.len() > 0 ==> params_for(hw, None).n_gpu_layers == -1,
        hw.gpus.len() > 0 && m.file_size_bytes < m.num_layers ==> params_for(
            hw,
            Some(m),
        ).n_gpu_layers == -1,
        hw.gpus.len() > 0 && m.file_size_bytes == 0 ==> params_for(hw, Some(m)).n_gpu_layers == -1,
{
    law_sizes_of_a_model(m, 0);
    if m.num_layers > 0 {
        let each = m.layer_bytes() as int;
        let n = m.num_layers as int;
        if each >= 1 {
            assert(each * n >= n) by (nonlinear_arith)
                requires
                    each >= 1,
                    n > 0,
            ;
        }
    }
}

/// The context that is recommended: from 24, 16, 8 and 4 gibibytes of graphics
/// memory on 32768, 16384, 8192 and 4096 tokens, and below that 8192 or 4096 with
/// 32 or 16 gibibytes of available memory, else 2048.
pub proof fn law_recommended_context(hw: HardwareView, model: Option<RequirementsView>)
    ensures
        ({
            let ctx = params_for(hw, model).ctx_size;
            let vram = hw.primary_vram();
            let ram = hw.available_ram_bytes;
            &&& ctx == 32768 <==> vram >= 25_769_803_776
            &&& ctx == 16384 <==> 17_179_869_184 <= vram < 25_769_803_776
            &&& ctx == 8192 <==> 8_589_934_592 <= vram < 17_179_869_184 || (vram < 4_294_967_296
                && ram >= 34_359_738_368)
            &&& ctx == 4096 <==> 4_294_967_296 <= vram < 8_589_934_592 || (vram < 4_294_967_296
                && 17_179_869_184 <= ram < 34_359_738_368)
            &&& ctx == 2048 <==> vram < 4_294_967_296 && ram < 17_179_869_184
        }),
{
}

/// The other numbers that are recommended: a thread for each physical core; a
/// batch of 2048 with 8 gibibytes of graphics memory or 32 of available memory,
/// else of 512, and a quarter of it as the micro-batch; memory is locked where
/// nothing is offloaded and 16 gibibytes are available, and flash attention used
/// where something is offloaded.
pub proof fn law_recommended_numbers(hw: HardwareView, model: Option<RequirementsView>)
    ensures
        ({
            let p = params_for(hw, model);
            let vram = hw.primary_vram();
            let ram = hw.available_ram_bytes;
            &&& hw.cpu_physical_cores <= 0xFFFF_FFFF ==> p.threads == hw.cpu_physical_cores
            &&& p.batch_size == 2048 <==> vram >= 8_589_934_592 || ram >= 34_359_738_368
            &&& p.batch_size == 512 <==> vram < 8_589_934_592 && ram < 34_359_738_368
            &&& 4 * p.ubatch_size == p.batch_size
            &&& p.use_mmap
            &&& p.use_mlock <==> ram >= 17_179_869_184 && p.n_gpu_layers == 0
            &&& p.flash_attn <==> hw.gpus.len() > 0 && p.n_gpu_layers != 0
        }),
{
}

/// `reason` speaks of a flag with a value: it begins with the two.
pub open spec fn is_reason_for(reason: Seq<char>, flag: Seq<char>, value: Seq<char>) -> bool {
    text::begins_with(reason, flag + " "@ + value)
}

proof fn lemma_reason_for(flag: Seq<char>, value: Seq<char>, rest: Seq<char>)
    ensures
        is_reason_for(flag + " "@ + value + rest, flag, value),
{
    let front = flag + " "@ + value;
    assert((front + rest).subrange(0, front.len() as int) =~= front);
}

/// The reasons for the layers are given last with the number that is recommended.
proof fn lemma_layer_reason(hw: HardwareView, model: Option<RequirementsView>, shown: Seq<char>)
    ensures
        layer_reasons(hw, model, shown).len() == (if hw.gpus.len() > 0 && model is Some {
            2nat
        } else {
            1nat
        }),
        is_reason_for(
            layer_reasons(hw, model, shown).last(),
            "--n-gpu-layers"@,
            text::signed_decimal(layers_for(hw, model) as int),
        ),
{
    let flag = "--n-gpu-layers"@;
    let last = layer_reasons(hw, model, shown).last();
    reveal_strlit(" ");
    reveal_strlit("--n-gpu-layers");
    reveal_strlit("--n-gpu-layers ");
    assert("--n-gpu-layers "@ =~= flag + " "@);
    assert(text::decimal(0) == seq!['0']);
    assert(text::decimal(1) == seq!['1']);
    assert(text::signed_decimal(0) =~= seq!['0']);
    assert(text::signed_decimal(-1) =~= seq!['-', '1']);
    if hw.gpus.len() == 0 {
        reveal_strlit("--n-gpu-layers 0: no GPU detected, running CPU-only");
        assert(last =~= flag + " "@ + seq!['0'] + last.skip(16));
        lemma_reason_for(flag, seq!['0'], last.skip(16));
    } else if let Some(m) = model {
        let vram = hw.primary_vram();
        let ctx = context_for(vram, hw.available_ram_bytes);
        let value = text::signed_decimal(layers_for(hw, model) as int);
        if m.layer_bytes() == 0 {
            reveal_strlit("--n-gpu-layers -1: no per-layer data; offloading all");
            assert(last =~= flag + " "@ + seq!['-', '1'] + last.skip(17));
            lemma_reason_for(flag, seq!['-', '1'], last.skip(17));
        } else if share::nine_tenths(vram as nat) < m.cache_bytes(ctx) {
            reveal_strlit("--n-gpu-layers 0: insufficient VRAM (");
            assert(last =~= flag + " "@ + seq!['0'] + last.skip(16));
            lemma_reason_for(flag, seq!['0'], last.skip(16));
        } else {
            let front = flag + " "@ + value;
            assert(last =~= front + last.skip(front.len() as int));
            lemma_reason_for(flag, value, last.skip(front.len() as int));
        }
    } else {
        reveal_strlit("--n-gpu-layers -1: offload all layers (adjust down if you get OOM)");
        assert(last =~= flag + " "@ + seq!['-', '1'] + last.skip(17));
        lemma_reason_for(flag, seq!['-', '1'], last.skip(17));
    }
}

/// The reasons speak of the very values that are recommended: of the threads, the
/// context, the layers and the batch. Memory locking, flash attention and shared
/// memory are spoken of exactly where they apply.
pub proof fn law_reasons_name_the_values(
    hw: HardwareView,
    model: Option<RequirementsView>,
    vram_shown: Seq<char>,
    ram_shown: Seq<char>,
)
    ensures
        ({
            let p = params_described(hw, model, vram_shown, ram_shown);
            let r = p.rationale;
            let at: int = if hw.gpus.len() > 0 && model is Some {
                3
            } else {
                2
            };
            let shared = hw.gpus.len() > 0 && !hw.has_dedicated_gpu() && p.n_gpu_layers != 0;
            let batch: int = if shared {
                at + 2
            } else {
                at + 1
            };
            &&& r.len() == batch + (if p.use_mlock || p.flash_attn {
                2int
            } else {
                1
            })
            &&& is_reason_for(r[0], "--threads"@, text::decimal(p.threads as nat))
            &&& is_reason_for(r[1], "--ctx-size"@, text::decimal(p.ctx_size as nat))
            &&& is_reason_for(
                r[at],
                "--n-gpu-layers"@,
                text::signed_decimal(p.n_gpu_layers as int),
            )
            &&& is_reason_for(r[batch], "--batch-size"@, text::decimal(p.batch_size as nat))
            &&& text::contains_text(
                r[batch],
                " --ubatch-size "@ + text::decimal(p.ubatch_size as nat),
            )
            &&& shared ==> text::contains_text(r[at + 1], "shared with system RAM"@)
            &&& p.use_mlock ==> text::begins_with(r.last(), "--mlock"@)
            &&& p.flash_attn ==> text::begins_with(r.last(), "--flash-attn"@)
        }),
{
    let p = params_described(hw, model, vram_shown, ram_shown);
    let r = p.rationale;
    let mid = layer_reasons(hw, model, vram_shown);
    lemma_layer_reason(hw, model, vram_shown);
    reveal_strlit(" ");
    reveal_strlit("--threads");
    reveal_strlit("--threads ");
    reveal_strlit("--ctx-size");
    reveal_strlit("--ctx-size ");
    reveal_strlit("--batch-size");
    reveal_strlit("--batch-size ");
    assert("--threads "@ =~= "--threads"@ + " "@);
    assert("--ctx-size "@ =~= "--ctx-size"@ + " "@);
    assert("--batch-size "@ =~= "--batch-size"@ + " "@);
    let threads = text::decimal(p.threads as nat);
    let ctx = text::decimal(p.ctx_size as nat);
    let batch = text::decimal(p.batch_size as nat);
    let ubatch = text::decimal(p.ubatch_size as nat);
    let behind = ": matches your "@ + threads + " physical CPU cores for best throughput"@;
    assert(r[0] =~= "--threads"@ + " "@ + threads + behind);
    lemma_reason_for("--threads"@, threads, behind);
    let behind = ": balanced for your VRAM ("@ + vram_shown + ") / RAM ("@ + ram_shown + ")"@;
    assert(r[1] =~= "--ctx-size"@ + " "@ + ctx + behind);
    lemma_reason_for("--ctx-size"@, ctx, behind);
    let behind = " --ubatch-size "@ + ubatch + ": optimizes prompt throughput"@;
    let line = "--batch-size "@ + batch + " --ubatch-size "@ + ubatch
        + ": optimizes prompt throughput"@;
    assert(line =~= "--batch-size"@ + " "@ + batch + behind);
    lemma_reason_for("--batch-size"@, batch, behind);
    let u = " --ubatch-size "@ + ubatch;
    assert(line =~= ("--batch-size "@ + batch) + u + ": optimizes prompt throughput"@);
    text::law_contains_text("--batch-size "@ + batch, u, ": optimizes prompt throughput"@, line);
    let at: int = 1 + mid.len() as int;
    assert(r[at] == mid.last());
    let shared = hw.gpus.len() > 0 && !hw.has_dedicated_gpu() && p.n_gpu_layers != 0;
    let b: int = if shared {
        at + 2
    } else {
        at + 1
    };
    assert(r[b] == line);
    if shared {
        assert(r[at + 1] == shared_memory_note());
        lemma_note_on_shared_memory();
    }
    if p.use_mlock {
        reveal_strlit("--mlock");
        reveal_strlit("--mlock: enough RAM to keep model pages locked (CPU-only mode)");
        assert(r.last().subrange(0, 7) =~= "--mlock"@);
    }
    if p.flash_attn {
        reveal_strlit("--flash-attn");
        reveal_strlit("--flash-attn: reduces VRAM usage for KV cache on GPU");
        assert(r.last().subrange(0, 12) =~= "--flash-attn"@);
    }
}

proof fn lemma_note_on_shared_memory()
    ensures
        text::contains_text(shared_memory_note(), "shared with system RAM"@),
{
    reveal_strlit("shared with system RAM");
    reveal_strlit(
        "Note: GPU memory is shared with system RAM (integrated graphics) — offload only helps if your llama.cpp build has GPU backend support (Vulkan/Metal/etc.); a CPU-only build ignores -ngl",
    );
    assert(shared_memory_note().subrange(20, 42) =~= "shared with system RAM"@);
    assert(text::occurs_at(shared_memory_note(), "shared with system RAM"@, 20));
}

/// The reasons for the layers of a model, in words. The first names the
/// quantization and the size of a layer in mebibytes. The second goes by what is
/// recommended: everything where there is no size, nothing where the cache does
/// not fit, all the layers, or some out of all, with the memory they have.
pub proof fn law_words_on_the_layers(vram: u64, shown: Seq<char>, m: RequirementsView, ctx_size: u32)
    requires
        m.num_layers <= i32::MAX,
    ensures
        ({
            let r = offload_reasons(vram, shown, m, ctx_size);
            let n = offload(vram, m, ctx_size);
            let usable = share::nine_tenths(vram as nat);
            &&& r.len() == 2
            &&& r[0] == "Layer size estimated from "@ + m.quantization + " quantization: ~"@
                + text::decimal((m.layer_bytes() as int / 1_048_576) as nat) + "MB/layer"@
            &&& m.layer_bytes() == 0 ==> r[1]
                == "--n-gpu-layers -1: no per-layer data; offloading all"@
            &&& m.layer_bytes() > 0 && m.cache_bytes(ctx_size) > usable ==> r[1]
                == "--n-gpu-layers 0: insufficient VRAM ("@ + shown + ") even for KV cache (~"@
                + text::decimal((m.cache_bytes(ctx_size) as int / 1_048_576) as nat) + "MB)"@
            &&& m.layer_bytes() > 0 && m.cache_bytes(ctx_size) <= usable && n == m.num_layers
                ==> r[1] == "--n-gpu-layers "@ + text::decimal(m.num_layers as nat)
                + ": full model fits in VRAM ("@ + shown + ")"@
            &&& m.layer_bytes() > 0 && m.cache_bytes(ctx_size) <= usable && n < m.num_layers
                ==> r[1] == "--n-gpu-layers "@ + text::signed_decimal(n as int)
                + ": partial offload — "@ + text::signed_decimal(n as int) + "/"@ + text::decimal(
                m.num_layers as nat,
            ) + " layers fit in "@ + shown
        }),
{
}

/// The other reasons, in words: that the threads match the physical cores, which
/// memory the context is balanced for, and what the batch, memory locking and
/// flash attention are for.
pub proof fn law_words_of_the_reasons(
    hw: HardwareView,
    model: Option<RequirementsView>,
    vram_shown: Seq<char>,
    ram_shown: Seq<char>,
)
    ensures
        ({
            let p = params_described(hw, model, vram_shown, ram_shown);
            let r = p.rationale;
            let threads = text::decimal(p.threads as nat);
            let more = p.use_mlock || p.flash_attn;
            let batch = if more {
                r[r.len() - 2]
            } else {
                r.last()
            };
            &&& r[0] == "--threads "@ + threads + ": matches your "@ + threads
                + " physical CPU cores for best throughput"@
            &&& r[1] == "--ctx-size "@ + text::decimal(p.ctx_size as nat)
                + ": balanced for your VRAM ("@ + vram_shown + ") / RAM ("@ + ram_shown + ")"@
            &&& batch == "--batch-size "@ + text::decimal(p.batch_size as nat) + " --ubatch-size "@
                + text::decimal(p.ubatch_size as nat) + ": optimizes prompt throughput"@
            &&& p.use_mlock ==> r.last()
                == "--mlock: enough RAM to keep model pages locked (CPU-only mode)"@
            &&& p.flash_attn ==> r.last() == "--flash-attn: reduces VRAM usage for KV cache on GPU"@
            &&& hw.gpus.len() == 0 ==> r[2]
                == "--n-gpu-layers 0: no GPU detected, running CPU-only"@
            &&& hw.gpus.len() > 0 && model is None ==> r[2]
                == "--n-gpu-layers -1: offload all layers (adjust down if you get OOM)"@
            &&& hw.gpus.len() > 0 ==> (model matches Some(m) ==> r[2] == offload_reasons(
                hw.primary_vram(),
                vram_shown,
                m,
                p.ctx_size,
            )[0] && r[3] == offload_reasons(hw.primary_vram(), vram_shown, m, p.ctx_size)[1])
            &&& shared_memory_note()
                == "Note: GPU memory is shared with system RAM (integrated graphics) — offload only helps if your llama.cpp build has GPU backend support (Vulkan/Metal/etc.); a CPU-only build ignores -ngl"@
        }),
{
}

/// The memory in the reasons is the machine's: the graphics memory that counts, and
/// the whole of the system's.
pub proof fn law_reasons_are_for_the_machine(hw: HardwareView, model: Option<RequirementsView>)
    ensures
        params_for(hw, model) == params_described(
            hw,
            model,
            hw.vram_shown(),
            outside::byte_size_text(hw.total_ram_bytes),
        ),
{
}

/// The arguments are five flags with a value and then the switches. Behind each
/// flag stands the parameter of that name, which reads back as the number that it
/// is; the number of layers has a minus sign where it is negative.
pub proof fn law_arguments_read_back(p: ParamsView)
    ensures
        ({
            let a = p.cli_args();
            &&& a.len() == 10 + (if p.use_mmap {
                0int
            } else {
                1
            }) + (if p.use_mlock {
                1int
            } else {
                0
            }) + (if p.flash_attn {
                1int
            } else {
                0
            })
            &&& a[0] == "--n-gpu-layers"@
            &&& p.n_gpu_layers >= 0 ==> text::parsed_u64(a[1]) == Some(p.n_gpu_layers as u64)
            &&& p.n_gpu_layers < 0 ==> a[1][0] == '-' && text::parsed_u64(a[1].skip(1)) == Some(
                (-p.n_gpu_layers) as u64,
            )
            &&& a[2] == "--ctx-size"@
            &&& text::parsed_u64(a[3]) == Some(p.ctx_size as u64)
            &&& a[4] == "--threads"@
            &&& text::parsed_u64(a[5]) == Some(p.threads as u64)
            &&& a[6] == "--batch-size"@
            &&& text::parsed_u64(a[7]) == Some(p.batch_size as u64)
            &&& a[8] == "--ubatch-size"@
            &&& text::parsed_u64(a[9]) == Some(p.ubatch_size as u64)
        }),
{
    text::law_signed_decimal_reads_back(p.n_gpu_layers as int);
    if p.n_gpu_layers < 0 {
        text::law_decimal_reads_back((-p.n_gpu_layers) as nat);
    } else {
        text::law_decimal_reads_back(p.n_gpu_layers as nat);
    }
    text::law_decimal_reads_back(p.ctx_size as nat);
    text::law_decimal_reads_back(p.threads as nat);
    text::law_decimal_reads_back(p.batch_size as nat);
    text::law_decimal_reads_back(p.ubatch_size as nat);
    let a = p.cli_args();
    assert forall|i: int| 0 <= i < 10 implies a[i] == #[trigger] p.valued_args()[i] by {}
}

/// A flag with a value stands in one place only, so what is behind it wherever it
/// stands is the parameter of that name.
pub proof fn law_flags_stand_once(p: ParamsView, i: int)
    requires
        0 <= i < p.cli_args().len(),
    ensures
        p.cli_args()[i] == "--n-gpu-layers"@ <==> i == 0,
        p.cli_args()[i] == "--ctx-size"@ <==> i == 2,
        p.cli_args()[i] == "--threads"@ <==> i == 4,
        p.cli_args()[i] == "--batch-size"@ <==> i == 6,
        p.cli_args()[i] == "--ubatch-size"@ <==> i == 8,
{
    reveal_strlit("--n-gpu-layers");
    reveal_strlit("--ctx-size");
    reveal_strlit("--threads");
    reveal_strlit("--batch-size");
    reveal_strlit("--ubatch-size");
    reveal_strlit("--no-mmap");
    reveal_strlit("--mlock");
    reveal_strlit("--flash-attn");
    let a = p.cli_args();
    let s = p.switches();
    text::law_signed_decimal_reads_back(p.n_gpu_layers as int);
    if p.n_gpu_layers < 0 {
        text::law_decimal_reads_back((-p.n_gpu_layers) as nat);
        assert(a[1].skip(1)[0] == a[1][1]);
    } else {
        text::law_decimal_reads_back(p.n_gpu_layers as nat);
    }
    text::law_decimal_reads_back(p.ctx_size as nat);
    text::law_decimal_reads_back(p.threads as nat);
    text::law_decimal_reads_back(p.batch_size as nat);
    text::law_decimal_reads_back(p.ubatch_size as nat);
    assert("--n-gpu-layers"@[1] == '-' && "--n-gpu-layers"@[2] == 'n' && "--n-gpu-layers"@[3]
        == '-');
    assert("--ctx-size"@[1] == '-' && "--ctx-size"@[2] == 'c');
    assert("--threads"@[1] == '-' && "--threads"@[2] == 't');
    assert("--batch-size"@[1] == '-' && "--batch-size"@[2] == 'b');
    assert("--ubatch-size"@[1] == '-' && "--ubatch-size"@[2] == 'u');
    assert("--no-mmap"@[3] == 'o' && "--mlock"@[2] == 'm' && "--flash-attn"@[2] == 'f');
    if i < 10 {
        assert(a[i] == p.valued_args()[i]);
    } else {
        assert(a[i] == s[i - 10]);
        assert(s[i - 10] == "--no-mmap"@ || s[i - 10] == "--mlock"@ || s[i - 10]
            == "--flash-attn"@);
    }
}

/// The command line as it is shown breaks each line with a backslash and indents
/// the next by two blanks, and its lines are the flags with their values.
pub proof fn law_shown_lines(p: ParamsView)
    ensures
        line_break() == seq![' ', '\\', '\n', ' ', ' '],
        p.cli_lines()[0] == "--n-gpu-layers "@ + p.cli_args()[1],
        p.cli_lines()[1] == "--ctx-size "@ + p.cli_args()[3],
        p.cli_lines()[2] == "--threads "@ + p.cli_args()[5],
        p.cli_lines()[3] == "--batch-size "@ + p.cli_args()[7],
        p.cli_lines()[4] == "--ubatch-size "@ + p.cli_args()[9],
        p.cli_lines().skip(5) == p.cli_args().skip(10),
{
    reveal_strlit(" \\\n  ");
    assert(line_break() =~= seq![' ', '\\', '\n', ' ', ' ']);
    assert forall|i: int| 0 <= i < 5 implies p.cli_lines()[i] == #[trigger] p.valued_lines()[i] by {}
    assert forall|i: int| 0 <= i < 10 implies p.cli_args()[i] == #[trigger] p.valued_args()[i] by {}
    assert(p.cli_lines().skip(5) =~= p.switches());
    assert(p.cli_args().skip(10) =~= p.switches());
}

/// What the contracts speak of are the fields themselves.
pub proof fn law_views_hold_the_fields(p: LlamaCppParams, m: ModelRequirements)
    ensures
        p@.n_gpu_layers == p.n_gpu_layers,
        p@.ctx_size == p.ctx_size,
        p@.threads == p.threads,
        p@.batch_size == p.batch_size,
        p@.ubatch_size == p.ubatch_size,
        p@.use_mmap == p.use_mmap,
        p@.use_mlock == p.use_mlock,
        p@.flash_attn == p.flash_attn,
        p@.rationale == text::texts(p.rationale@),
        m@.file_size_bytes == m.file_size_bytes,
        m@.num_layers == m.num_layers,
        m@.quantization == m.quantization@,
        requirements_view(Some(&m)) == Some(m@),
        requirements_view(None) is None,
{
}

/// More graphics memory never lowers the context size, from four gigabytes on,
/// nor does more system memory.
pub proof fn law_context_grows_with_memory(vram: u64, more_vram: u64, ram: u64, more_ram: u64)
    requires
        vram <= more_vram,
        ram <= more_ram,
    ensures
        vram >= 4 * GB ==> context_for(vram, ram) <= context_for(more_vram, ram),
        context_for(vram, ram) <= context_for(vram, more_ram),
{
}

/// The command line as it is shown and the arguments that are passed say the
/// same: each line is a flag and its value, or a flag alone.
pub proof fn law_shown_and_passed_arguments_agree(p: ParamsView)
    ensures
        p.cli_args().len() == p.cli_lines().len() + 5,
        forall|i: int|
            0 <= i < 5 ==> #[trigger] p.cli_lines()[i] == p.cli_args()[2 * i] + " "@
                + p.cli_args()[2 * i + 1],
        forall|i: int|
            5 <= i < p.cli_lines().len() ==> #[trigger] p.cli_lines()[i] == p.cli_args()[i + 5],
{
    reveal_strlit(" ");
    reveal_strlit("--n-gpu-layers ");
    reveal_strlit("--n-gpu-layers");
    reveal_strlit("--ctx-size ");
    reveal_strlit("--ctx-size");
    reveal_strlit("--threads ");
    reveal_strlit("--threads");
    reveal_strlit("--batch-size ");
    reveal_strlit("--batch-size");
    reveal_strlit("--ubatch-size ");
    reveal_strlit("--ubatch-size");
    assert("--n-gpu-layers "@ =~= "--n-gpu-layers"@ + " "@);
    assert("--ctx-size "@ =~= "--ctx-size"@ + " "@);
    assert("--threads "@ =~= "--threads"@ + " "@);
    assert("--batch-size "@ =~= "--batch-size"@ + " "@);
    assert("--ubatch-size "@ =~= "--ubatch-size"@ + " "@);
    assert forall|i: int| 0 <= i < 5 implies #[trigger] p.cli_lines()[i] == p.cli_args()[2 * i]
        + " "@ + p.cli_args()[2 * i + 1] by {
        assert(p.cli_lines()[i] == p.valued_lines()[i]);
        assert(p.cli_args()[2 * i] == p.valued_args()[2 * i]);
        assert(p.cli_args()[2 * i + 1] == p.valued_args()[2 * i + 1]);
    }
}

/// The flag and its value in one line are the two arguments joined by a space.
proof fn lemma_lines_join_as_arguments(p: ParamsView)
    ensures
        text::joined(p.cli_lines(), " "@) == text::joined(p.cli_args(), " "@),
{
    law_shown_and_passed_arguments_agree(p);
    let lines = p.cli_lines();
    let args = p.cli_args();
    lemma_valued_join(lines, args, 5);
    lemma_rest_join(lines, args, lines.len() as int);
    assert(lines.take(lines.len() as int) =~= lines);
    assert(args.take(args.len() as int) =~= args);
}

proof fn lemma_valued_join(lines: Seq<Seq<char>>, args: Seq<Seq<char>>, n: int)
    requires
        1 <= n <= lines.len(),
        2 * n <= args.len(),
        forall|i: int|
            0 <= i < n ==> #[trigger] lines[i] == args[2 * i] + " "@ + args[2 * i + 1],
    ensures
        text::joined(lines.take(n), " "@) == text::joined(args.take(2 * n), " "@),
    decreases n,
{
    let sp = " "@;
    let a = args.take(2 * n);
    let b = a.drop_last();
    assert(a.last() == args[2 * n - 1]);
    assert(b.last() == args[2 * n - 2]);
    assert(lines[n - 1] == args[2 * (n - 1)] + sp + args[2 * (n - 1) + 1]);
    assert(text::joined(a, sp) == text::joined(b, sp) + sp + a.last());
    if n == 1 {
        assert(b[0] == args[0]);
        assert(text::joined(b, sp) == b[0]);
        assert(lines.take(1)[0] == lines[0]);
    } else {
        lemma_valued_join(lines, args, n - 1);
        assert(lines.take(n).drop_last() =~= lines.take(n - 1));
        assert(b.drop_last() =~= args.take(2 * (n - 1)));
        assert(text::joined(b, sp) == text::joined(b.drop_last(), sp) + sp + b.last());
        assert(text::joined(lines.take(n), sp) =~= text::joined(a, sp));
    }
}

proof fn lemma_rest_join(lines: Seq<Seq<char>>, args: Seq<Seq<char>>, n: int)
    requires
        5 <= n <= lines.len(),
        args.len() == lines.len() + 5,
        text::joined(lines.take(5), " "@) == text::joined(args.take(10), " "@),
        forall|i: int| 5 <= i < n ==> #[trigger] lines[i] == args[i + 5],
    ensures
        text::joined(lines.take(n), " "@) == text::joined(args.take(n + 5), " "@),
    decreases n,
{
    if n > 5 {
        lemma_rest_join(lines, args, n - 1);
        assert(lines.take(n).drop_last() =~= lines.take(n - 1));
        assert(args.take(n + 5).drop_last() =~= args.take(n + 4));
        assert(lines[n - 1] == args[n + 4]);
    }
}

proof fn lemma_line_has_no_backslash(label: Seq<char>, value: Seq<char>)
    requires
        !label.contains('\\'),
        !value.contains('\\'),
    ensures
        !(label + value).contains('\\'),
{
    let s = label + value;
    assert forall|i: int| 0 <= i < s.len() implies s[i] != '\\' by {
        if i < label.len() {
            assert(label[i] == s[i]);
        } else {
            assert(value[i - label.len()] == s[i]);
        }
    }
}

proof fn lemma_decimal_has_no_backslash(n: nat)
    ensures
        !text::decimal(n).contains('\\'),
{
    text::lemma_decimal_digits(n);
    assert forall|i: int| 0 <= i < text::decimal(n).len() implies text::decimal(n)[i] != '\\' by {
        assert(text::is_digit(text::decimal(n)[i]));
    }
}

proof fn lemma_lines_have_no_backslash(p: ParamsView)
    ensures
        forall|k: int|
            0 <= k < p.cli_lines().len() ==> !(#[trigger] p.cli_lines()[k]).contains('\\'),
{
    reveal_strlit("--n-gpu-layers ");
    reveal_strlit("--ctx-size ");
    reveal_strlit("--threads ");
    reveal_strlit("--batch-size ");
    reveal_strlit("--ubatch-size ");
    reveal_strlit("--no-mmap");
    reveal_strlit("--mlock");
    reveal_strlit("--flash-attn");
    reveal_strlit("-");
    let layers = p.n_gpu_layers as int;
    if layers < 0 {
        lemma_decimal_has_no_backslash((-layers) as nat);
        lemma_line_has_no_backslash("-"@, text::decimal((-layers) as nat));
    } else {
        lemma_decimal_has_no_backslash(layers as nat);
    }
    lemma_decimal_has_no_backslash(p.ctx_size as nat);
    lemma_decimal_has_no_backslash(p.threads as nat);
    lemma_decimal_has_no_backslash(p.batch_size as nat);
    lemma_decimal_has_no_backslash(p.ubatch_size as nat);
    lemma_line_has_no_backslash("--n-gpu-layers "@, text::signed_decimal(layers));
    lemma_line_has_no_backslash("--ctx-size "@, text::decimal(p.ctx_size as nat));
    lemma_line_has_no_backslash("--threads "@, text::decimal(p.threads as nat));
    lemma_line_has_no_backslash("--batch-size "@, text::decimal(p.batch_size as nat));
    lemma_line_has_no_backslash("--ubatch-size "@, text::decimal(p.ubatch_size as nat));
    assert forall|k: int| 0 <= k < p.cli_lines().len() implies !(
    #[trigger] p.cli_lines()[k]).contains('\\') by {
        if k < 5 {
            assert(p.cli_lines()[k] == p.valued_lines()[k]);
        } else {
            assert(p.cli_lines()[k] == p.switches()[k - 5]);
        }
    }
}

/// The command line as it is shown, its line breaks replaced by a space, is the
/// text of the arguments that are passed, joined by spaces: the same flags and
/// values in the same order.
pub proof fn law_shown_command_line_is_the_passed_one(p: ParamsView)
    ensures
        text::with_text_replaced(text::joined(p.cli_lines(), line_break()), line_break(), " "@)
            == text::joined(p.cli_args(), " "@),
        text::joined(p.cli_lines(), " "@) == text::joined(p.cli_args(), " "@),
{
    reveal_strlit(" \\\n  ");
    lemma_lines_have_no_backslash(p);
    text::lemma_separator_replaced(p.cli_lines(), line_break(), " "@);
    lemma_lines_join_as_arguments(p);
}

/// The flags without a value are shown, and passed, exactly where they apply:
/// `--no-mmap` where the file is not mapped, `--mlock` where it is locked, and
/// `--flash-attn` where flash attention is used.
pub proof fn law_switches_are_there_where_they_apply(p: ParamsView)
    ensures
        p.cli_args().contains("--no-mmap"@) <==> !p.use_mmap,
        p.cli_args().contains("--mlock"@) <==> p.use_mlock,
        p.cli_args().contains("--flash-attn"@) <==> p.flash_attn,
        p.cli_lines().contains("--no-mmap"@) <==> !p.use_mmap,
        p.cli_lines().contains("--mlock"@) <==> p.use_mlock,
        p.cli_lines().contains("--flash-attn"@) <==> p.flash_attn,
        text::contains_text(text::joined(p.cli_lines(), line_break()), "--no-mmap"@)
            <==> !p.use_mmap,
        text::contains_text(text::joined(p.cli_lines(), line_break()), "--mlock"@) <==> p.use_mlock,
        text::contains_text(text::joined(p.cli_lines(), line_break()), "--flash-attn"@)
            <==> p.flash_attn,
{
    lemma_switch_is_shown(p, "--no-mmap"@);
    lemma_switch_is_shown(p, "--mlock"@);
    lemma_switch_is_shown(p, "--flash-attn"@);
    lemma_switch_is_there(p, "--no-mmap"@);
    lemma_switch_is_there(p, "--mlock"@);
    lemma_switch_is_there(p, "--flash-attn"@);
}

/// A switch is among the arguments, and among the lines, where it is among the
/// switches.
proof fn lemma_switch_is_there(p: ParamsView, switch: Seq<char>)
    requires
        switch == "--no-mmap"@ || switch == "--mlock"@ || switch == "--flash-attn"@,
    ensures
        p.cli_args().contains(switch) <==> p.switches().contains(switch),
        p.cli_lines().contains(switch) <==> p.switches().contains(switch),
        p.switches().contains("--no-mmap"@) <==> !p.use_mmap,
        p.switches().contains("--mlock"@) <==> p.use_mlock,
        p.switches().contains("--flash-attn"@) <==> p.flash_attn,
{
    reveal_strlit("--n-gpu-layers ");
    reveal_strlit("--ctx-size ");
    reveal_strlit("--threads ");
    reveal_strlit("--batch-size ");
    reveal_strlit("--ubatch-size ");
    reveal_strlit("--n-gpu-layers");
    reveal_strlit("--ctx-size");
    reveal_strlit("--threads");
    reveal_strlit("--batch-size");
    reveal_strlit("--ubatch-size");
    reveal_strlit("--no-mmap");
    reveal_strlit("--mlock");
    reveal_strlit("--flash-attn");
    reveal_strlit("-");
    let layers = p.n_gpu_layers as int;
    if layers < 0 {
        text::lemma_decimal_digits((-layers) as nat);
        assert(text::signed_decimal(layers)[1] == text::decimal((-layers) as nat)[0]);
    } else {
        text::lemma_decimal_digits(layers as nat);
    }
    text::lemma_decimal_digits(p.ctx_size as nat);
    text::lemma_decimal_digits(p.threads as nat);
    text::lemma_decimal_digits(p.batch_size as nat);
    text::lemma_decimal_digits(p.ubatch_size as nat);
    assert(switch[0] == '-' && switch[1] == '-' && switch[3] != '-');
    assert("--no-mmap"@[2] == 'n' && "--mlock"@[2] == 'm' && "--flash-attn"@[2] == 'f');
    let s = p.switches();
    assert forall|i: int| 0 <= i < 10 implies #[trigger] p.valued_args()[i] != switch by {
        let v = p.valued_args()[i];
        assert(v.len() < 4 || v[0] != '-' || v[1] != '-' || v[2] == 'c' || v[2] == 't' || v[2]
            == 'b' || v[2] == 'u' || v[3] == '-');
    }
    assert forall|i: int| 0 <= i < 5 implies #[trigger] p.valued_lines()[i] != switch by {
        let v = p.valued_lines()[i];
        assert(v[2] == 'c' || v[2] == 't' || v[2] == 'b' || v[2] == 'u' || v[3] == '-');
    }
    assert forall|k: int| 0 <= k < s.len() implies p.cli_args()[k + 10] == #[trigger] s[k]
        && p.cli_lines()[k + 5] == s[k] by {}
    if p.cli_args().contains(switch) {
        let i = choose|i: int| 0 <= i < p.cli_args().len() && p.cli_args()[i] == switch;
        if i < 10 {
            assert(p.cli_args()[i] == p.valued_args()[i]);
        } else {
            assert(s[i - 10] == switch);
        }
    }
    if p.cli_lines().contains(switch) {
        let i = choose|i: int| 0 <= i < p.cli_lines().len() && p.cli_lines()[i] == switch;
        if i < 5 {
            assert(p.cli_lines()[i] == p.valued_lines()[i]);
        } else {
            assert(s[i - 5] == switch);
        }
    }
    let a = if p.use_mmap {
        0int
    } else {
        1
    };
    let b = if p.use_mlock {
        a + 1
    } else {
        a
    };
    if !p.use_mmap {
        assert(s[0] == "--no-mmap"@);
    }
    if p.use_mlock {
        assert(s[a] == "--mlock"@);
    }
    if p.flash_attn {
        assert(s[b] == "--flash-attn"@);
    }
}

/// A switch does not stand within a line that is made of a flag and a number.
proof fn lemma_switch_not_in_line(label: Seq<char>, value: Seq<char>, switch: Seq<char>)
    requires
        switch == "--no-mmap"@ || switch == "--mlock"@ || switch == "--flash-attn"@,
        label.len() > 4,
        label.last() == ' ',
        label[2] == 'c' || label[2] == 't' || label[2] == 'b' || label[2] == 'u' || label[3] == '-',
        forall|i: int| 0 < i < label.len() - 1 ==> !(#[trigger] label[i] == '-' && label[i + 1] == '-'),
        forall|i: int| 0 < i < value.len() ==> #[trigger] value[i] != '-',
    ensures
        !text::contains_text(label + value, switch),
{
    reveal_strlit("--no-mmap");
    reveal_strlit("--mlock");
    reveal_strlit("--flash-attn");
    let s = label + value;
    let n = label.len() as int;
    assert forall|i: int| !text::occurs_at(s, switch, i) by {
        if text::occurs_at(s, switch, i) {
            let part = s.subrange(i, i + switch.len());
            assert(part[0] == s[i] && part[1] == s[i + 1]);
            assert(part[2] == s[i + 2] && part[3] == s[i + 3]);
            if i == 0 {
                assert(s[2] == label[2] && s[3] == label[3]);
            } else if i + 1 < n {
                assert(s[i] == label[i] && s[i + 1] == label[i + 1]);
            } else if i + 1 == n {
                assert(s[i] == label.last());
            } else {
                assert(s[i + 1] == value[i + 1 - n]);
            }
        }
    }
}

/// A switch stands in the command line as it is shown exactly where it is one of
/// its lines.
proof fn lemma_switch_is_shown(p: ParamsView, switch: Seq<char>)
    requires
        switch == "--no-mmap"@ || switch == "--mlock"@ || switch == "--flash-attn"@,
    ensures
        text::contains_text(text::joined(p.cli_lines(), line_break()), switch)
            <==> p.cli_lines().contains(switch),
{
    reveal_strlit(" \\\n  ");
    reveal_strlit("--n-gpu-layers ");
    reveal_strlit("--ctx-size ");
    reveal_strlit("--threads ");
    reveal_strlit("--batch-size ");
    reveal_strlit("--ubatch-size ");
    reveal_strlit("--no-mmap");
    reveal_strlit("--mlock");
    reveal_strlit("--flash-attn");
    reveal_strlit("-");
    let lines = p.cli_lines();
    let layers = p.n_gpu_layers as int;
    if layers < 0 {
        text::lemma_decimal_digits((-layers) as nat);
        assert forall|i: int| 0 < i < text::signed_decimal(layers).len() implies
            #[trigger] text::signed_decimal(layers)[i] != '-' by {
            assert(text::is_digit(text::decimal((-layers) as nat)[i - 1]));
        }
    } else {
        text::lemma_decimal_digits(layers as nat);
    }
    text::lemma_decimal_digits(p.ctx_size as nat);
    text::lemma_decimal_digits(p.threads as nat);
    text::lemma_decimal_digits(p.batch_size as nat);
    text::lemma_decimal_digits(p.ubatch_size as nat);
    lemma_switch_not_in_line("--n-gpu-layers "@, text::signed_decimal(layers), switch);
    lemma_switch_not_in_line("--ctx-size "@, text::decimal(p.ctx_size as nat), switch);
    lemma_switch_not_in_line("--threads "@, text::decimal(p.threads as nat), switch);
    lemma_switch_not_in_line("--batch-size "@, text::decimal(p.batch_size as nat), switch);
    lemma_switch_not_in_line("--ubatch-size "@, text::decimal(p.ubatch_size as nat), switch);
    text::lemma_joined_contains(lines, line_break(), switch);
    if lines.contains(switch) {
        let k = choose|k: int| 0 <= k < lines.len() && lines[k] == switch;
        assert(switch.subrange(0, switch.len() as int) =~= switch);
        assert(text::occurs_at(lines[k], switch, 0));
        assert(text::contains_text(lines[k], switch));
    }
    if exists|k: int| 0 <= k < lines.len() && text::contains_text(#[trigger] lines[k], switch) {
        let k = choose|k: int|
            0 <= k < lines.len() && text::contains_text(#[trigger] lines[k], switch);
        let i = choose|i: int| text::occurs_at(lines[k], switch, i);
        if k < 5 {
            assert(lines[k] == p.valued_lines()[k]);
            assert(false);
        } else {
            assert(lines[k] == p.switches()[k - 5]);
            lemma_switch_within_switch(lines[k], switch);
        }
    }
}

/// Of the switches none stands within another.
proof fn lemma_switch_within_switch(a: Seq<char>, b: Seq<char>)
    requires
        a == "--no-mmap"@ || a == "--mlock"@ || a == "--flash-attn"@,
        b == "--no-mmap"@ || b == "--mlock"@ || b == "--flash-attn"@,
        text::contains_text(a, b),
    ensures
        a == b,
{
    reveal_strlit("--no-mmap");
    reveal_strlit("--mlock");
    reveal_strlit("--flash-attn");
    let i = choose|i: int| text::occurs_at(a, b, i);
    let part = a.subrange(i, i + b.len());
    assert(part[0] == a[i] && part[1] == a[i + 1] && part[2] == a[i + 2]);
    assert(i == 0);
}

} // verus!
