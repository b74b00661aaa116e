//! What the screen shows: the texts and their styles, as plain values. How they
//! are laid out on a terminal is not decided here.

use vstd::prelude::*;
use vstd::string::*;

use crate::app::{App, AppTab, AppView, DownloadState, DownloadView, LoadState, LoadView};
use crate::hardware;
use crate::hardware::{GpuInfo, GpuVendor, GpuView, HardwareInfo, HardwareView, VendorView};
use crate::models;
use crate::models::{HfModel, ModelView};
use crate::outside;
#[allow(unused_imports)]
use crate::params;
use crate::params::{LlamaCppParams, ParamsView};
use crate::text;

verus! {

/// The colours that are used.
#[derive(Debug, Clone, Copy, PartialEq, Eq, Structural)]
pub enum Color {
    Black,
    White,
    Cyan,
    DarkGray,
    Green,
    Yellow,
    Red,
    Blue,
    Magenta,
}

/// For titles and what is selected.
pub const ACCENT: Color = Color::Cyan;

/// For labels and hints.
pub const DIM: Color = Color::DarkGray;

/// For what is well.
pub const GOOD: Color = Color::Green;

/// For what needs attention.
pub const WARN: Color = Color::Yellow;

/// For failures.
pub const ERR: Color = Color::Red;

/// How a text looks.
#[derive(Debug, Clone, Copy, PartialEq, Eq, Structural)]
pub struct Style {
    pub fg: Option<Color>,
    pub bg: Option<Color>,
    pub bold: bool,
    pub underlined: bool,
}

/// A text in one style.
#[derive(Debug)]
pub struct Span {
    pub text: String,
    pub style: Style,
}

/// A line of texts.
#[derive(Debug)]
pub struct Line {
    pub spans: Vec<Span>,
}

/// A message in place of content.
#[derive(Debug)]
pub struct Notice {
    pub span: Span,
    pub centered: bool,
}

// ---------------------------------------------------------------------------
// Models
// ---------------------------------------------------------------------------

/// A text in one style, as a mathematical value.
#[verifier::ext_equal]
pub struct SpanView {
    pub text: Seq<char>,
    pub style: Style,
}

impl View for Span {
    type V = SpanView;

    open spec fn view(&self) -> SpanView {
        SpanView { text: self.text@, style: self.style }
    }
}

/// The views of a sequence of texts.
pub open spec fn span_views(spans: Seq<Span>) -> Seq<SpanView> {
    spans.map_values(|s: Span| s@)
}

impl View for Line {
    type V = Seq<SpanView>;

    open spec fn view(&self) -> Seq<SpanView> {
        span_views(self.spans@)
    }
}

/// The views of a sequence of lines.
pub open spec fn line_views(lines: Seq<Line>) -> Seq<Seq<SpanView>> {
    lines.map_values(|l: Line| l@)
}

/// A message as a mathematical value.
#[verifier::ext_equal]
pub struct NoticeView {
    pub span: SpanView,
    pub centered: bool,
}

impl View for Notice {
    type V = NoticeView;

    open spec fn view(&self) -> NoticeView {
        NoticeView { span: self.span@, centered: self.centered }
    }
}

/// No style of its own.
pub open spec fn no_style() -> Style {
    Style { fg: None, bg: None, bold: false, underlined: false }
}

/// A colour for the text.
pub open spec fn in_color(c: Color) -> Style {
    Style { fg: Some(c), bg: None, bold: false, underlined: false }
}

/// Bold, in a colour.
pub open spec fn in_bold(c: Color) -> Style {
    Style { fg: Some(c), bg: None, bold: true, underlined: false }
}

/// The style of what is selected.
pub open spec fn highlighted() -> Style {
    Style { fg: Some(Color::Black), bg: Some(ACCENT), bold: true, underlined: false }
}

/// The style of a link.
pub open spec fn link_style() -> Style {
    Style { fg: Some(Color::Blue), bg: None, bold: false, underlined: true }
}

/// A text in a style.
pub open spec fn span(s: Seq<char>, style: Style) -> SpanView {
    SpanView { text: s, style }
}

/// A text without a style.
pub open spec fn raw(s: Seq<char>) -> SpanView {
    SpanView { text: s, style: no_style() }
}

// ---------------------------------------------------------------------------
// Building blocks
// ---------------------------------------------------------------------------

impl Style {
    pub fn plain() -> (s: Style)
        ensures
            s == no_style(),
    {
        Style { fg: None, bg: None, bold: false, underlined: false }
    }

    pub fn colored(c: Color) -> (s: Style)
        ensures
            s == in_color(c),
    {
        Style { fg: Some(c), bg: None, bold: false, underlined: false }
    }

    pub fn bold(c: Color) -> (s: Style)
        ensures
            s == in_bold(c),
    {
        Style { fg: Some(c), bg: None, bold: true, underlined: false }
    }

    pub fn highlight() -> (s: Style)
        ensures
            s == highlighted(),
    {
        Style { fg: Some(Color::Black), bg: Some(ACCENT), bold: true, underlined: false }
    }

    pub fn link() -> (s: Style)
        ensures
            s == link_style(),
    {
        Style { fg: Some(Color::Blue), bg: None, bold: false, underlined: true }
    }
}

fn styled(s: &str, style: Style) -> (r: Span)
    ensures
        r@ == span(s@, style),
{
    Span { text: s.to_owned(), style }
}

fn blank() -> (l: Line)
    ensures
        l@ == Seq::<SpanView>::empty(),
{
    let l = Line { spans: Vec::new() };
    assert(l@ =~= Seq::empty());
    l
}

fn line_of(a: Span) -> (l: Line)
    ensures
        l@ == seq![a@],
{
    let l = Line { spans: vec![a] };
    assert(l@ =~= seq![a@]);
    l
}

fn line_of_two(a: Span, b: Span) -> (l: Line)
    ensures
        l@ == seq![a@, b@],
{
    let l = Line { spans: vec![a, b] };
    assert(l@ =~= seq![a@, b@]);
    l
}

fn line_of_three(a: Span, b: Span, c: Span) -> (l: Line)
    ensures
        l@ == seq![a@, b@, c@],
{
    let l = Line { spans: vec![a, b, c] };
    assert(l@ =~= seq![a@, b@, c@]);
    l
}

fn push_line(lines: &mut Vec<Line>, l: Line)
    ensures
        line_views(final(lines)@) == line_views(old(lines)@).push(l@),
{
    let ghost before = lines@;
    let ghost value = l;
    lines.push(l);
    assert(line_views(before.push(value)) =~= line_views(before).push(value@));
}

fn notice(s: String, color: Option<Color>, centered: bool) -> (n: Notice)
    ensures
        n@ == notice_view(s@, color, centered),
{
    Notice { span: Span { text: s, style: Style { fg: color, ..Style::plain() } }, centered }
}

/// A message with this text, colour and alignment.
pub open spec fn notice_view(s: Seq<char>, color: Option<Color>, centered: bool) -> NoticeView {
    NoticeView { span: span(s, Style { fg: color, ..no_style() }), centered }
}

// ---------------------------------------------------------------------------
// Tabs
// ---------------------------------------------------------------------------

/// The titles of the tabs, in order.
pub open spec fn tab_titles() -> Seq<Seq<char>> {
    seq!["  Hardware [1]  "@, "  Parameters [2]  "@, "  Models [3]  "@, "  Settings [4]  "@]
}

/// The place of a tab.
pub open spec fn tab_place(tab: AppTab) -> usize {
    match tab {
        AppTab::Hardware => 0,
        AppTab::Parameters => 1,
        AppTab::Models => 2,
        AppTab::Settings => 3,
    }
}

/// The titles of the tabs, and the place of the one in front.
pub fn draw_tabs(tab: AppTab) -> (r: (Vec<String>, usize))
    ensures
        text::texts(r.0@) == tab_titles(),
        r.1 == tab_place(tab),
{
    let mut titles: Vec<String> = Vec::new();
    text::push_text(&mut titles, "  Hardware [1]  ".to_owned());
    text::push_text(&mut titles, "  Parameters [2]  ".to_owned());
    text::push_text(&mut titles, "  Models [3]  ".to_owned());
    text::push_text(&mut titles, "  Settings [4]  ".to_owned());
    assert(text::texts(titles@) =~= tab_titles());
    let selected: usize = match tab {
        AppTab::Hardware => 0,
        AppTab::Parameters => 1,
        AppTab::Models => 2,
        AppTab::Settings => 3,
    };
    (titles, selected)
}

// ---------------------------------------------------------------------------
// Hardware
// ---------------------------------------------------------------------------

/// A row of the table of the processor and the memory.
#[derive(Debug)]
pub struct TableRow {
    pub label: Span,
    pub value: Span,
}

/// The list of graphics processors.
#[derive(Debug)]
pub enum GpuPanel {
    /// There are none; the text says so.
    Missing(Span),
    /// They are listed, under a title.
    Listed { title: Span, items: Vec<Line> },
}

/// The hardware tab.
#[derive(Debug)]
pub enum HardwareScreen {
    Message(Notice),
    Known { rows: Vec<TableRow>, gpus: GpuPanel },
}

/// A row as a mathematical value: the label and the value.
pub open spec fn row_view(r: TableRow) -> (SpanView, SpanView) {
    (r.label@, r.value@)
}

/// The views of a sequence of rows.
pub open spec fn row_views(rows: Seq<TableRow>) -> Seq<(SpanView, SpanView)> {
    rows.map_values(|r: TableRow| row_view(r))
}

/// The list of graphics processors as a mathematical value.
#[verifier::ext_equal]
pub enum GpuPanelView {
    Missing(SpanView),
    Listed { title: SpanView, items: Seq<Seq<SpanView>> },
}

impl View for GpuPanel {
    type V = GpuPanelView;

    open spec fn view(&self) -> GpuPanelView {
        match self {
            GpuPanel::Missing(s) => GpuPanelView::Missing(s@),
            GpuPanel::Listed { title, items } => GpuPanelView::Listed {
                title: title@,
                items: line_views(items@),
            },
        }
    }
}

/// The hardware tab as a mathematical value.
#[verifier::ext_equal]
pub enum HardwareScreenView {
    Message(NoticeView),
    Known { rows: Seq<(SpanView, SpanView)>, gpus: GpuPanelView },
}

impl View for HardwareScreen {
    type V = HardwareScreenView;

    open spec fn view(&self) -> HardwareScreenView {
        match self {
            HardwareScreen::Message(n) => HardwareScreenView::Message(n@),
            HardwareScreen::Known { rows, gpus } => HardwareScreenView::Known {
                rows: row_views(rows@),
                gpus: gpus@,
            },
        }
    }
}

/// The colour of a vendor.
pub open spec fn vendor_color(v: VendorView) -> Color {
    match v {
        VendorView::Nvidia => Color::Green,
        VendorView::Amd => Color::Red,
        VendorView::Intel => Color::Blue,
        VendorView::Apple => Color::Magenta,
        VendorView::Other(_) => Color::White,
    }
}

/// A graphics processor in the list, given how its memory is shown.
pub open spec fn gpu_line(g: GpuView, memory: Seq<char>) -> Seq<SpanView> {
    seq![
        span("["@ + g.vendor.shown() + "] "@, in_bold(vendor_color(g.vendor))),
        raw(g.name),
        span(
            if g.dedicated {
                "  ("@ + memory + ")"@
            } else {
                "  ("@ + memory + " shared with RAM)"@
            },
            in_color(ACCENT),
        ),
    ]
}

/// The graphics processors in the list.
pub open spec fn gpu_lines(gpus: Seq<GpuView>) -> Seq<Seq<SpanView>> {
    gpus.map_values(|g: GpuView| gpu_line(g, outside::byte_size_text(g.vram_bytes)))
}

/// The title of the list, given how the memory of the processors' own is shown.
pub open spec fn gpu_title(hw: HardwareView, own_memory: Seq<char>) -> SpanView {
    span(
        if hw.has_dedicated_gpu() {
            " GPUs (total VRAM: "@ + own_memory + ") "@
        } else {
            " GPUs (memory shared with RAM) "@
        },
        in_color(ACCENT),
    )
}

/// The list of graphics processors.
pub open spec fn gpu_panel(hw: HardwareView) -> GpuPanelView {
    if hw.has_gpu() {
        GpuPanelView::Listed {
            title: gpu_title(
                hw,
                outside::byte_size_text(hardware::dedicated_sum(hw.gpus) as u64),
            ),
            items: gpu_lines(hw.gpus),
        }
    } else {
        GpuPanelView::Missing(
            span(
                "No GPU detected — will recommend CPU-only parameters."@,
                in_color(WARN),
            ),
        )
    }
}

/// The table of the processor and the memory, given how the memory is shown.
pub open spec fn summary_rows(
    hw: HardwareView,
    ram_shown: Seq<char>,
    available_shown: Seq<char>,
) -> Seq<(SpanView, SpanView)> {
    seq![
        (span("CPU"@, in_color(DIM)), raw(hw.cpu_name)),
        (
            span("Cores (phys / logi)"@, in_color(DIM)),
            raw(
                text::decimal(hw.cpu_physical_cores as nat) + " / "@ + text::decimal(
                    hw.cpu_logical_cores as nat,
                ),
            ),
        ),
        (span("Total RAM"@, in_color(DIM)), span(ram_shown, in_color(GOOD))),
        (span("Available RAM"@, in_color(DIM)), raw(available_shown)),
    ]
}

/// The hardware tab.
pub open spec fn hardware_screen(state: LoadView<HardwareView>) -> HardwareScreenView {
    match state {
        LoadView::Loading => HardwareScreenView::Message(
            notice_view("Scanning hardware…"@, Some(WARN), true),
        ),
        LoadView::Error(e) => HardwareScreenView::Message(
            notice_view("Error: "@ + e, Some(ERR), false),
        ),
        LoadView::Ready(hw) => HardwareScreenView::Known {
            rows: summary_rows(
                hw,
                outside::byte_size_text(hw.total_ram_bytes),
                outside::byte_size_text(hw.available_ram_bytes),
            ),
            gpus: gpu_panel(hw),
        },
    }
}

/// A graphics processor in the list, given how its memory is shown.
pub fn gpu_item(g: &GpuInfo, memory: &str) -> (l: Line)
    ensures
        l@ == gpu_line(g@, memory@),
{
    let color = match &g.vendor {
        GpuVendor::Nvidia => Color::Green,
        GpuVendor::Amd => Color::Red,
        GpuVendor::Intel => Color::Blue,
        GpuVendor::Apple => Color::Magenta,
        GpuVendor::Other(_) => Color::White,
    };
    let vendor = g.vendor.to_string();
    let tail = if g.dedicated {
        "  (".to_owned().concat(memory).concat(")")
    } else {
        "  (".to_owned().concat(memory).concat(" shared with RAM)")
    };
    line_of_three(
        Span {
            text: "[".to_owned().concat(vendor.as_str()).concat("] "),
            style: Style::bold(color),
        },
        Span { text: g.name.clone(), style: Style::plain() },
        Span { text: tail, style: Style::colored(ACCENT) },
    )
}

/// The title of the list of graphics processors, given how the memory of the
/// processors' own is shown.
pub fn gpu_list_title(hw: &HardwareInfo, own_memory: &str) -> (s: Span)
    ensures
        s@ == gpu_title(hw@, own_memory@),
{
    let title = if hw.has_dedicated_gpu() {
        " GPUs (total VRAM: ".to_owned().concat(own_memory).concat(") ")
    } else {
        " GPUs (memory shared with RAM) ".to_owned()
    };
    Span { text: title, style: Style::colored(ACCENT) }
}

fn draw_gpus(hw: &HardwareInfo) -> (panel: GpuPanel)
    requires
        hardware::dedicated_sum(hw@.gpus) <= u64::MAX,
    ensures
        panel@ == gpu_panel(hw@),
{
    if !hw.has_gpu() {
        return GpuPanel::Missing(
            styled(
                "No GPU detected — will recommend CPU-only parameters.",
                Style::colored(WARN),
            ),
        );
    }
    let own_memory = outside::byte_size(hw.total_dedicated_vram_bytes());
    let mut items: Vec<Line> = Vec::new();
    let ghost all = gpu_lines(hw@.gpus);
    assert(line_views(items@) =~= all.take(0));
    for i in 0..hw.gpus.len()
        invariant
            all == gpu_lines(hw@.gpus),
            line_views(items@) == all.take(i as int),
    {
        let memory = outside::byte_size(hw.gpus[i].vram_bytes);
        push_line(&mut items, gpu_item(&hw.gpus[i], memory.as_str()));
        assert(all[i as int] == gpu_line(hw.gpus@[i as int]@, memory@));
        assert(all.take(i + 1) =~= all.take(i as int).push(all[i as int]));
    }
    assert(all.take(all.len() as int) =~= all);
    GpuPanel::Listed { title: gpu_list_title(hw, own_memory.as_str()), items }
}

/// The table of the processor and the memory, given how the memory is shown.
pub fn summary_table(hw: &HardwareInfo, ram_shown: &str, available_shown: &str) -> (rows: Vec<
    TableRow,
>)
    ensures
        row_views(rows@) == summary_rows(hw@, ram_shown@, available_shown@),
{
    let dim = Style::colored(DIM);
    let physical = text::decimal_string(hw.cpu_physical_cores as u64);
    let logical = text::decimal_string(hw.cpu_logical_cores as u64);
    let rows = vec![
        TableRow {
            label: styled("CPU", dim),
            value: Span { text: hw.cpu_name.clone(), style: Style::plain() },
        },
        TableRow {
            label: styled("Cores (phys / logi)", dim),
            value: Span {
                text: physical.concat(" / ").concat(logical.as_str()),
                style: Style::plain(),
            },
        },
        TableRow {
            label: styled("Total RAM", dim),
            value: styled(ram_shown, Style::colored(GOOD)),
        },
        TableRow {
            label: styled("Available RAM", dim),
            value: styled(available_shown, Style::plain()),
        },
    ];
    assert(row_views(rows@) =~= summary_rows(hw@, ram_shown@, available_shown@));
    rows
}

/// The hardware tab.
pub fn draw_hardware(state: &LoadState<HardwareInfo>) -> (screen: HardwareScreen)
    requires
        *state matches LoadState::Ready(hw) ==> hardware::dedicated_sum(hw@.gpus) <= u64::MAX,
    ensures
        screen@ == hardware_screen(crate::app::hw_view(*state)),
{
    match state {
        LoadState::Loading => HardwareScreen::Message(
            notice("Scanning hardware…".to_owned(), Some(WARN), true),
        ),
        LoadState::Error(e) => HardwareScreen::Message(
            notice("Error: ".to_owned().concat(e.as_str()), Some(ERR), false),
        ),
        LoadState::Ready(hw) => {
            let ram = hw.ram_display();
            let available = hw.available_ram_display();
            HardwareScreen::Known {
                rows: summary_table(hw, ram.as_str(), available.as_str()),
                gpus: draw_gpus(hw),
            }
        },
    }
}

// ---------------------------------------------------------------------------
// Parameters
// ---------------------------------------------------------------------------

/// The parameters tab.
#[derive(Debug)]
pub enum ParametersScreen {
    Message(Notice),
    /// The flags under a title, and the reasons for them.
    Flags { title: String, flags: Span, reasons: Vec<Line> },
}

/// The parameters tab as a mathematical value.
#[verifier::ext_equal]
pub enum ParametersScreenView {
    Message(NoticeView),
    Flags { title: Seq<char>, flags: SpanView, reasons: Seq<Seq<SpanView>> },
}

impl View for ParametersScreen {
    type V = ParametersScreenView;

    open spec fn view(&self) -> ParametersScreenView {
        match self {
            ParametersScreen::Message(n) => ParametersScreenView::Message(n@),
            ParametersScreen::Flags { title, flags, reasons } => ParametersScreenView::Flags {
                title: title@,
                flags: flags@,
                reasons: line_views(reasons@),
            },
        }
    }
}

/// A reason in the list.
pub open spec fn reason_line(r: Seq<char>) -> Seq<SpanView> {
    seq![span("• "@, in_color(ACCENT)), raw(r)]
}

/// The parameters tab, for what is known of the machine, the parameters and the
/// id of the selected model.
pub open spec fn parameters_screen(
    hw: LoadView<HardwareView>,
    params: Option<ParamsView>,
    selected: Option<Seq<char>>,
) -> ParametersScreenView {
    match hw {
        LoadView::Loading => ParametersScreenView::Message(
            notice_view("Detecting hardware…"@, Some(WARN), true),
        ),
        LoadView::Error(e) => ParametersScreenView::Message(
            notice_view("Hardware error: "@ + e, Some(ERR), false),
        ),
        LoadView::Ready(_) => match params {
            None => ParametersScreenView::Message(
                notice_view("Waiting for hardware data…"@, None, true),
            ),
            Some(p) => ParametersScreenView::Flags {
                title: match selected {
                    Some(id) => " Recommended llama.cpp flags — for "@ + id + " "@,
                    None => " Recommended llama.cpp flags (generic — no model selected) "@,
                },
                flags: span(text::joined(p.cli_lines(), params::line_break()), in_color(GOOD)),
                reasons: p.rationale.map_values(|r: Seq<char>| reason_line(r)),
            },
        },
    }
}

fn draw_reasons(params: &LlamaCppParams) -> (reasons: Vec<Line>)
    ensures
        line_views(reasons@) == params@.rationale.map_values(|r: Seq<char>| reason_line(r)),
{
    let mut reasons: Vec<Line> = Vec::new();
    let ghost all = params@.rationale.map_values(|r: Seq<char>| reason_line(r));
    assert(line_views(reasons@) =~= all.take(0));
    for i in 0..params.rationale.len()
        invariant
            all == params@.rationale.map_values(|r: Seq<char>| reason_line(r)),
            line_views(reasons@) == all.take(i as int),
    {
        let l = line_of_two(
            styled("• ", Style::colored(ACCENT)),
            Span { text: params.rationale[i].clone(), style: Style::plain() },
        );
        push_line(&mut reasons, l);
        assert(all[i as int] == reason_line(params.rationale@[i as int]@));
        assert(all.take(i + 1) =~= all.take(i as int).push(all[i as int]));
    }
    assert(all.take(all.len() as int) =~= all);
    reasons
}

/// The id of a model that may be missing.
pub open spec fn id_view(m: Option<ModelView>) -> Option<Seq<char>> {
    match m {
        Some(m) => Some(m.model_id),
        None => None,
    }
}

/// The parameters tab.
pub fn draw_parameters<P>(app: &App<P>) -> (screen: ParametersScreen)
    ensures
        screen@ == parameters_screen(app@.hw, app@.params, id_view(app@.selected_model())),
{
    match &app.hw_state {
        LoadState::Loading => ParametersScreen::Message(
            notice("Detecting hardware…".to_owned(), Some(WARN), true),
        ),
        LoadState::Error(e) => ParametersScreen::Message(
            notice("Hardware error: ".to_owned().concat(e.as_str()), Some(ERR), false),
        ),
        LoadState::Ready(_) => match &app.params {
            None => ParametersScreen::Message(
                notice("Waiting for hardware data…".to_owned(), None, true),
            ),
            Some(p) => {
                let title = match app.selected_model() {
                    Some(m) => " Recommended llama.cpp flags — for ".to_owned().concat(
                        m.model_id.as_str(),
                    ).concat(" "),
                    None => " Recommended llama.cpp flags (generic — no model selected) ".to_owned(),
                };
                ParametersScreen::Flags {
                    title,
                    flags: Span { text: p.to_cli_string(), style: Style::colored(GOOD) },
                    reasons: draw_reasons(p),
                }
            },
        },
    }
}

// ---------------------------------------------------------------------------
// The list of models
// ---------------------------------------------------------------------------

/// The mark of an installed model.
pub open spec fn installed_mark() -> SpanView {
    span(" ✓ installed"@, in_bold(GOOD))
}

/// An entry of the list of models, given how the size of the file to download
/// is shown, where that is known.
pub open spec fn model_item(
    model_id: Seq<char>,
    selected: bool,
    installed: bool,
    size_shown: Option<Seq<char>>,
) -> Seq<SpanView> {
    let name = seq![
        span(
            model_id,
            if selected {
                highlighted()
            } else {
                no_style()
            },
        ),
    ];
    let badge = if installed {
        seq![installed_mark()]
    } else {
        Seq::empty()
    };
    let size = seq![
        span(
            match size_shown {
                Some(s) => " ["@ + s + "]"@,
                None => Seq::empty(),
            },
            in_color(DIM),
        ),
    ];
    name + badge + size
}

/// How the size of the file to download for a model is shown: that of the best
/// quantization for the machine, and not that of the whole repository.
pub open spec fn download_size_shown<P>(v: AppView<P>, m: ModelView) -> Option<Seq<char>> {
    match v.best_quant_for(m) {
        Some(q) => match models::quant_size(m.files(), q) {
            Some(size) => Some(outside::byte_size_text(size)),
            None => None,
        },
        None => None,
    }
}

/// The entry at place `i` of the list of models.
pub open spec fn item_at<P>(v: AppView<P>, i: int) -> Seq<SpanView> {
    let m = v.displayed()[i];
    model_item(
        m.model_id,
        v.selected matches Some(s) && s == i,
        v.installed.contains_key(m.model_id),
        download_size_shown(v, m),
    )
}

/// The entries of the list of models.
pub open spec fn model_items<P>(v: AppView<P>) -> Seq<Seq<SpanView>> {
    Seq::new(v.displayed().len(), |i: int| item_at(v, i))
}

/// An entry of the list of models, given how the size of the file to download
/// is shown, where that is known.
pub fn model_list_item(
    model_id: &str,
    selected: bool,
    installed: bool,
    size_shown: &Option<String>,
) -> (l: Line)
    ensures
        l@ == model_item(model_id@, selected, installed, models::text_view(*size_shown)),
{
    let style = if selected {
        Style::highlight()
    } else {
        Style::plain()
    };
    let size = match size_shown {
        Some(s) => " [".to_owned().concat(s.as_str()).concat("]"),
        None => String::new(),
    };
    let size_span = Span { text: size, style: Style::colored(DIM) };
    let l = if installed {
        line_of_three(
            styled(model_id, style),
            styled(" ✓ installed", Style::bold(GOOD)),
            size_span,
        )
    } else {
        line_of_two(styled(model_id, style), size_span)
    };
    assert(l@ =~= model_item(model_id@, selected, installed, models::text_view(*size_shown)));
    l
}

fn size_to_show<P>(app: &App<P>, m: &HfModel) -> (shown: Option<String>)
    ensures
        models::text_view(shown) == download_size_shown(app@, m@),
{
    match app.best_quant_for(m) {
        Some(q) => match m.quant_size_bytes(q) {
            Some(size) => Some(outside::byte_size(size)),
            None => None,
        },
        None => None,
    }
}

/// The entries of the list of models.
pub fn draw_model_list<P>(app: &App<P>) -> (items: Vec<Line>)
    ensures
        line_views(items@) == model_items(app@),
{
    let list = app.display_models();
    let mut items: Vec<Line> = Vec::new();
    let ghost all = model_items(app@);
    assert(list@.len() == app@.displayed().len());
    assert(line_views(items@) =~= all.take(0));
    for i in 0..list.len()
        invariant
            list@.len() == app@.displayed().len(),
            crate::app::ref_views(list@) == app@.displayed(),
            all == model_items(app@),
            line_views(items@) == all.take(i as int),
    {
        let m = list[i];
        assert(app@.displayed()[i as int] == m@) by {
            assert(crate::app::ref_views(list@)[i as int] == list@[i as int]@);
        }
        let selected = match app.model_list_state.selected() {
            Some(k) => k == i,
            None => false,
        };
        let installed = app.installed.contains_key(m.model_id.as_str());
        let size = size_to_show(app, m);
        push_line(
            &mut items,
            model_list_item(m.model_id.as_str(), selected, installed, &size),
        );
        assert(all[i as int] == item_at(app@, i as int));
        assert(all.take(i + 1) =~= all.take(i as int).push(all[i as int]));
    }
    assert(all.take(all.len() as int) =~= all);
    items
}

// ---------------------------------------------------------------------------
// The details of a model
// ---------------------------------------------------------------------------

/// The details of the selected model.
#[derive(Debug)]
pub struct ModelDetail {
    pub lines: Vec<Line>,
    /// The text on the progress bar, where this model is being downloaded.
    pub gauge: Option<String>,
}

/// The details as a mathematical value.
#[verifier::ext_equal]
pub struct ModelDetailView {
    pub lines: Seq<Seq<SpanView>>,
    pub gauge: Option<Seq<char>>,
}

impl View for ModelDetail {
    type V = ModelDetailView;

    open spec fn view(&self) -> ModelDetailView {
        ModelDetailView { lines: line_views(self.lines@), gauge: models::text_view(self.gauge) }
    }
}

/// A label and a value.
pub open spec fn labelled(label: Seq<char>, value: SpanView) -> Seq<SpanView> {
    seq![span(label, in_color(DIM)), value]
}

/// A text, or `N/A`.
pub open spec fn text_or_na(s: Option<Seq<char>>) -> Seq<char> {
    match s {
        Some(s) => s,
        None => "N/A"@,
    }
}

/// What is known of a model.
pub open spec fn fact_lines(m: ModelView, installed: bool, best_quant: Option<Seq<char>>) -> Seq<
    Seq<SpanView>,
> {
    seq![
        labelled("Model: "@, span(m.model_id, in_bold(ACCENT))),
        labelled(
            "Status: "@,
            if installed {
                span("Installed"@, in_bold(GOOD))
            } else {
                span("Not installed"@, in_color(DIM))
            },
        ),
        labelled(
            "Downloads: "@,
            raw(
                match m.downloads {
                    Some(d) => text::decimal(d as nat),
                    None => "N/A"@,
                },
            ),
        ),
        labelled(
            "Likes: "@,
            raw(
                match m.likes {
                    Some(l) => text::decimal(l as nat),
                    None => "N/A"@,
                },
            ),
        ),
        labelled("Last updated: "@, raw(text_or_na(m.last_modified))),
        labelled(
            "Est. layers: "@,
            raw(text::decimal(models::layers_hinted(m.description()) as nat)),
        ),
        labelled(
            "Best quant for your machine: "@,
            span(text_or_na(best_quant), in_color(GOOD)),
        ),
    ]
}

/// Where the model can be downloaded.
pub open spec fn url_lines(url: Option<Seq<char>>) -> Seq<Seq<SpanView>> {
    match url {
        Some(u) => seq![
            Seq::empty(),
            seq![span("Download URL:"@, in_color(DIM))],
            seq![span(u, link_style())],
        ],
        None => Seq::empty(),
    }
}

/// The tags that do not name the base model.
pub open spec fn own_tags(tags: Seq<Seq<char>>) -> Seq<Seq<char>>
    decreases tags.len(),
{
    if tags.len() == 0 {
        Seq::empty()
    } else if text::begins_with(tags.last(), "base_model"@) {
        own_tags(tags.drop_last())
    } else {
        own_tags(tags.drop_last()).push(tags.last())
    }
}

/// The tags that are shown: the first eight that do not name the base model.
pub open spec fn shown_tags(tags: Seq<Seq<char>>) -> Seq<Seq<char>> {
    if own_tags(tags).len() > 8 {
        own_tags(tags).take(8)
    } else {
        own_tags(tags)
    }
}

/// The model's tags.
pub open spec fn tag_lines(tags: Option<Seq<Seq<char>>>) -> Seq<Seq<SpanView>> {
    match tags {
        Some(t) => seq![
            Seq::empty(),
            labelled("Tags: "@, raw(text::joined(shown_tags(t), ", "@))),
        ],
        None => Seq::empty(),
    }
}

/// What a key does with the model.
pub open spec fn hint_lines(downloading: bool, installed: bool) -> Seq<Seq<SpanView>> {
    seq![
        Seq::empty(),
        seq![
            span(
                if downloading {
                    "Downloading… press [x] to cancel"@
                } else if installed {
                    "Press [l] to launch llama.cpp with this model"@
                } else {
                    "Press [l] to download this model to the HF cache and launch it"@
                },
                in_color(DIM),
            ),
        ],
    ]
}

/// The colour of a message on what was done.
pub open spec fn status_color(status: Seq<char>) -> Color {
    if text::begins_with(status, "Launched"@) {
        GOOD
    } else {
        WARN
    }
}

/// The message on what was done.
pub open spec fn status_lines(status: Option<Seq<char>>) -> Seq<Seq<SpanView>> {
    match status {
        Some(s) => seq![Seq::empty(), seq![span(s, in_color(status_color(s)))]],
        None => Seq::empty(),
    }
}

/// How far a download has come, in words, given how the sizes and the share are
/// shown.
pub open spec fn progress_text(
    total: Option<u64>,
    downloaded_shown: Seq<char>,
    total_shown: Seq<char>,
    percent: Seq<char>,
) -> Seq<char> {
    match total {
        Some(t) => if t > 0 {
            downloaded_shown + " / "@ + total_shown + " ("@ + percent + "%)"@
        } else {
            downloaded_shown + " downloaded"@
        },
        None => downloaded_shown + " downloaded"@,
    }
}

/// How far a download has come, in words, given how the share is shown.
pub open spec fn download_text(d: DownloadView, percent: Seq<char>) -> Seq<char> {
    progress_text(
        d.total,
        outside::byte_size_text(d.downloaded),
        outside::byte_size_text(
            match d.total {
                Some(t) => t,
                None => 0,
            },
        ),
        percent,
    )
}

/// This model is being downloaded.
pub open spec fn is_downloading<P>(v: AppView<P>, m: ModelView) -> bool {
    v.download matches Some(d) && d.model_id == m.model_id
}

/// Where the best quantization of a model for the machine can be downloaded.
pub open spec fn best_url<P>(v: AppView<P>, m: ModelView) -> Option<Seq<char>> {
    match v.best_quant_for(m) {
        Some(q) => m.url_for(q),
        None => None,
    }
}

/// The details of a model, given how the share of a download is shown.
pub open spec fn detail_of<P>(v: AppView<P>, m: ModelView, percent: Seq<char>) -> ModelDetailView {
    let installed = v.installed.contains_key(m.model_id);
    let downloading = is_downloading(v, m);
    ModelDetailView {
        lines: fact_lines(m, installed, v.best_quant_for(m)) + url_lines(best_url(v, m))
            + tag_lines(m.tags) + hint_lines(downloading, installed) + status_lines(
            v.launch_status,
        ),
        gauge: if downloading {
            Some(download_text(v.download->0, percent))
        } else {
            None
        },
    }
}

fn number_text(n: Option<u64>) -> (s: String)
    ensures
        s@ == (match n {
            Some(n) => text::decimal(n as nat),
            None => "N/A"@,
        }),
{
    match n {
        Some(n) => text::decimal_string(n),
        None => "N/A".to_owned(),
    }
}

fn labelled_line(label: &str, value: Span) -> (l: Line)
    ensures
        l@ == labelled(label@, value@),
{
    line_of_two(styled(label, Style::colored(DIM)), value)
}

/// What is known of a model.
pub fn model_facts(m: &HfModel, installed: bool, best_quant: Option<&str>) -> (lines: Vec<Line>)
    ensures
        line_views(lines@) == fact_lines(
            m@,
            installed,
            match best_quant {
                Some(q) => Some(q@),
                None => None,
            },
        ),
{
    let plain = Style::plain();
    let status = if installed {
        styled("Installed", Style::bold(GOOD))
    } else {
        styled("Not installed", Style::colored(DIM))
    };
    let likes: Option<u64> = match m.likes {
        Some(l) => Some(l as u64),
        None => None,
    };
    let updated = match &m.last_modified {
        Some(s) => s.clone(),
        None => "N/A".to_owned(),
    };
    let quant = match best_quant {
        Some(q) => q.to_owned(),
        None => "N/A".to_owned(),
    };
    let layers = text::decimal_string(m.estimated_layers() as u64);
    let mut lines: Vec<Line> = Vec::new();
    push_line(
        &mut lines,
        labelled_line("Model: ", styled(m.model_id.as_str(), Style::bold(ACCENT))),
    );
    push_line(&mut lines, labelled_line("Status: ", status));
    push_line(
        &mut lines,
        labelled_line("Downloads: ", Span { text: number_text(m.downloads), style: plain }),
    );
    push_line(
        &mut lines,
        labelled_line("Likes: ", Span { text: number_text(likes), style: plain }),
    );
    push_line(&mut lines, labelled_line("Last updated: ", Span { text: updated, style: plain }));
    push_line(&mut lines, labelled_line("Est. layers: ", Span { text: layers, style: plain }));
    push_line(
        &mut lines,
        labelled_line(
            "Best quant for your machine: ",
            Span { text: quant, style: Style::colored(GOOD) },
        ),
    );
    assert(line_views(lines@) =~= fact_lines(
        m@,
        installed,
        match best_quant {
            Some(q) => Some(q@),
            None => None,
        },
    ));
    lines
}

fn push_url(lines: &mut Vec<Line>, url: Option<String>)
    ensures
        line_views(final(lines)@) == line_views(old(lines)@) + url_lines(models::text_view(url)),
{
    if let Some(u) = url {
        push_line(lines, blank());
        push_line(lines, line_of(styled("Download URL:", Style::colored(DIM))));
        push_line(lines, line_of(Span { text: u, style: Style::link() }));
    }
    assert(line_views(lines@) =~= line_views(old(lines)@) + url_lines(models::text_view(url)));
}

/// The tags that are shown, in one text: the first eight that do not name the
/// base model.
pub fn tags_text(tags: &Vec<String>) -> (s: String)
    ensures
        s@ == text::joined(shown_tags(text::texts(tags@)), ", "@),
{
    let mut shown: Vec<String> = Vec::new();
    let ghost all = text::texts(tags@);
    let mut i: usize = 0;
    assert(text::texts(shown@) =~= own_tags(all.take(0)));
    while i < tags.len() && shown.len() < 8
        invariant
            i <= tags@.len(),
            shown@.len() <= 8,
            all == text::texts(tags@),
            text::texts(shown@) == own_tags(all.take(i as int)),
        decreases tags@.len() - i,
    {
        assert(all.take(i + 1).drop_last() =~= all.take(i as int));
        assert(all.take(i + 1).last() == tags@[i as int]@);
        let ghost before = text::texts(shown@);
        assert(before.len() == shown@.len());
        if !text::starts_with(tags[i].as_str(), "base_model") {
            text::push_text(&mut shown, tags[i].clone());
            assert(text::texts(shown@).len() == shown@.len());
        }
        i = i + 1;
    }
    proof {
        assert(text::texts(shown@).len() == shown@.len());
        lemma_own_tags_grow(all, i as int);
        assert(text::texts(shown@) =~= shown_tags(all)) by {
            if i == tags@.len() {
                assert(all.take(i as int) =~= all);
            }
        }
    }
    text::join(&shown, ", ")
}

proof fn lemma_own_tags_grow(tags: Seq<Seq<char>>, i: int)
    requires
        0 <= i <= tags.len(),
    ensures
        own_tags(tags.take(i)).len() <= own_tags(tags).len(),
        own_tags(tags).take(own_tags(tags.take(i)).len() as int) == own_tags(tags.take(i)),
    decreases tags.len(),
{
    if i == tags.len() {
        assert(tags.take(i) =~= tags);
        assert(own_tags(tags).take(own_tags(tags).len() as int) =~= own_tags(tags));
    } else {
        lemma_own_tags_grow(tags.drop_last(), i);
        assert(tags.drop_last().take(i) =~= tags.take(i));
        let few = own_tags(tags.take(i));
        assert(own_tags(tags).take(few.len() as int) =~= own_tags(tags.drop_last()).take(
            few.len() as int,
        ));
    }
}

fn push_tags(lines: &mut Vec<Line>, m: &HfModel)
    ensures
        line_views(final(lines)@) == line_views(old(lines)@) + tag_lines(m@.tags),
{
    if let Some(t) = &m.tags {
        push_line(lines, blank());
        push_line(
            lines,
            labelled_line("Tags: ", Span { text: tags_text(t), style: Style::plain() }),
        );
    }
    assert(line_views(lines@) =~= line_views(old(lines)@) + tag_lines(m@.tags));
}

fn push_hint(lines: &mut Vec<Line>, downloading: bool, installed: bool)
    ensures
        line_views(final(lines)@) == line_views(old(lines)@) + hint_lines(downloading, installed),
{
    let hint = if downloading {
        "Downloading… press [x] to cancel"
    } else if installed {
        "Press [l] to launch llama.cpp with this model"
    } else {
        "Press [l] to download this model to the HF cache and launch it"
    };
    push_line(lines, blank());
    push_line(lines, line_of(styled(hint, Style::colored(DIM))));
    assert(line_views(lines@) =~= line_views(old(lines)@) + hint_lines(downloading, installed));
}

/// The colour of a message on what was done.
pub fn color_of_status(status: &str) -> (c: Color)
    ensures
        c == status_color(status@),
{
    if text::starts_with(status, "Launched") {
        GOOD
    } else {
        WARN
    }
}

fn push_status(lines: &mut Vec<Line>, status: &Option<String>)
    ensures
        line_views(final(lines)@) == line_views(old(lines)@) + status_lines(
            models::text_view(*status),
        ),
{
    if let Some(s) = status {
        push_line(lines, blank());
        push_line(
            lines,
            line_of(styled(s.as_str(), Style::colored(color_of_status(s.as_str())))),
        );
    }
    assert(line_views(lines@) =~= line_views(old(lines)@) + status_lines(
        models::text_view(*status),
    ));
}

/// How far a download has come, in words, given how the sizes and the share are
/// shown.
pub fn progress_in_words(
    total: Option<u64>,
    downloaded_shown: String,
    total_shown: &str,
    percent: &str,
) -> (s: String)
    ensures
        s@ == progress_text(total, downloaded_shown@, total_shown@, percent@),
{
    let known = match total {
        Some(t) => t > 0,
        None => false,
    };
    if known {
        downloaded_shown.concat(" / ").concat(total_shown).concat(" (").concat(percent).concat("%)")
    } else {
        downloaded_shown.concat(" downloaded")
    }
}

fn download_in_words(d: &DownloadState, percent: &str) -> (s: String)
    ensures
        s@ == download_text(d@, percent@),
{
    let total: u64 = match d.total {
        Some(t) => t,
        None => 0,
    };
    let total_shown = outside::byte_size(total);
    progress_in_words(d.total, outside::byte_size(d.downloaded), total_shown.as_str(), percent)
}

/// The details of the selected model, given how the share of a download is
/// shown; there are none where none is selected.
pub fn draw_model_detail<P>(app: &App<P>, percent: &str) -> (detail: Option<ModelDetail>)
    ensures
        match app@.selected_model() {
            Some(m) => detail matches Some(d) && d@ == detail_of(app@, m, percent@),
            None => detail is None,
        },
{
    let m = match app.selected_model() {
        Some(m) => m,
        None => {
            return None;
        },
    };
    let best_quant = app.best_quant_for(m);
    let url = match best_quant {
        Some(q) => m.download_url_for(q),
        None => None,
    };
    let installed = app.installed.contains_key(m.model_id.as_str());
    let downloading = match &app.download {
        Some(d) => text::same_text(d.model_id.as_str(), m.model_id.as_str()),
        None => false,
    };
    let mut lines = model_facts(m, installed, best_quant);
    push_url(&mut lines, url);
    push_tags(&mut lines, m);
    push_hint(&mut lines, downloading, installed);
    push_status(&mut lines, &app.launch_status);
    let gauge = match &app.download {
        Some(d) => if downloading {
            Some(download_in_words(d, percent))
        } else {
            None
        },
        None => None,
    };
    let detail = ModelDetail { lines, gauge };
    assert(detail@ =~= detail_of(app@, m@, percent@));
    Some(detail)
}

// ---------------------------------------------------------------------------
// Models
// ---------------------------------------------------------------------------

/// The body of the models tab.
#[derive(Debug)]
pub enum ModelsBody {
    Message(Notice),
    /// The list of models, and the details of the selected one.
    Listed { items: Vec<Line>, detail: Option<ModelDetail> },
}

/// The models tab.
#[derive(Debug)]
pub struct ModelsScreen {
    pub title: Span,
    /// The box with the search text, while that is being edited.
    pub search_box: Option<Span>,
    pub body: ModelsBody,
}

/// The body of the models tab as a mathematical value.
#[verifier::ext_equal]
pub enum ModelsBodyView {
    Message(NoticeView),
    Listed { items: Seq<Seq<SpanView>>, detail: Option<ModelDetailView> },
}

impl View for ModelsBody {
    type V = ModelsBodyView;

    open spec fn view(&self) -> ModelsBodyView {
        match self {
            ModelsBody::Message(n) => ModelsBodyView::Message(n@),
            ModelsBody::Listed { items, detail } => ModelsBodyView::Listed {
                items: line_views(items@),
                detail: match detail {
                    Some(d) => Some(d@),
                    None => None,
                },
            },
        }
    }
}

/// The title of the models tab.
pub open spec fn models_title(query: Option<Seq<char>>) -> SpanView {
    span(
        match query {
            Some(q) => " Model Search: \""@ + q + "\" "@,
            None => " Model Recommendations "@,
        },
        in_color(ACCENT),
    )
}

/// The message in place of an empty list of models.
pub open spec fn no_models_notice(
    state: LoadView<Seq<ModelView>>,
    query: Option<Seq<char>>,
) -> NoticeView {
    match state {
        LoadView::Loading => notice_view(
            match query {
                Some(q) => "Searching for \""@ + q + "\"…"@,
                None => "Fetching models from Hugging Face…"@,
            },
            Some(WARN),
            true,
        ),
        LoadView::Error(e) => notice_view("Error: "@ + e, Some(ERR), false),
        LoadView::Ready(_) => notice_view(
            match query {
                Some(q) => "No models matching \""@ + q + "\" fit your hardware."@,
                None => "No models found that fit your hardware."@,
            },
            Some(WARN),
            true,
        ),
    }
}

/// The body of the models tab, given how the share of a download is shown.
pub open spec fn models_body<P>(v: AppView<P>, percent: Seq<char>) -> ModelsBodyView {
    if v.displayed().len() == 0 {
        ModelsBodyView::Message(no_models_notice(v.models, v.search_query))
    } else {
        ModelsBodyView::Listed {
            items: model_items(v),
            detail: match v.selected_model() {
                Some(m) => Some(detail_of(v, m, percent)),
                None => None,
            },
        }
    }
}

fn draw_no_models<P>(app: &App<P>) -> (n: Notice)
    ensures
        n@ == no_models_notice(app@.models, app@.search_query),
{
    match &app.models_state {
        LoadState::Loading => {
            let message = match &app.search_query {
                Some(q) => "Searching for \"".to_owned().concat(q.as_str()).concat("\"…"),
                None => "Fetching models from Hugging Face…".to_owned(),
            };
            notice(message, Some(WARN), true)
        },
        LoadState::Error(e) => notice(
            "Error: ".to_owned().concat(e.as_str()),
            Some(ERR),
            false,
        ),
        LoadState::Ready(_) => {
            let message = match &app.search_query {
                Some(q) => "No models matching \"".to_owned().concat(q.as_str()).concat(
                    "\" fit your hardware.",
                ),
                None => "No models found that fit your hardware.".to_owned(),
            };
            notice(message, Some(WARN), true)
        },
    }
}

/// The models tab, given how the share of a download is shown.
pub fn draw_models<P>(app: &App<P>, percent: &str) -> (screen: ModelsScreen)
    ensures
        screen.title@ == models_title(app@.search_query),
        match screen.search_box {
            Some(s) => app@.search_editing && s@ == span("/"@ + app@.search_input, in_color(ACCENT)),
            None => !app@.search_editing,
        },
        screen.body@ == models_body(app@, percent@),
{
    let title = match &app.search_query {
        Some(q) => " Model Search: \"".to_owned().concat(q.as_str()).concat("\" "),
        None => " Model Recommendations ".to_owned(),
    };
    let search_box = if app.search_editing {
        Some(
            Span {
                text: "/".to_owned().concat(app.search_input.as_str()),
                style: Style::colored(ACCENT),
            },
        )
    } else {
        None
    };
    let listed: usize = app.display_models().len();
    assert(listed == app@.displayed().len());
    let body = if listed == 0 {
        ModelsBody::Message(draw_no_models(app))
    } else {
        ModelsBody::Listed {
            items: draw_model_list(app),
            detail: draw_model_detail(app, percent),
        }
    };
    ModelsScreen { title: Span { text: title, style: Style::colored(ACCENT) }, search_box, body }
}

// ---------------------------------------------------------------------------
// Settings
// ---------------------------------------------------------------------------

/// The path of llama.cpp: the input while it is being edited, else what is set.
pub open spec fn path_shown<P>(v: AppView<P>) -> SpanView {
    if v.settings_editing {
        span(v.settings_input + "_"@, in_bold(ACCENT))
    } else {
        match v.config.llama_cpp_path {
            Some(p) => span(p, in_color(GOOD)),
            None => span("(not set)"@, in_color(WARN)),
        }
    }
}

/// The settings tab.
pub open spec fn settings_lines<P>(v: AppView<P>) -> Seq<Seq<SpanView>> {
    seq![
        labelled("llama.cpp path: "@, path_shown(v)),
        Seq::empty(),
        seq![
            span(
                if v.settings_editing {
                    "Type the path to your llama.cpp executable, or a directory containing it (e.g. llama.exe/llama-cli.exe/main). [Enter] save, [Esc] cancel."@
                } else {
                    "[e] or [Enter] to edit the path used when launching llama.cpp from the Models tab."@
                },
                in_color(DIM),
            ),
        ],
        Seq::empty(),
        labelled(
            "Last launched model: "@,
            match v.config.last_launched_model_id {
                Some(id) => span(id, in_color(GOOD)),
                None => span("(none yet)"@, in_color(DIM)),
            },
        ),
        seq![
            span(
                "[L] Relaunch it from any tab (downloading again first if needed)."@,
                in_color(DIM),
            ),
        ],
    ]
}

/// The settings tab.
pub fn draw_settings<P>(app: &App<P>) -> (lines: Vec<Line>)
    ensures
        line_views(lines@) == settings_lines(app@),
{
    let path = if app.settings_editing {
        Span {
            text: app.settings_input.clone().concat("_"),
            style: Style::bold(ACCENT),
        }
    } else {
        match &app.config.llama_cpp_path {
            Some(p) => styled(p.as_str(), Style::colored(GOOD)),
            None => styled("(not set)", Style::colored(WARN)),
        }
    };
    let help = if app.settings_editing {
        "Type the path to your llama.cpp executable, or a directory containing it (e.g. llama.exe/llama-cli.exe/main). [Enter] save, [Esc] cancel."
    } else {
        "[e] or [Enter] to edit the path used when launching llama.cpp from the Models tab."
    };
    let last = match &app.config.last_launched_model_id {
        Some(id) => styled(id.as_str(), Style::colored(GOOD)),
        None => styled("(none yet)", Style::colored(DIM)),
    };
    let mut lines: Vec<Line> = Vec::new();
    push_line(&mut lines, labelled_line("llama.cpp path: ", path));
    push_line(&mut lines, blank());
    push_line(&mut lines, line_of(styled(help, Style::colored(DIM))));
    push_line(&mut lines, blank());
    push_line(&mut lines, labelled_line("Last launched model: ", last));
    push_line(
        &mut lines,
        line_of(
            styled(
                "[L] Relaunch it from any tab (downloading again first if needed).",
                Style::colored(DIM),
            ),
        ),
    );
    assert(line_views(lines@) =~= settings_lines(app@));
    lines
}

// ---------------------------------------------------------------------------
// The status bar
// ---------------------------------------------------------------------------

/// The keys that mean something in the present state.
pub open spec fn key_hints<P>(v: AppView<P>) -> Seq<char> {
    match v.current_tab {
        AppTab::Models => if v.search_editing {
            " [Enter] Search  [Esc] Cancel "@
        } else {
            " [1/2/3/4] Tabs  [↑↓] Select model  [l] Launch/download  [/] Search  [L] Relaunch last  [r] Refresh  [q] Quit "@
        },
        AppTab::Settings => if v.settings_editing {
            " [Enter] Save  [Esc] Cancel "@
        } else {
            " [1/2/3/4] Tabs  [e] Edit path  [L] Relaunch last  [q] Quit "@
        },
        _ => " [1/2/3/4] Tabs  [L] Relaunch last  [r] Refresh  [q] Quit "@,
    }
}

/// The status bar, given how the share of a download is shown. A download that
/// is going on is shown before anything else, then the message on what was
/// done, then the keys.
pub open spec fn status_bar<P>(v: AppView<P>, percent: Seq<char>) -> SpanView {
    match v.download {
        Some(d) => span(
            " Downloading "@ + d.model_id + ": "@ + download_text(d, percent)
                + " — [x] Cancel "@,
            in_color(WARN),
        ),
        None => match v.launch_status {
            Some(s) => span(" "@ + s + " "@, in_color(status_color(s))),
            None => span(key_hints(v), in_color(DIM)),
        },
    }
}

/// The status bar, given how the share of a download is shown.
pub fn draw_statusbar<P>(app: &App<P>, percent: &str) -> (bar: Span)
    ensures
        bar@ == status_bar(app@, percent@),
{
    if let Some(d) = &app.download {
        let progress = download_in_words(d, percent);
        return Span {
            text: " Downloading ".to_owned().concat(d.model_id.as_str()).concat(": ").concat(
                progress.as_str(),
            ).concat(" — [x] Cancel "),
            style: Style::colored(WARN),
        };
    }
    if let Some(status) = &app.launch_status {
        return Span {
            text: " ".to_owned().concat(status.as_str()).concat(" "),
            style: Style::colored(color_of_status(status.as_str())),
        };
    }
    let keys = match app.current_tab {
        AppTab::Models => if app.search_editing {
            " [Enter] Search  [Esc] Cancel "
        } else {
            " [1/2/3/4] Tabs  [↑↓] Select model  [l] Launch/download  [/] Search  [L] Relaunch last  [r] Refresh  [q] Quit "
        },
        AppTab::Settings => if app.settings_editing {
            " [Enter] Save  [Esc] Cancel "
        } else {
            " [1/2/3/4] Tabs  [e] Edit path  [L] Relaunch last  [q] Quit "
        },
        _ => " [1/2/3/4] Tabs  [L] Relaunch last  [r] Refresh  [q] Quit ",
    };
    styled(keys, Style::colored(DIM))
}

// ---------------------------------------------------------------------------
// Laws
// ---------------------------------------------------------------------------

/// A download that is going on is shown on every tab, whatever else there is to
/// show: the bar does not depend on the tab, the message, the search, the
/// settings or the selection.
pub proof fn law_download_shows_on_every_tab<P>(v: AppView<P>, w: AppView<P>, percent: Seq<char>)
    requires
        v.download is Some,
        w.download == v.download,
    ensures
        status_bar(w, percent) == status_bar(v, percent),
{
}

/// A message on what was done shows on every tab, where nothing is downloaded.
pub proof fn law_message_shows_on_every_tab<P>(v: AppView<P>, tab: AppTab, percent: Seq<char>)
    requires
        v.download is None,
        v.launch_status is Some,
    ensures
        status_bar(AppView { current_tab: tab, ..v }, percent) == status_bar(v, percent),
        status_bar(v, percent).text == " "@ + v.launch_status->0 + " "@,
{
}

/// A model of the list has the mark of an installed one exactly where its file
/// is on the disk, in the cache or in the user's own directory.
pub proof fn law_models_on_the_disk_are_marked<P>(v: AppView<P>, i: int)
    requires
        0 <= i < v.displayed().len(),
    ensures
        model_items(v)[i].contains(installed_mark()) <==> v.installed.contains_key(
            v.displayed()[i].model_id,
        ),
{
    let row = item_at(v, i);
    assert(model_items(v)[i] == row);
    assert(row[0].style != installed_mark().style);
    assert(row.last().style != installed_mark().style);
    if v.installed.contains_key(v.displayed()[i].model_id) {
        assert(row[1] == installed_mark());
    }
}

/// At most eight tags are shown, none of which names the base model.
pub proof fn law_shown_tags(tags: Seq<Seq<char>>, i: int)
    ensures
        shown_tags(tags).len() <= 8,
        0 <= i < shown_tags(tags).len() ==> tags.contains(shown_tags(tags)[i])
            && !text::begins_with(shown_tags(tags)[i], "base_model"@),
{
    lemma_own_tags(tags, i);
}

proof fn lemma_own_tags(tags: Seq<Seq<char>>, i: int)
    ensures
        0 <= i < own_tags(tags).len() ==> tags.contains(own_tags(tags)[i]) && !text::begins_with(
            own_tags(tags)[i],
            "base_model"@,
        ),
    decreases tags.len(),
{
    if tags.len() > 0 && 0 <= i < own_tags(tags).len() {
        let before = own_tags(tags.drop_last());
        lemma_own_tags(tags.drop_last(), i);
        if i < before.len() {
            let t = before[i];
            let k = choose|k: int| 0 <= k < tags.drop_last().len() && tags.drop_last()[k] == t;
            assert(tags[k] == t);
        } else {
            assert(tags[tags.len() - 1] == own_tags(tags)[i]);
        }
    }
}

/// The text of a line, its parts put together.
pub open spec fn line_text(l: Seq<SpanView>) -> Seq<char>
    decreases l.len(),
{
    if l.len() == 0 {
        Seq::empty()
    } else {
        line_text(l.drop_last()) + l.last().text
    }
}

proof fn lemma_line_text(a: SpanView, b: SpanView, c: SpanView)
    ensures
        line_text(seq![a]) == a.text,
        line_text(seq![a, b]) == a.text + b.text,
        line_text(seq![a, b, c]) == a.text + b.text + c.text,
{
    let one = seq![a];
    let two = seq![a, b];
    let three = seq![a, b, c];
    assert(one.drop_last() =~= Seq::empty());
    assert(line_text(one.drop_last()) =~= Seq::empty());
    assert(line_text(one) =~= a.text);
    assert(two.drop_last() =~= one);
    assert(three.drop_last() =~= two);
}

/// A line of the list of graphics processors names the vendor, the processor and
/// its memory, and says where that is shared. The colour goes by the vendor.
pub proof fn law_line_of_a_processor(g: GpuView, memory: Seq<char>)
    ensures
        g.dedicated ==> line_text(gpu_line(g, memory)) == "["@ + g.vendor.shown() + "] "@ + g.name
            + ("  ("@ + memory + ")"@),
        !g.dedicated ==> line_text(gpu_line(g, memory)) == "["@ + g.vendor.shown() + "] "@ + g.name
            + ("  ("@ + memory + " shared with RAM)"@),
        gpu_line(g, memory).len() == 3,
        gpu_line(g, memory)[1].text == g.name,
        gpu_line(g, memory)[0].style.fg == Some(
            if g.vendor is Nvidia {
                Color::Green
            } else if g.vendor is Amd {
                Color::Red
            } else if g.vendor is Intel {
                Color::Blue
            } else if g.vendor is Apple {
                Color::Magenta
            } else {
                Color::White
            },
        ),
{
    let l = gpu_line(g, memory);
    lemma_line_text(l[0], l[1], l[2]);
    assert(l =~= seq![l[0], l[1], l[2]]);
}

/// The list of graphics processors: one line for each, in order, with the memory of
/// that very one; the title gives the dedicated memory of all, where there is any.
/// Without a processor a text says so.
pub proof fn law_list_of_processors(hw: HardwareView, i: int)
    ensures
        hw.gpus.len() == 0 ==> gpu_panel(hw) is Missing,
        hw.gpus.len() > 0 ==> (gpu_panel(hw) matches GpuPanelView::Listed { title, items }
            && items.len() == hw.gpus.len() && (0 <= i < items.len() ==> items[i] == gpu_line(
            hw.gpus[i],
            outside::byte_size_text(hw.gpus[i].vram_bytes),
        )) && title.text == (if hw.has_dedicated_gpu() {
            " GPUs (total VRAM: "@ + outside::byte_size_text(
                hardware::dedicated_sum(hw.gpus) as u64,
            ) + ") "@
        } else {
            " GPUs (memory shared with RAM) "@
        })),
{
}

/// The table of the machine shows its processor, its cores, which read back, and
/// its memory.
pub proof fn law_table_of_the_machine(hw: HardwareView, ram: Seq<char>, available: Seq<char>)
    ensures
        ({
            let rows = summary_rows(hw, ram, available);
            let cores = rows[1].1.text;
            let physical = text::decimal(hw.cpu_physical_cores as nat);
            &&& rows.len() == 4
            &&& rows[0].0.text == "CPU"@ && rows[0].1.text == hw.cpu_name
            &&& rows[1].0.text == "Cores (phys / logi)"@
            &&& text::parsed_u64(cores.take(physical.len() as int)) == Some(
                hw.cpu_physical_cores as u64,
            )
            &&& cores.subrange(physical.len() as int, physical.len() as int + 3) == " / "@
            &&& text::parsed_u64(cores.skip(physical.len() as int + 3)) == Some(
                hw.cpu_logical_cores as u64,
            )
            &&& rows[2].0.text == "Total RAM"@ && rows[2].1.text == ram
            &&& rows[3].0.text == "Available RAM"@ && rows[3].1.text == available
        }),
{
    let rows = summary_rows(hw, ram, available);
    let cores = rows[1].1.text;
    let physical = text::decimal(hw.cpu_physical_cores as nat);
    let logical = text::decimal(hw.cpu_logical_cores as nat);
    reveal_strlit(" / ");
    text::law_decimal_reads_back(hw.cpu_physical_cores as nat);
    text::law_decimal_reads_back(hw.cpu_logical_cores as nat);
    assert(cores.take(physical.len() as int) =~= physical);
    assert(cores.subrange(physical.len() as int, physical.len() as int + 3) =~= " / "@);
    assert(cores.skip(physical.len() as int + 3) =~= logical);
}

/// The hardware tab: a message while the machine is being looked at or where that
/// failed, and then the table and the list for the machine that was found.
pub proof fn law_hardware_tab(hw: HardwareView, e: Seq<char>)
    ensures
        hardware_screen(LoadView::Loading) matches HardwareScreenView::Message(n) && n.span.text
            == "Scanning hardware…"@,
        hardware_screen(LoadView::Error(e)) matches HardwareScreenView::Message(n) && n.span.text
            == "Error: "@ + e,
        hardware_screen(LoadView::Ready(hw)) == (HardwareScreenView::Known {
            rows: summary_rows(
                hw,
                outside::byte_size_text(hw.total_ram_bytes),
                outside::byte_size_text(hw.available_ram_bytes),
            ),
            gpus: gpu_panel(hw),
        }),
{
}

/// The parameters tab shows the command line of the parameters, every one of the
/// reasons in its order, and for which model they are.
pub proof fn law_parameters_tab(
    hw: HardwareView,
    p: ParamsView,
    id: Seq<char>,
    e: Seq<char>,
    i: int,
)
    ensures
        parameters_screen(LoadView::Ready(hw), Some(p), Some(id)) matches ParametersScreenView::Flags {
            title,
            flags,
            reasons,
        } && {
            &&& title == " Recommended llama.cpp flags — for "@ + id + " "@
            &&& flags.text == text::joined(p.cli_lines(), params::line_break())
            &&& reasons.len() == p.rationale.len()
            &&& 0 <= i < reasons.len() ==> line_text(reasons[i]) == "• "@ + p.rationale[i]
        },
        parameters_screen(LoadView::Ready(hw), Some(p), None) matches ParametersScreenView::Flags {
            title,
            flags,
            reasons,
        } && {
            &&& title == " Recommended llama.cpp flags (generic — no model selected) "@
            &&& flags.text == text::joined(p.cli_lines(), params::line_break())
            &&& reasons.len() == p.rationale.len()
            &&& 0 <= i < reasons.len() ==> line_text(reasons[i]) == "• "@ + p.rationale[i]
        },
        parameters_screen(LoadView::Loading, Some(p), Some(id)) is Message,
        parameters_screen(LoadView::Error(e), Some(p), Some(id)) matches ParametersScreenView::Message(
            n,
        ) && n.span.text == "Hardware error: "@ + e,
        parameters_screen(LoadView::Ready(hw), None, Some(id)) is Message,
{
    if 0 <= i < p.rationale.len() {
        let l = reason_line(p.rationale[i]);
        assert(l =~= seq![l[0], l[1]]);
        lemma_line_text(l[0], l[1], l[1]);
        assert(p.rationale.map_values(|r: Seq<char>| reason_line(r))[i] == l);
    }
}

/// The list of models has one entry for each that is displayed, in order. It
/// begins with the model's id, highlighted where that place is selected and only
/// there, and ends with the size of the file that is best for the machine, where
/// that is known.
pub proof fn law_entry_of_a_model<P>(v: AppView<P>, i: int)
    requires
        0 <= i < v.displayed().len(),
    ensures
        model_items(v).len() == v.displayed().len(),
        model_items(v)[i][0].text == v.displayed()[i].model_id,
        model_items(v)[i][0].style == highlighted() <==> (v.selected matches Some(s) && s == i),
        ({
            let m = v.displayed()[i];
            let last = model_items(v)[i].last().text;
            match v.best_quant_for(m) {
                Some(q) => match models::quant_size(m.files(), q) {
                    Some(size) => last == " ["@ + outside::byte_size_text(size) + "]"@,
                    None => last.len() == 0,
                },
                None => last.len() == 0,
            }
        }),
        model_items(v)[i].len() == (if v.installed.contains_key(v.displayed()[i].model_id) {
            3int
        } else {
            2
        }),
{
    assert(model_items(v)[i] == item_at(v, i));
}

/// The entry for a model, part by part.
pub proof fn law_parts_of_an_entry(
    model_id: Seq<char>,
    selected: bool,
    installed: bool,
    size: Seq<char>,
)
    ensures
        installed ==> line_text(model_item(model_id, selected, installed, Some(size))) == model_id
            + " ✓ installed"@ + (" ["@ + size + "]"@),
        !installed ==> line_text(model_item(model_id, selected, installed, Some(size))) == model_id
            + (" ["@ + size + "]"@),
        installed_mark().text == " ✓ installed"@,
        model_item(model_id, selected, installed, None).last().text.len() == 0,
{
    let l = model_item(model_id, selected, installed, Some(size));
    if installed {
        assert(l =~= seq![l[0], l[1], l[2]]);
        lemma_line_text(l[0], l[1], l[2]);
    } else {
        assert(l =~= seq![l[0], l[1]]);
        lemma_line_text(l[0], l[1], l[1]);
    }
}

/// The facts on a model: its id, whether it is installed, its numbers, which read
/// back, and the best quantization for the machine. What is missing is `N/A`.
pub proof fn law_facts_on_a_model(m: ModelView, installed: bool, best: Option<Seq<char>>)
    ensures
        ({
            let f = fact_lines(m, installed, best);
            &&& f.len() == 7
            &&& f[0][0].text == "Model: "@ && f[0][1].text == m.model_id
            &&& f[1][0].text == "Status: "@ && f[1][1].text == (if installed {
                "Installed"@
            } else {
                "Not installed"@
            })
            &&& f[2][0].text == "Downloads: "@ && (match m.downloads {
                Some(n) => text::parsed_u64(f[2][1].text) == Some(n),
                None => f[2][1].text == "N/A"@,
            })
            &&& f[3][0].text == "Likes: "@ && (match m.likes {
                Some(n) => text::parsed_u64(f[3][1].text) == Some(n as u64),
                None => f[3][1].text == "N/A"@,
            })
            &&& f[4][0].text == "Last updated: "@ && (match m.last_modified {
                Some(t) => f[4][1].text == t,
                None => f[4][1].text == "N/A"@,
            })
            &&& f[5][0].text == "Est. layers: "@ && text::parsed_u64(f[5][1].text) == Some(
                models::layers_hinted(m.description()) as u64,
            )
            &&& f[6][0].text == "Best quant for your machine: "@ && (match best {
                Some(q) => f[6][1].text == q,
                None => f[6][1].text == "N/A"@,
            })
        }),
{
    if let Some(n) = m.downloads {
        text::law_decimal_reads_back(n as nat);
    }
    if let Some(n) = m.likes {
        text::law_decimal_reads_back(n as nat);
    }
    text::law_decimal_reads_back(models::layers_hinted(m.description()) as nat);
}

/// The details of a model begin with the facts on it. The address of the best file
/// for the machine follows where there is one; what a key does with the model goes
/// by whether it is being downloaded or is installed; and the message on what was
/// done comes last. The progress bar is there for the model that is being
/// downloaded and no other.
pub proof fn law_details_of_a_model<P>(v: AppView<P>, m: ModelView, percent: Seq<char>)
    ensures
        ({
            let d = detail_of(v, m, percent);
            let installed = v.installed.contains_key(m.model_id);
            let downloading = v.download matches Some(x) && x.model_id == m.model_id;
            let hint = d.lines[d.lines.len() - (if v.launch_status is Some {
                3int
            } else {
                1
            })][0].text;
            &&& d.lines.take(7) == fact_lines(m, installed, v.best_quant_for(m))
            &&& downloading ==> d.gauge == Some(download_text(v.download->0, percent)) && hint
                == "Downloading… press [x] to cancel"@
            &&& !downloading ==> d.gauge is None
            &&& !downloading && installed ==> hint
                == "Press [l] to launch llama.cpp with this model"@
            &&& !downloading && !installed ==> hint
                == "Press [l] to download this model to the HF cache and launch it"@
            &&& v.launch_status matches Some(s) ==> d.lines.last()[0].text == s
            &&& (v.best_quant_for(m) matches Some(q) ==> (m.url_for(q) matches Some(url)
                ==> d.lines[9][0].text == url && d.lines[8][0].text == "Download URL:"@))
        }),
{
    let d = detail_of(v, m, percent);
    let facts = fact_lines(m, v.installed.contains_key(m.model_id), v.best_quant_for(m));
    assert(d.lines.take(7) =~= facts);
}

/// The tags of a model are shown in one line, without those that name the base
/// model, in their order, eight at most.
pub proof fn law_tags_of_a_model(a: Seq<Seq<char>>, b: Seq<Seq<char>>, tag: Seq<char>)
    ensures
        own_tags(a + b) == own_tags(a) + own_tags(b),
        text::begins_with(tag, "base_model"@) ==> own_tags(seq![tag]).len() == 0,
        !text::begins_with(tag, "base_model"@) ==> own_tags(seq![tag]) == seq![tag],
        own_tags(Seq::empty()).len() == 0,
        own_tags(a).len() <= 8 ==> shown_tags(a) == own_tags(a),
        own_tags(a).len() > 8 ==> shown_tags(a) == own_tags(a).take(8),
        tag_lines(Some(a)).len() == 2,
        tag_lines(Some(a))[1][0].text == "Tags: "@,
        tag_lines(Some(a))[1][1].text == text::joined(shown_tags(a), ", "@),
        tag_lines(None).len() == 0,
    decreases b.len(),
{
    if b.len() == 0 {
        assert(a + b =~= a);
        assert(own_tags(a) + own_tags(b) =~= own_tags(a));
    } else {
        assert((a + b).drop_last() =~= a + b.drop_last());
        law_tags_of_a_model(a, b.drop_last(), tag);
        assert(own_tags(a + b) =~= own_tags(a) + own_tags(b));
    }
    assert(seq![tag].drop_last() =~= Seq::empty());
    assert(seq![tag].last() == tag);
    assert(own_tags(seq![tag].drop_last()) =~= Seq::empty());
    if !text::begins_with(tag, "base_model"@) {
        assert(own_tags(seq![tag]) =~= seq![tag]);
    }
}

/// The progress of a download in words: what was loaded, and, where the whole size
/// is known, that and the share.
pub proof fn law_progress_in_words(d: DownloadView, percent: Seq<char>)
    ensures
        (d.total matches Some(t) && t > 0) ==> download_text(d, percent) == outside::byte_size_text(
            d.downloaded,
        ) + " / "@ + outside::byte_size_text(d.total->0) + " ("@ + percent + "%)"@,
        !(d.total matches Some(t) && t > 0) ==> download_text(d, percent)
            == outside::byte_size_text(d.downloaded) + " downloaded"@,
{
}

/// The models tab: its title says what is searched for; an empty list gives way to
/// a message on why it is empty; and a list that is not is shown with the details
/// of the selected model.
pub proof fn law_models_tab<P>(v: AppView<P>, percent: Seq<char>, q: Seq<char>)
    ensures
        models_title(Some(q)).text == " Model Search: \""@ + q + "\" "@,
        models_title(None).text == " Model Recommendations "@,
        v.displayed().len() == 0 ==> (models_body(v, percent) matches ModelsBodyView::Message(n) && {
            &&& v.models is Loading && v.search_query is None ==> n.span.text
                == "Fetching models from Hugging Face…"@
            &&& v.models is Loading && v.search_query == Some(q) ==> n.span.text
                == "Searching for \""@ + q + "\"…"@
            &&& v.models matches LoadView::Error(e) ==> n.span.text == "Error: "@ + e
            &&& v.models is Ready && v.search_query is None ==> n.span.text
                == "No models found that fit your hardware."@
            &&& v.models is Ready && v.search_query == Some(q) ==> n.span.text
                == "No models matching \""@ + q + "\" fit your hardware."@
        }),
        v.displayed().len() > 0 ==> (models_body(v, percent) matches ModelsBodyView::Listed {
            items,
            detail,
        } && items == model_items(v) && (match v.selected_model() {
            Some(m) => detail == Some(detail_of(v, m, percent)),
            None => detail is None,
        })),
{
}

/// The settings tab shows the path that is set, or the input while it is being
/// edited, and the model that was launched last.
pub proof fn law_settings_tab<P>(v: AppView<P>)
    ensures
        ({
            let lines = settings_lines(v);
            &&& lines.len() == 6
            &&& lines[0][0].text == "llama.cpp path: "@
            &&& v.settings_editing ==> lines[0][1].text == v.settings_input + "_"@
            &&& !v.settings_editing ==> (match v.config.llama_cpp_path {
                Some(p) => lines[0][1].text == p,
                None => lines[0][1].text == "(not set)"@,
            })
            &&& lines[4][0].text == "Last launched model: "@
            &&& (match v.config.last_launched_model_id {
                Some(id) => lines[4][1].text == id,
                None => lines[4][1].text == "(none yet)"@,
            })
            &&& lines[2][0].text == (if v.settings_editing {
                "Type the path to your llama.cpp executable, or a directory containing it (e.g. llama.exe/llama-cli.exe/main). [Enter] save, [Esc] cancel."@
            } else {
                "[e] or [Enter] to edit the path used when launching llama.cpp from the Models tab."@
            })
            &&& lines[5][0].text
                == "[L] Relaunch it from any tab (downloading again first if needed)."@
        }),
{
}

/// The status bar: a download that is going on, by its model and its progress; else
/// the message on what was done; else the keys of the tab in front, or those that
/// end the editing.
pub proof fn law_status_bar<P>(v: AppView<P>, percent: Seq<char>)
    ensures
        v.download matches Some(d) ==> status_bar(v, percent).text == " Downloading "@ + d.model_id
            + ": "@ + download_text(d, percent) + " — [x] Cancel "@,
        v.download is None ==> (v.launch_status matches Some(s) ==> status_bar(v, percent).text
            == " "@ + s + " "@),
        v.download is None && v.launch_status is None ==> ({
            let keys = status_bar(v, percent).text;
            &&& v.current_tab == AppTab::Models && v.search_editing ==> keys
                == " [Enter] Search  [Esc] Cancel "@
            &&& v.current_tab == AppTab::Models && !v.search_editing ==> keys
                == " [1/2/3/4] Tabs  [↑↓] Select model  [l] Launch/download  [/] Search  [L] Relaunch last  [r] Refresh  [q] Quit "@
            &&& v.current_tab == AppTab::Settings && v.settings_editing ==> keys
                == " [Enter] Save  [Esc] Cancel "@
            &&& v.current_tab == AppTab::Settings && !v.settings_editing ==> keys
                == " [1/2/3/4] Tabs  [e] Edit path  [L] Relaunch last  [q] Quit "@
            &&& v.current_tab == AppTab::Hardware || v.current_tab == AppTab::Parameters ==> keys
                == " [1/2/3/4] Tabs  [L] Relaunch last  [r] Refresh  [q] Quit "@
        }),
{
}

/// A message that begins with the word for a launch is in the colour of what is
/// well, and any other in that of what needs attention.
pub proof fn law_color_of_a_message(rest: Seq<char>, status: Seq<char>)
    ensures
        status_color("Launched"@ + rest) == Color::Green,
        status_color(status) == Color::Green <==> text::begins_with(status, "Launched"@),
        status_color(status) == Color::Yellow <==> !text::begins_with(status, "Launched"@),
{
    text::law_contains_text(Seq::empty(), "Launched"@, rest, status);
}

/// The styles: none, a colour, bold in a colour, what is selected and a link. No two
/// of them look the same.
pub proof fn law_styles(c: Color)
    ensures
        no_style().fg is None && no_style().bg is None && !no_style().bold
            && !no_style().underlined,
        in_color(c).fg == Some(c) && in_color(c).bg is None && !in_color(c).bold && !in_color(
            c,
        ).underlined,
        in_bold(c).fg == Some(c) && in_bold(c).bg is None && in_bold(c).bold && !in_bold(
            c,
        ).underlined,
        highlighted().fg == Some(Color::Black) && highlighted().bg == Some(Color::Cyan)
            && highlighted().bold && !highlighted().underlined,
        link_style().fg == Some(Color::Blue) && link_style().bg is None && !link_style().bold
            && link_style().underlined,
        ACCENT == Color::Cyan && DIM == Color::DarkGray && GOOD == Color::Green,
        WARN == Color::Yellow && ERR == Color::Red,
{
}

/// The colours tell what is well, what needs attention and what failed: a machine
/// that is being looked at or has no graphics processor, a listing that is waited
/// for or came to nothing, and a path that is not set need attention; an error has
/// failed; and a command line, a path that is set and a model that was launched are
/// well.
pub proof fn law_colors_of_the_tabs<P>(
    v: AppView<P>,
    hw: HardwareView,
    p: ParamsView,
    selected: Option<Seq<char>>,
    e: Seq<char>,
)
    ensures
        hardware_screen(LoadView::Loading) matches HardwareScreenView::Message(n)
            && n.span.style.fg == Some(Color::Yellow) && n.centered,
        hardware_screen(LoadView::Error(e)) matches HardwareScreenView::Message(n)
            && n.span.style.fg == Some(Color::Red) && !n.centered,
        hw.gpus.len() == 0 ==> (gpu_panel(hw) matches GpuPanelView::Missing(s) && s.style.fg == Some(
            Color::Yellow,
        ) && s.text == "No GPU detected — will recommend CPU-only parameters."@),
        parameters_screen(LoadView::Loading, Some(p), selected) matches ParametersScreenView::Message(
            n,
        ) && n.span.text == "Detecting hardware…"@ && n.span.style.fg == Some(Color::Yellow)
            && n.centered,
        parameters_screen(
            LoadView::Error(e),
            Some(p),
            selected,
        ) matches ParametersScreenView::Message(n) && n.span.style.fg == Some(Color::Red)
            && !n.centered,
        parameters_screen(LoadView::Ready(hw), None, selected) matches ParametersScreenView::Message(
            n,
        ) && n.span.text == "Waiting for hardware data…"@ && n.span.style.fg is None && n.centered,
        parameters_screen(
            LoadView::Ready(hw),
            Some(p),
            selected,
        ) matches ParametersScreenView::Flags { title, flags, reasons } && flags.style.fg == Some(
            Color::Green,
        ),
        no_models_notice(v.models, v.search_query).span.style.fg == Some(
            if v.models is Error {
                Color::Red
            } else {
                Color::Yellow
            },
        ),
        no_models_notice(v.models, v.search_query).centered <==> !(v.models is Error),
        !v.settings_editing ==> path_shown(v).style.fg == Some(
            if v.config.llama_cpp_path is Some {
                Color::Green
            } else {
                Color::Yellow
            },
        ),
        v.settings_editing ==> path_shown(v).style.fg == Some(Color::Cyan),
{
}

/// Each tab has a title that names it and its key, and the place of that key.
pub proof fn law_tabs()
    ensures
        tab_titles().len() == 4,
        tab_titles()[tab_place(AppTab::Hardware) as int] == "  Hardware [1]  "@,
        tab_titles()[tab_place(AppTab::Parameters) as int] == "  Parameters [2]  "@,
        tab_titles()[tab_place(AppTab::Models) as int] == "  Models [3]  "@,
        tab_titles()[tab_place(AppTab::Settings) as int] == "  Settings [4]  "@,
        tab_place(AppTab::Hardware) == 0,
        tab_place(AppTab::Parameters) == 1,
        tab_place(AppTab::Models) == 2,
        tab_place(AppTab::Settings) == 3,
{
}

/// What the contracts speak of are the fields themselves.
pub proof fn law_views_hold_the_fields(
    s: Span,
    l: Line,
    n: Notice,
    lines: Seq<Line>,
    r: TableRow,
    d: ModelDetail,
    i: int,
)
    ensures
        s@.text == s.text@,
        s@.style == s.style,
        l@.len() == l.spans@.len(),
        0 <= i < l.spans@.len() ==> l@[i] == l.spans@[i]@,
        line_views(lines).len() == lines.len(),
        0 <= i < lines.len() ==> line_views(lines)[i] == lines[i]@,
        n@.span == n.span@,
        n@.centered == n.centered,
        row_view(r) == (r.label@, r.value@),
        d@.lines == line_views(d.lines@),
        d.gauge matches Some(g) ==> d@.gauge == Some(g@),
        d.gauge is None ==> d@.gauge is None,
{
}

/// What the contracts say of a screen is what it holds.
pub proof fn law_views_hold_the_screens(
    g: GpuPanel,
    h: HardwareScreen,
    p: ParametersScreen,
    b: ModelsBody,
    rows: Seq<TableRow>,
    i: int,
)
    ensures
        g matches GpuPanel::Missing(s) ==> g@ == GpuPanelView::Missing(s@),
        g matches GpuPanel::Listed { title, items } ==> g@ == (GpuPanelView::Listed {
            title: title@,
            items: line_views(items@),
        }),
        h matches HardwareScreen::Message(n) ==> h@ == HardwareScreenView::Message(n@),
        h matches HardwareScreen::Known { rows, gpus } ==> h@ == (HardwareScreenView::Known {
            rows: row_views(rows@),
            gpus: gpus@,
        }),
        p matches ParametersScreen::Message(n) ==> p@ == ParametersScreenView::Message(n@),
        p matches ParametersScreen::Flags { title, flags, reasons } ==> p@ == (
        ParametersScreenView::Flags {
            title: title@,
            flags: flags@,
            reasons: line_views(reasons@),
        }),
        b matches ModelsBody::Message(n) ==> b@ == ModelsBodyView::Message(n@),
        b matches ModelsBody::Listed { items, detail } ==> (b@ matches ModelsBodyView::Listed {
            items: shown,
            detail: details,
        } && shown == line_views(items@) && (match detail {
            Some(d) => details == Some(d@),
            None => details is None,
        })),
        row_views(rows).len() == rows.len(),
        0 <= i < rows.len() ==> row_views(rows)[i] == (rows[i].label@, rows[i].value@),
{
}

} // verus!
