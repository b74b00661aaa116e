//! Which llama.cpp executable is run, with which arguments, and how long it is
//! watched.

use vstd::prelude::*;
use vstd::string::*;

use crate::params::{LlamaCppParams, ParamsView};
use crate::text;

verus! {

/// How long a started process is watched, in milliseconds.
pub const GRACE_PERIOD_MS: u64 = 3000;

/// The time between two looks at a started process, in milliseconds.
pub const POLL_INTERVAL_MS: u64 = 200;

/// What a configured path leads to.
#[derive(Debug)]
pub enum PathKind {
    File,
    /// A directory, with whether each of the known names is a file in it, in
    /// the order of `candidate_names`.
    Directory(Vec<bool>),
    Missing,
}

/// Where the executable is.
#[derive(Debug)]
pub enum Executable {
    /// It is the configured path.
    Itself,
    /// It is the file of this name in the configured directory.
    Inside(String),
}

/// An argument of the command line.
#[derive(Debug)]
pub enum LaunchArg {
    Text(String),
    /// The path of the model file.
    ModelPath,
}

/// What a look at a started process shows.
#[derive(Debug)]
pub enum ChildState {
    Running,
    /// It has ended, with its exit code where there is one.
    Exited { success: bool, code: Option<i32> },
    /// Its state cannot be read.
    Unknown,
}

/// What the watch of a started process does next.
#[derive(Debug)]
pub enum WatchStep {
    /// Look again after the interval.
    Sleep,
    /// Report that the process ended with a failure.
    Report(Option<i32>),
    /// Stop watching.
    Stop,
}

/// The watch of a started process.
#[derive(Debug)]
pub struct LaunchWatch {
    pub waited_ms: u64,
}

// ---------------------------------------------------------------------------
// The executable
// ---------------------------------------------------------------------------

/// The names that llama.cpp's executable has had, in the order in which they
/// are tried.
pub open spec fn known_names() -> Seq<Seq<char>> {
    seq!["llama-cli"@, "llama"@, "main"@]
}

/// The known names with the suffix that executables have on the platform.
pub open spec fn suffixed_names(suffix: Seq<char>) -> Seq<Seq<char>> {
    known_names().map_values(|n: Seq<char>| n + suffix)
}

fn base_names() -> (names: Vec<String>)
    ensures
        text::texts(names@) == known_names(),
{
    let mut names: Vec<String> = Vec::new();
    text::push_text(&mut names, "llama-cli".to_owned());
    text::push_text(&mut names, "llama".to_owned());
    text::push_text(&mut names, "main".to_owned());
    assert(text::texts(names@) =~= known_names());
    names
}

/// The known names with the suffix that executables have on the platform.
pub fn candidate_names(suffix: &str) -> (names: Vec<String>)
    ensures
        text::texts(names@) == suffixed_names(suffix@),
{
    let mut names: Vec<String> = Vec::new();
    text::push_text(&mut names, "llama-cli".to_owned().concat(suffix));
    text::push_text(&mut names, "llama".to_owned().concat(suffix));
    text::push_text(&mut names, "main".to_owned().concat(suffix));
    assert(text::texts(names@) =~= suffixed_names(suffix@));
    names
}

/// The first name from `k` on that is a file.
pub open spec fn first_present(present: Seq<bool>, k: int) -> Option<int>
    decreases known_names().len() - k,
{
    if k < 0 || k >= known_names().len() {
        None
    } else if k < present.len() && present[k] {
        Some(k)
    } else {
        first_present(present, k + 1)
    }
}

/// The message for a directory without a known executable.
pub open spec fn nothing_inside(path: Seq<char>) -> Seq<char> {
    "`"@ + path + "` is a directory, and none of the expected llama.cpp binaries ("@ + text::joined(
        known_names(),
        ", "@,
    ) + ") were found inside it. Point the Settings-tab path at the actual executable."@
}

/// The message for a path that leads nowhere.
pub open spec fn no_such_path(path: Seq<char>) -> Seq<char> {
    "`"@ + path + "` does not exist"@
}

/// The executable for a configured path. A file is taken as it is; a directory
/// is searched for the known names, which differ between releases, so that the
/// exact name need not be known.
pub fn resolve_executable(path: &str, kind: &PathKind, suffix: &str) -> (r: Result<
    Executable,
    String,
>)
    ensures
        match *kind {
            PathKind::File => r matches Ok(e) && e is Itself,
            PathKind::Directory(present) => match first_present(present@, 0) {
                Some(k) => r matches Ok(Executable::Inside(name)) && name@ == suffixed_names(
                    suffix@,
                )[k],
                None => r matches Err(e) && e@ == nothing_inside(path@),
            },
            PathKind::Missing => r matches Err(e) && e@ == no_such_path(path@),
        },
{
    match kind {
        PathKind::File => Ok(Executable::Itself),
        PathKind::Directory(present) => {
            let names = candidate_names(suffix);
            assert(names@.len() == text::texts(names@).len());
            for k in 0..names.len()
                invariant
                    names@.len() == known_names().len(),
                    text::texts(names@) == suffixed_names(suffix@),
                    *kind == PathKind::Directory(*present),
                    first_present(present@, 0) == first_present(present@, k as int),
            {
                if k < present.len() && present[k] {
                    assert(text::texts(names@)[k as int] == names@[k as int]@);
                    return Ok(Executable::Inside(names[k].clone()));
                }
            }
            let bases = base_names();
            let list = text::join(&bases, ", ");
            Err(
                "`".to_owned().concat(path).concat(
                    "` is a directory, and none of the expected llama.cpp binaries (",
                ).concat(list.as_str()).concat(
                    ") were found inside it. Point the Settings-tab path at the actual executable.",
                ),
            )
        },
        PathKind::Missing => Err("`".to_owned().concat(path).concat("` does not exist")),
    }
}

/// The message for an executable that could not be started.
pub fn spawn_failure(exe: &str, cause: &str) -> (message: String)
    ensures
        message@ == "failed to launch `"@ + exe@ + "`: "@ + cause@,
{
    "failed to launch `".to_owned().concat(exe).concat("`: ").concat(cause)
}

// ---------------------------------------------------------------------------
// The unified binary
// ---------------------------------------------------------------------------

/// `c` separates the components of a path.
pub open spec fn is_separator(c: char) -> bool {
    c == '/' || c == '\\'
}

/// The part of a path behind the last separator.
pub open spec fn last_component(path: Seq<char>) -> Seq<char>
    decreases path.len(),
{
    if path.len() == 0 || is_separator(path.last()) {
        Seq::empty()
    } else {
        last_component(path.drop_last()).push(path.last())
    }
}

/// The part of a path in front of the last separator.
pub open spec fn before_last_component(path: Seq<char>) -> Seq<char> {
    path.take(path.len() - last_component(path).len() - 1)
}

/// The last component of a path, where that is a name. Empty components and
/// `.` behind another component do not count, and `..` is no name.
pub open spec fn file_name(path: Seq<char>) -> Option<Seq<char>>
    decreases path.len(),
{
    let last = last_component(path);
    if path.len() == 0 || last == ".."@ {
        None
    } else if last.len() >= path.len() {
        if last == "."@ {
            None
        } else {
            Some(last)
        }
    } else if last.len() == 0 || last == "."@ {
        file_name(before_last_component(path))
    } else {
        Some(last)
    }
}

/// A file name without its extension: what stands in front of the last dot, or
/// all of it where no dot stands behind the first character.
pub open spec fn stem(name: Seq<char>) -> Seq<char> {
    let extension = text::after_last(name, '.');
    if extension.len() + 1 >= name.len() {
        name
    } else {
        name.take(name.len() - extension.len() - 1)
    }
}

/// The executable at this path is the unified `llama` binary.
pub open spec fn is_unified(path: Seq<char>) -> bool {
    file_name(path) matches Some(name) && text::ascii_lower(stem(name)) == text::ascii_lower(
        "llama"@,
    )
}

/// Where the last component of the first `end` characters starts.
fn component_start(cs: &Vec<char>, end: usize) -> (start: usize)
    requires
        end <= cs@.len(),
    ensures
        start <= end,
        last_component(cs@.take(end as int)) == cs@.subrange(start as int, end as int),
        start > 0 ==> is_separator(cs@[start - 1]),
{
    let mut start: usize = end;
    let ghost path = cs@.take(end as int);
    proof {
        assert(last_component(path) =~= last_component(cs@.take(start as int)) + cs@.subrange(
            start as int,
            end as int,
        ));
    }
    while start > 0 && cs[start - 1] != '/' && cs[start - 1] != '\\'
        invariant
            start <= end <= cs@.len(),
            last_component(path) == last_component(cs@.take(start as int)) + cs@.subrange(
                start as int,
                end as int,
            ),
        decreases start,
    {
        proof {
            let head = cs@.take(start as int);
            assert(head.drop_last() =~= cs@.take(start - 1));
            assert(last_component(head.drop_last()).push(head.last()) + cs@.subrange(
                start as int,
                end as int,
            ) =~= last_component(cs@.take(start - 1)) + cs@.subrange(start - 1, end as int));
        }
        start = start - 1;
    }
    assert(last_component(cs@.take(start as int)) =~= Seq::empty());
    assert(last_component(path) =~= cs@.subrange(start as int, end as int));
    start
}

/// The last component of a path, where that is a name.
pub fn path_file_name(path: &str) -> (name: Option<String>)
    ensures
        match name {
            Some(n) => file_name(path@) == Some(n@),
            None => file_name(path@) is None,
        },
{
    let cs = text::to_chars(path);
    let mut end: usize = cs.len();
    assert(cs@.take(end as int) =~= cs@);
    while end > 0
        invariant
            end <= cs@.len(),
            file_name(path@) == file_name(cs@.take(end as int)),
        decreases end,
    {
        let start = component_start(&cs, end);
        let last = text::from_chars(&cs, start, end);
        let ghost shorter = cs@.take(end as int);
        assert(last@ == last_component(shorter));
        if text::same_text(last.as_str(), "..") {
            return None;
        }
        let dot = text::same_text(last.as_str(), ".");
        if start == 0 {
            return if dot {
                None
            } else {
                Some(last)
            };
        }
        if start < end && !dot {
            return Some(last);
        }
        assert(before_last_component(shorter) =~= cs@.take(start - 1));
        end = start - 1;
    }
    None
}

/// Whether the executable at this path is the binary that joins llama.cpp's
/// tools and takes a subcommand. Only that one is named exactly `llama`.
pub fn is_unified_binary(exe: &str) -> (r: bool)
    ensures
        r == is_unified(exe@),
{
    match path_file_name(exe) {
        None => false,
        Some(name) => {
            let cs = text::to_chars(name.as_str());
            let extension = text::last_part(name.as_str(), '.');
            let n: usize = text::to_chars(extension.as_str()).len();
            proof {
                text::lemma_after_last(name@, '.');
            }
            let keep: usize = if n >= cs.len() || n + 1 == cs.len() {
                cs.len()
            } else {
                cs.len() - n - 1
            };
            let kept = text::from_chars(&cs, 0, keep);
            assert(kept@ =~= stem(name@));
            text::same_ignoring_ascii_case(kept.as_str(), "llama")
        },
    }
}

// ---------------------------------------------------------------------------
// The arguments
// ---------------------------------------------------------------------------

/// An argument as a mathematical value.
#[verifier::ext_equal]
pub enum ArgView {
    Text(Seq<char>),
    ModelPath,
}

impl View for LaunchArg {
    type V = ArgView;

    open spec fn view(&self) -> ArgView {
        match self {
            LaunchArg::Text(s) => ArgView::Text(s@),
            LaunchArg::ModelPath => ArgView::ModelPath,
        }
    }
}

/// The views of a sequence of arguments.
pub open spec fn arg_views(args: Seq<LaunchArg>) -> Seq<ArgView> {
    args.map_values(|a: LaunchArg| a@)
}

/// The arguments as the executable takes them: the unified binary wants a value
/// behind `--flash-attn`, the others none.
pub open spec fn adapted(args: Seq<Seq<char>>, unified: bool) -> Seq<ArgView>
    decreases args.len(),
{
    if args.len() == 0 {
        Seq::empty()
    } else {
        let before = adapted(args.drop_last(), unified).push(ArgView::Text(args.last()));
        if unified && args.last() == "--flash-attn"@ {
            before.push(ArgView::Text("on"@))
        } else {
            before
        }
    }
}

/// The first arguments: the subcommand, for the unified binary, and the model.
pub open spec fn opening_args(unified: bool) -> Seq<ArgView> {
    let model = seq![ArgView::Text("-m"@), ArgView::ModelPath];
    if unified {
        seq![ArgView::Text("cli"@)] + model
    } else {
        model
    }
}

/// The whole command line.
pub open spec fn command_line(unified: bool, p: ParamsView) -> Seq<ArgView> {
    opening_args(unified) + adapted(p.cli_args(), unified)
}

fn push_arg(args: &mut Vec<LaunchArg>, arg: LaunchArg)
    ensures
        arg_views(final(args)@) == arg_views(old(args)@).push(arg@),
{
    let ghost before = args@;
    let ghost value = arg;
    args.push(arg);
    assert(arg_views(before.push(value)) =~= arg_views(before).push(value@));
}

/// The arguments that the executable is started with.
pub fn launch_args(unified: bool, params: &LlamaCppParams) -> (args: Vec<LaunchArg>)
    ensures
        arg_views(args@) == command_line(unified, params@),
{
    let mut args: Vec<LaunchArg> = Vec::new();
    if unified {
        push_arg(&mut args, LaunchArg::Text("cli".to_owned()));
    }
    push_arg(&mut args, LaunchArg::Text("-m".to_owned()));
    push_arg(&mut args, LaunchArg::ModelPath);
    assert(arg_views(args@) =~= opening_args(unified));

    let flags = params.to_cli_args();
    let ghost all = params@.cli_args();
    assert(opening_args(unified) + adapted(all.take(0), unified) =~= opening_args(unified));
    for i in 0..flags.len()
        invariant
            all == text::texts(flags@),
            arg_views(args@) == opening_args(unified) + adapted(all.take(i as int), unified),
    {
        proof {
            assert(all.take(i + 1).drop_last() =~= all.take(i as int));
            assert(all.take(i + 1).last() == flags@[i as int]@);
        }
        push_arg(&mut args, LaunchArg::Text(flags[i].clone()));
        if unified && text::same_text(flags[i].as_str(), "--flash-attn") {
            push_arg(&mut args, LaunchArg::Text("on".to_owned()));
        }
        assert(arg_views(args@) =~= opening_args(unified) + adapted(all.take(i + 1), unified));
    }
    assert(all.take(flags@.len() as int) =~= all);
    args
}

/// The status after a start.
pub fn launched_message(pid: u32) -> (message: String)
    ensures
        message@ == launched_text(pid),
{
    let id = text::decimal_string(pid as u64);
    "Launched llama.cpp (pid ".to_owned().concat(id.as_str()).concat(")")
}

/// The status after a start.
pub open spec fn launched_text(pid: u32) -> Seq<char> {
    "Launched llama.cpp (pid "@ + text::decimal(pid as nat) + ")"@
}

// ---------------------------------------------------------------------------
// The watch
// ---------------------------------------------------------------------------

impl LaunchWatch {
    /// A watch that begins now.
    pub fn new() -> (w: LaunchWatch)
        ensures
            w.waited_ms == 0,
    {
        LaunchWatch { waited_ms: 0 }
    }

    /// What to do after a look at the process. One that ends with a failure
    /// within the grace period is reported; one that still runs after it is
    /// taken to be well.
    pub fn step(&mut self, child: ChildState) -> (step: WatchStep)
        ensures
            step == watch_step(old(self).waited_ms, child),
            final(self).waited_ms == (if step is Sleep {
                old(self).waited_ms + POLL_INTERVAL_MS
            } else {
                old(self).waited_ms as int
            }),
    {
        match child {
            ChildState::Exited { success, code } => if success {
                WatchStep::Stop
            } else {
                WatchStep::Report(code)
            },
            ChildState::Unknown => WatchStep::Stop,
            ChildState::Running => if self.waited_ms >= GRACE_PERIOD_MS {
                WatchStep::Stop
            } else {
                self.waited_ms = self.waited_ms + POLL_INTERVAL_MS;
                WatchStep::Sleep
            },
        }
    }
}

/// What to do after a look at the process.
pub open spec fn watch_step(waited_ms: u64, child: ChildState) -> WatchStep {
    match child {
        ChildState::Exited { success, code } => if success {
            WatchStep::Stop
        } else {
            WatchStep::Report(code)
        },
        ChildState::Unknown => WatchStep::Stop,
        ChildState::Running => if waited_ms >= GRACE_PERIOD_MS {
            WatchStep::Stop
        } else {
            WatchStep::Sleep
        },
    }
}

// ---------------------------------------------------------------------------
// Laws
// ---------------------------------------------------------------------------

proof fn lemma_first_present(present: Seq<bool>, k: int)
    requires
        0 <= k,
    ensures
        match first_present(present, k) {
            Some(i) => k <= i < known_names().len() && i < present.len() && present[i] && forall|
                j: int,
            |
                k <= j < i && j < present.len() ==> !present[j],
            None => forall|j: int|
                k <= j < known_names().len() && j < present.len() ==> !present[j],
        },
    decreases known_names().len() - k,
{
    if k < known_names().len() {
        lemma_first_present(present, k + 1);
    }
}

/// Of the known names the first one that is there is taken, and one is taken
/// where any is there.
pub proof fn law_first_known_name_wins(present: Seq<bool>)
    requires
        present.len() == known_names().len(),
    ensures
        match first_present(present, 0) {
            Some(i) => 0 <= i < present.len() && present[i] && forall|j: int|
                0 <= j < i ==> !present[j],
            None => forall|j: int| 0 <= j < present.len() ==> !present[j],
        },
{
    lemma_first_present(present, 0);
}

/// Texts as arguments.
pub open spec fn as_args(args: Seq<Seq<char>>) -> Seq<ArgView> {
    args.map_values(|s: Seq<char>| ArgView::Text(s))
}

proof fn lemma_adapted_unchanged(args: Seq<Seq<char>>, unified: bool)
    requires
        !unified || forall|i: int| 0 <= i < args.len() ==> args[i] != "--flash-attn"@,
    ensures
        adapted(args, unified) == as_args(args),
    decreases args.len(),
{
    if args.len() > 0 {
        assert(args[args.len() - 1] == args.last());
        assert forall|i: int| unified && 0 <= i < args.drop_last().len() implies args.drop_last()[i]
            != "--flash-attn"@ by {
            assert(args.drop_last()[i] == args[i]);
        }
        lemma_adapted_unchanged(args.drop_last(), unified);
    }
    assert(adapted(args, unified) =~= as_args(args));
}

/// The standalone binaries take the parameters as they are, behind the model.
pub proof fn law_standalone_command_line(p: ParamsView)
    ensures
        command_line(false, p) == seq![ArgView::Text("-m"@), ArgView::ModelPath] + as_args(
            p.cli_args(),
        ),
{
    lemma_adapted_unchanged(p.cli_args(), false);
}

/// The unified binary takes its subcommand first, and the same parameters, but
/// that `on` stands behind `--flash-attn` where that is there.
pub proof fn law_unified_command_line(p: ParamsView)
    ensures
        command_line(true, p) == seq![
            ArgView::Text("cli"@),
            ArgView::Text("-m"@),
            ArgView::ModelPath,
        ] + as_args(p.cli_args()) + (if p.flash_attn {
            seq![ArgView::Text("on"@)]
        } else {
            Seq::empty()
        }),
{
    let flag = "--flash-attn"@;
    reveal_strlit("--flash-attn");
    reveal_strlit("--n-gpu-layers");
    reveal_strlit("--ctx-size");
    reveal_strlit("--threads");
    reveal_strlit("--batch-size");
    reveal_strlit("--ubatch-size");
    reveal_strlit("--no-mmap");
    reveal_strlit("--mlock");
    reveal_strlit("-");
    let layers = p.n_gpu_layers as int;
    if layers < 0 {
        text::lemma_decimal_digits((-layers) as nat);
        assert(text::signed_decimal(layers)[1] == text::decimal((-layers) as nat)[0]);
        assert(flag[1] == '-');
    } else {
        text::lemma_decimal_digits(layers as nat);
        assert(flag[0] == '-');
    }
    text::lemma_decimal_digits(p.ctx_size as nat);
    text::lemma_decimal_digits(p.threads as nat);
    text::lemma_decimal_digits(p.batch_size as nat);
    text::lemma_decimal_digits(p.ubatch_size as nat);
    assert(flag[0] == '-' && flag[2] == 'f');
    let without = ParamsView { flash_attn: false, ..p }.cli_args();
    assert("--n-gpu-layers"@[2] == 'n');
    assert("--ctx-size"@[2] == 'c');
    assert("--threads"@[2] == 't');
    assert("--batch-size"@[2] == 'b');
    assert("--ubatch-size"@[2] == 'u');
    assert("--no-mmap"@[2] == 'n');
    assert("--mlock"@[2] == 'm');
    assert forall|i: int| 0 <= i < without.len() implies without[i] != flag by {}
    lemma_adapted_unchanged(without, true);
    if p.flash_attn {
        assert(p.cli_args() =~= without.push(flag));
        assert(p.cli_args().drop_last() =~= without);
    } else {
        assert(p.cli_args() =~= without);
    }
    assert(command_line(true, p) =~= seq![
        ArgView::Text("cli"@),
        ArgView::Text("-m"@),
        ArgView::ModelPath,
    ] + as_args(p.cli_args()) + (if p.flash_attn {
        seq![ArgView::Text("on"@)]
    } else {
        Seq::empty()
    }));
}

/// A process that keeps running is looked at again as long as the looks do not
/// cover the grace period, and no longer; one that ends with a failure is
/// reported whenever that is seen.
pub proof fn law_watch_covers_the_grace_period(looks: nat, code: Option<i32>)
    requires
        looks * POLL_INTERVAL_MS <= u64::MAX,
    ensures
        watch_step((looks * POLL_INTERVAL_MS) as u64, ChildState::Running) == (if looks
            * POLL_INTERVAL_MS < GRACE_PERIOD_MS {
            WatchStep::Sleep
        } else {
            WatchStep::Stop
        }),
        watch_step(
            (looks * POLL_INTERVAL_MS) as u64,
            ChildState::Exited { success: false, code },
        ) == WatchStep::Report(code),
{
}

/// The names that are tried, in order, each with the platform's suffix behind it.
pub proof fn law_names_that_are_tried(suffix: Seq<char>, k: int)
    ensures
        known_names().len() == 3,
        known_names()[0] == "llama-cli"@,
        known_names()[1] == "llama"@,
        known_names()[2] == "main"@,
        suffixed_names(suffix).len() == 3,
        0 <= k < 3 ==> suffixed_names(suffix)[k] == known_names()[k] + suffix,
{
}

/// The name that is taken from a directory, given which of the three are files in
/// it.
pub proof fn law_executable_in_a_directory(cli: bool, llama: bool, main: bool)
    ensures
        cli ==> first_present(seq![cli, llama, main], 0) == Some(0int),
        !cli && llama ==> first_present(seq![cli, llama, main], 0) == Some(1int),
        !cli && !llama && main ==> first_present(seq![cli, llama, main], 0) == Some(2int),
        !cli && !llama && !main ==> first_present(seq![cli, llama, main], 0) is None,
{
    let present = seq![cli, llama, main];
    lemma_first_present(present, 0);
    assert(present[0] == cli && present[1] == llama && present[2] == main);
    if let Some(i) = first_present(present, 0) {
        assert(i == 0 || i == 1 || i == 2);
    }
}

/// The messages name the path that was configured, and the first of them the names
/// that were looked for.
pub proof fn law_messages_on_a_path(path: Seq<char>)
    ensures
        text::begins_with(nothing_inside(path), "`"@ + path + "` is a directory"@),
        text::contains_text(nothing_inside(path), "(llama-cli, llama, main)"@),
        no_such_path(path) == "`"@ + path + "` does not exist"@,
{
    let m = nothing_inside(path);
    let front = "`"@ + path + "` is a directory"@;
    reveal_strlit("` is a directory");
    reveal_strlit("` is a directory, and none of the expected llama.cpp binaries (");
    reveal_strlit(", ");
    reveal_strlit("llama-cli");
    reveal_strlit("llama");
    reveal_strlit("main");
    reveal_strlit("(llama-cli, llama, main)");
    reveal_strlit(
        ") were found inside it. Point the Settings-tab path at the actual executable.",
    );
    assert(m.subrange(0, front.len() as int) =~= front);
    let names = known_names();
    let two = names.drop_last();
    let one = two.drop_last();
    assert(one[0] == "llama-cli"@ && two.last() == "llama"@ && names.last() == "main"@);
    assert(text::joined(one, ", "@) == "llama-cli"@);
    assert(text::joined(two, ", "@) == "llama-cli"@ + ", "@ + "llama"@);
    assert(text::joined(names, ", "@) == "llama-cli"@ + ", "@ + "llama"@ + ", "@ + "main"@);
    let opening = "` is a directory, and none of the expected llama.cpp binaries ("@;
    let n = "`"@.len() + path.len() + opening.len() - 1;
    let list = "(llama-cli, llama, main)"@;
    assert(m.subrange(n, n + list.len()) =~= list);
    assert(text::occurs_at(m, list, n));
}

proof fn lemma_last_component(front: Seq<char>, name: Seq<char>)
    requires
        forall|i: int| 0 <= i < name.len() ==> !is_separator(#[trigger] name[i]),
        front.len() > 0 ==> is_separator(front.last()),
    ensures
        last_component(front + name) == name,
    decreases name.len(),
{
    let path = front + name;
    if name.len() > 0 {
        let shorter = name.drop_last();
        assert(path.drop_last() =~= front + shorter);
        assert forall|i: int| 0 <= i < shorter.len() implies !is_separator(
            #[trigger] shorter[i],
        ) by {
            assert(shorter[i] == name[i]);
        }
        lemma_last_component(front, shorter);
        assert(path.last() == name[name.len() - 1]);
        assert(shorter.push(name.last()) =~= name);
    } else {
        assert(path =~= front);
        assert(last_component(path) =~= name);
    }
}

/// The file name of a path is what stands behind the last separator, be it a slash
/// or a backslash. A separator at the end does not count, nor does a step to the
/// directory itself; a step to the parent is no name.
pub proof fn law_file_name_of_a_path(dir: Seq<char>, sep: char, name: Seq<char>)
    requires
        sep == '/' || sep == '\\',
        name.len() > 0,
        !name.contains('/'),
        !name.contains('\\'),
    ensures
        name != "."@ && name != ".."@ ==> file_name(dir + seq![sep] + name) == Some(name)
            && file_name(name) == Some(name),
        file_name(dir + seq![sep]) == file_name(dir),
        file_name(dir + seq![sep] + "."@) == file_name(dir),
        file_name(dir + seq![sep] + ".."@) is None,
        file_name(".."@) is None,
        file_name("."@) is None,
        file_name(Seq::empty()) is None,
{
    reveal_strlit(".");
    reveal_strlit("..");
    assert("."@ != ".."@) by {
        assert("."@.len() != ".."@.len());
    }
    assert forall|i: int| 0 <= i < name.len() implies !is_separator(#[trigger] name[i]) by {
        assert(name.contains(name[i]));
    }
    let front = dir + seq![sep];
    assert(front.last() == sep);
    lemma_last_component(front, name);
    lemma_last_component(Seq::empty(), name);
    assert(Seq::<char>::empty() + name =~= name);
    lemma_last_component(front, Seq::empty());
    assert(front + Seq::<char>::empty() =~= front);
    assert(before_last_component(front) =~= dir);
    assert(last_component(front).len() == 0);
    assert(last_component(front) != ".."@) by {
        assert(".."@.len() == 2);
    }
    let dotted = front + "."@;
    lemma_last_component(front, "."@);
    assert(before_last_component(dotted) =~= dir);
    lemma_last_component(front, ".."@);
    lemma_last_component(Seq::empty(), "."@);
    lemma_last_component(Seq::empty(), ".."@);
    assert(Seq::<char>::empty() + "."@ =~= "."@);
    assert(Seq::<char>::empty() + ".."@ =~= ".."@);
}

/// A file name without its extension: what stands in front of the last dot, or all
/// of it where there is no dot or only one at the start.
pub proof fn law_stem(base: Seq<char>, extension: Seq<char>)
    requires
        !extension.contains('.'),
    ensures
        base.len() > 0 ==> stem(base + seq!['.'] + extension) == base,
        stem(seq!['.'] + extension) == seq!['.'] + extension,
        stem(extension) == extension,
{
    text::law_after_last(base, '.', extension);
    text::law_after_last(Seq::empty(), '.', extension);
    assert(Seq::<char>::empty() + seq!['.'] + extension =~= seq!['.'] + extension);
    if base.len() > 0 {
        assert(stem(base + seq!['.'] + extension) =~= base);
    }
}

/// The unified binary is known by its name: `llama` in any case of its letters,
/// with or without an extension, wherever it is.
pub proof fn law_unified_binary_by_name(path: Seq<char>, dir: Seq<char>, extension: Seq<char>)
    requires
        !extension.contains('.'),
        !extension.contains('/'),
        !extension.contains('\\'),
    ensures
        is_unified(path) <==> (file_name(path) matches Some(name) && text::ascii_lower(stem(name))
            == "llama"@),
        is_unified(dir + seq!['/'] + "llama"@),
        is_unified(dir + seq!['/'] + ("llama"@ + seq!['.'] + extension)),
        is_unified("llama"@),
        !is_unified(dir + seq!['/'] + "llama-cli"@),
        !is_unified(dir + seq!['/'] + "main"@),
{
    reveal_strlit("llama");
    reveal_strlit("llama-cli");
    reveal_strlit("main");
    reveal_strlit(".");
    reveal_strlit("..");
    assert(text::ascii_lower("llama"@) =~= "llama"@);
    let whole = "llama"@ + seq!['.'] + extension;
    assert(whole.len() >= 6);
    assert forall|i: int| 0 <= i < whole.len() implies whole[i] != '/' && whole[i] != '\\' by {
        if i > 5 {
            assert(whole[i] == extension[i - 6]);
            assert(extension.contains(whole[i]));
        }
    }
    law_file_name_of_a_path(dir, '/', "llama"@);
    law_file_name_of_a_path(dir, '/', whole);
    law_file_name_of_a_path(dir, '/', "llama-cli"@);
    law_file_name_of_a_path(dir, '/', "main"@);
    law_stem("llama"@, extension);
    law_stem(Seq::empty(), "llama"@);
    law_stem(Seq::empty(), "llama-cli"@);
    law_stem(Seq::empty(), "main"@);
    assert(text::ascii_lower("llama-cli"@).len() == 9);
    assert(text::ascii_lower("main"@).len() == 4);
}

/// The command line that the executable is started with. The model's path stands
/// behind `-m`, in front of the parameters, and for the unified binary the
/// subcommand `cli` in front of both. Each parameter that has a value is there
/// with it, as a text that reads back as the parameter. A switch that applies is
/// there, and the unified binary gets `on` behind `--flash-attn`, at the end.
pub proof fn law_command_line_reads_back(unified: bool, p: ParamsView)
    ensures
        ({
            let line = command_line(unified, p);
            let o: int = if unified {
                3
            } else {
                2
            };
            &&& unified ==> line[0] == ArgView::Text("cli"@)
            &&& line[o - 2] == ArgView::Text("-m"@)
            &&& line[o - 1] == ArgView::ModelPath
            &&& line[o] == ArgView::Text("--n-gpu-layers"@)
            &&& line[o + 1] matches ArgView::Text(t) && (if p.n_gpu_layers >= 0 {
                text::parsed_u64(t) == Some(p.n_gpu_layers as u64)
            } else {
                t[0] == '-' && text::parsed_u64(t.skip(1)) == Some((-p.n_gpu_layers) as u64)
            })
            &&& line[o + 2] == ArgView::Text("--ctx-size"@)
            &&& line[o + 3] matches ArgView::Text(t) && text::parsed_u64(t) == Some(
                p.ctx_size as u64,
            )
            &&& line[o + 4] == ArgView::Text("--threads"@)
            &&& line[o + 5] matches ArgView::Text(t) && text::parsed_u64(t) == Some(
                p.threads as u64,
            )
            &&& line[o + 6] == ArgView::Text("--batch-size"@)
            &&& line[o + 7] matches ArgView::Text(t) && text::parsed_u64(t) == Some(
                p.batch_size as u64,
            )
            &&& line[o + 8] == ArgView::Text("--ubatch-size"@)
            &&& line[o + 9] matches ArgView::Text(t) && text::parsed_u64(t) == Some(
                p.ubatch_size as u64,
            )
            &&& line.contains(ArgView::Text("--no-mmap"@)) <== !p.use_mmap
            &&& line.contains(ArgView::Text("--mlock"@)) <== p.use_mlock
            &&& p.flash_attn && !unified ==> line.last() == ArgView::Text("--flash-attn"@)
            &&& p.flash_attn && unified ==> line.last() == ArgView::Text("on"@) && line[line.len()
                - 2] == ArgView::Text("--flash-attn"@)
            &&& line.len() == o + 10 + (if p.use_mmap {
                0int
            } else {
                1
            }) + (if p.use_mlock {
                1int
            } else {
                0
            }) + (if p.flash_attn {
                if unified {
                    2int
                } else {
                    1
                }
            } else {
                0
            })
        }),
{
    let line = command_line(unified, p);
    let a = p.cli_args();
    let o: int = if unified {
        3
    } else {
        2
    };
    crate::params::law_arguments_read_back(p);
    if unified {
        law_unified_command_line(p);
    } else {
        law_standalone_command_line(p);
    }
    assert forall|k: int| 0 <= k < a.len() implies line[o + k] == ArgView::Text(
        #[trigger] a[k],
    ) by {
        assert(as_args(a)[k] == ArgView::Text(a[k]));
    }
    assert(a[0] == "--n-gpu-layers"@ && a[2] == "--ctx-size"@ && a[4] == "--threads"@);
    assert(line[o + 1] == ArgView::Text(a[1]) && line[o + 3] == ArgView::Text(a[3]));
    assert(line[o + 5] == ArgView::Text(a[5]) && line[o + 7] == ArgView::Text(a[7]));
    assert(line[o + 9] == ArgView::Text(a[9]) && line[o + 6] == ArgView::Text(a[6]));
    assert(line[o + 8] == ArgView::Text(a[8]));
    crate::params::law_switches_are_there_where_they_apply(p);
    if !p.use_mmap {
        let k = choose|k: int| 0 <= k < a.len() && a[k] == "--no-mmap"@;
        assert(line[o + k] == ArgView::Text("--no-mmap"@));
    }
    if p.use_mlock {
        let k = choose|k: int| 0 <= k < a.len() && a[k] == "--mlock"@;
        assert(line[o + k] == ArgView::Text("--mlock"@));
    }
    if p.flash_attn {
        assert(a.last() == p.switches().last());
        assert(p.switches().last() == "--flash-attn"@);
        assert(line[o + a.len() - 1] == ArgView::Text(a[a.len() - 1]));
    }
}

/// What the contracts speak of are the arguments themselves.
pub proof fn law_views_hold_the_arguments(arg: LaunchArg, args: Seq<LaunchArg>, i: int)
    ensures
        arg matches LaunchArg::Text(s) ==> arg@ == ArgView::Text(s@),
        arg is ModelPath <==> arg@ is ModelPath,
        arg_views(args).len() == args.len(),
        0 <= i < args.len() ==> arg_views(args)[i] == args[i]@,
{
}

/// A started process is looked at every fifth of a second for three seconds. One
/// that fails is reported with its code, one that ends well is not, and one that
/// is running after that time is left alone.
pub proof fn law_watch_in_numbers(waited_ms: u64, code: Option<i32>)
    ensures
        POLL_INTERVAL_MS == 200,
        watch_step(waited_ms, ChildState::Running) is Sleep <==> waited_ms < 3000,
        watch_step(waited_ms, ChildState::Running) is Stop <==> waited_ms >= 3000,
        watch_step(waited_ms, ChildState::Exited { success: true, code }) is Stop,
        watch_step(waited_ms, ChildState::Exited { success: false, code }) == WatchStep::Report(
            code,
        ),
        watch_step(waited_ms, ChildState::Unknown) is Stop,
{
}

/// The message on a start ends in the number of the process, which reads back.
pub proof fn law_message_on_a_start(pid: u32)
    ensures
        launched_text(pid).len() > 25,
        launched_text(pid).take(24) == "Launched llama.cpp (pid "@,
        text::parsed_u64(launched_text(pid).subrange(24, launched_text(pid).len() - 1)) == Some(
            pid as u64,
        ),
        launched_text(pid).last() == ')',
{
    reveal_strlit("Launched llama.cpp (pid ");
    reveal_strlit(")");
    text::law_decimal_reads_back(pid as nat);
    let t = launched_text(pid);
    assert(t.take(24) =~= "Launched llama.cpp (pid "@);
    assert(t.subrange(24, t.len() - 1) =~= text::decimal(pid as nat));
}

} // verus!
