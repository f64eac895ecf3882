//! The decisions of the KiCad adapter's command line: which command and
//! options were given, which host board to use, how firmware is classified,
//! where a generated project goes and how it is filled in.

use vstd::prelude::*;
use crate::project::autobind::{
    auto_bind_host_board, bviews, default_project_name, inferred_host_board_from_source,
    spec_auto_bind, spec_default_project_name, spec_inferred_host_board, spec_sync_bindings,
    sync_host_board_bindings,
};
use crate::project::error::{spec_error_message, ProjectError, ProjectErrorView};
use crate::project::paths::{
    extension_of, file_name, spec_extension, spec_file_stem, spec_with_file_name, stem_of,
    with_file_name,
};
use crate::project::shared::{
    spec_host_board_short_name, FirmwareSource, FirmwareSourceKind, HostBoard, PcbSource,
};
use crate::project::simulation_project::SimulationProject;
use crate::text::{
    chars_of, concat2, concat3, is, lower, owned, push_all, spec_lower_seq, spec_starts_with,
    spec_trim, str_starts_with, strictly_sorted, string_of, trim, views,
};

verus! {

/// Why a command of the adapter failed.
#[derive(Debug)]
pub enum KiCadCliError {
    /// Bad command-line use; the text says what and repeats the usage.
    Usage(String),
    /// A file could not be read or written; the text is the system's message.
    Io(String),
    Project(ProjectError),
    /// The KiCad board could not be read; the text is the reader's message.
    Board(String),
    UnsupportedFirmwarePath(String),
    MissingGuiBinary,
}

pub ghost enum KiCadCliErrorView {
    Usage(Seq<char>),
    Io(Seq<char>),
    Project(ProjectErrorView),
    Board(Seq<char>),
    UnsupportedFirmwarePath(Seq<char>),
    MissingGuiBinary,
}

impl View for KiCadCliError {
    type V = KiCadCliErrorView;

    open spec fn view(&self) -> KiCadCliErrorView {
        match self {
            KiCadCliError::Usage(m) => KiCadCliErrorView::Usage(m@),
            KiCadCliError::Io(m) => KiCadCliErrorView::Io(m@),
            KiCadCliError::Project(e) => KiCadCliErrorView::Project(e@),
            KiCadCliError::Board(m) => KiCadCliErrorView::Board(m@),
            KiCadCliError::UnsupportedFirmwarePath(p) => KiCadCliErrorView::UnsupportedFirmwarePath(
                p@,
            ),
            KiCadCliError::MissingGuiBinary => KiCadCliErrorView::MissingGuiBinary,
        }
    }
}

pub open spec fn spec_cli_error_message(e: KiCadCliErrorView) -> Seq<char> {
    match e {
        KiCadCliErrorView::Usage(m) => m,
        KiCadCliErrorView::Io(m) => m,
        KiCadCliErrorView::Project(p) => spec_error_message(p),
        KiCadCliErrorView::Board(m) => m,
        KiCadCliErrorView::UnsupportedFirmwarePath(p) => "firmware path "@ + p
            + " must point to an .ino sketch, a directory containing a sketch, or a .hex image"@,
        KiCadCliErrorView::MissingGuiBinary =>
            "could not find arduino-simulator-gui next to the adapter binary and could not fall back to cargo"@,
    }
}

impl KiCadCliError {
    /// The human-readable text of this error.
    pub fn message(&self) -> (r: String)
        ensures
            r@ == spec_cli_error_message(self@),
    {
        match self {
            KiCadCliError::Usage(m) => m.clone(),
            KiCadCliError::Io(m) => m.clone(),
            KiCadCliError::Project(e) => e.message(),
            KiCadCliError::Board(m) => m.clone(),
            KiCadCliError::UnsupportedFirmwarePath(p) => concat3(
                "firmware path ",
                p,
                " must point to an .ino sketch, a directory containing a sketch, or a .hex image",
            ),
            KiCadCliError::MissingGuiBinary => owned(
                "could not find arduino-simulator-gui next to the adapter binary and could not fall back to cargo",
            ),
        }
    }
}

// ---------------------------------------------------------------------------
// Usage text
// ---------------------------------------------------------------------------

pub open spec fn spec_usage() -> Seq<char> {
    "Usage:"@ + "\n"@
        + "  arduino-simulator-kicad create-project --pcb <board.kicad_pcb> --firmware <sketch.ino|firmware.hex|sketch_dir> [--board auto|mega|nano] [--out <project.avrsim.json>] [--name <project name>] [--launch-gui]"@
        + "\n"@
        + "  arduino-simulator-kicad sync-project --project <project.avrsim.json> [--board auto|mega|nano] [--launch-gui]"@
        + "\n"@ + "  arduino-simulator-kicad open-pcb --pcb <board.kicad_pcb> [--board auto|mega|nano]"@
        + "\n"@ + "  arduino-simulator-kicad open-gui --project <project.avrsim.json>"@ + "\n"@ + ""@
        + "\n"@
        + "The KiCad adapter can open a PCB directly in generic mode, or import a PCB, infer host-pin"@
        + "\n"@
        + "bindings, write an .avrsim.json project, and optionally launch the arduino_simulator GUI."@
}

/// How the adapter is used.
pub fn usage() -> (r: String)
    ensures
        r@ == spec_usage(),
{
    let mut r = owned("Usage:");
    r.append("\n");
    r.append(
        "  arduino-simulator-kicad create-project --pcb <board.kicad_pcb> --firmware <sketch.ino|firmware.hex|sketch_dir> [--board auto|mega|nano] [--out <project.avrsim.json>] [--name <project name>] [--launch-gui]",
    );
    r.append("\n");
    r.append(
        "  arduino-simulator-kicad sync-project --project <project.avrsim.json> [--board auto|mega|nano] [--launch-gui]",
    );
    r.append("\n");
    r.append("  arduino-simulator-kicad open-pcb --pcb <board.kicad_pcb> [--board auto|mega|nano]");
    r.append("\n");
    r.append("  arduino-simulator-kicad open-gui --project <project.avrsim.json>");
    r.append("\n");
    r.append("");
    r.append("\n");
    r.append(
        "The KiCad adapter can open a PCB directly in generic mode, or import a PCB, infer host-pin",
    );
    r.append("\n");
    r.append(
        "bindings, write an .avrsim.json project, and optionally launch the arduino_simulator GUI.",
    );
    r
}

/// `head` followed by a blank line and the usage text.
pub open spec fn with_usage(head: Seq<char>) -> Seq<char> {
    head + "\n\n"@ + spec_usage()
}

fn usage_error(head: String) -> (r: KiCadCliError)
    ensures
        r@ == KiCadCliErrorView::Usage(with_usage(head@)),
{
    let mut text = head;
    text.append("\n\n");
    let u = usage();
    text.append(u.as_str());
    KiCadCliError::Usage(text)
}

// ---------------------------------------------------------------------------
// Option parsing
// ---------------------------------------------------------------------------

/// What an option that is not understood yields.
pub open spec fn unknown_arg(arg: Seq<char>) -> Seq<char> {
    if spec_starts_with(arg, "-"@) {
        with_usage("unknown option `"@ + arg + "`"@)
    } else {
        with_usage("unexpected positional argument `"@ + arg + "`"@)
    }
}

fn unknown_arg_error(arg: &String) -> (r: KiCadCliError)
    ensures
        r@ == KiCadCliErrorView::Usage(unknown_arg(arg@)),
{
    let chars = chars_of(arg.as_str());
    if str_starts_with(&chars, "-") {
        usage_error(concat3("unknown option `", arg.as_str(), "`"))
    } else {
        usage_error(concat3("unexpected positional argument `", arg.as_str(), "`"))
    }
}

pub open spec fn is_help(arg: Seq<char>) -> bool {
    arg == "--help"@ || arg == "-h"@
}

/// The options of `create-project` as scanned so far.
pub ghost struct CreateScan {
    pub pcb: Option<Seq<char>>,
    pub firmware: Option<Seq<char>>,
    pub out: Option<Seq<char>>,
    pub name: Option<Seq<char>>,
    pub launch_gui: bool,
    pub board: Option<Seq<char>>,
}

/// Scans `create-project` arguments from `i`; an error is a usage text.
pub open spec fn scan_create(args: Seq<Seq<char>>, i: int, st: CreateScan) -> Result<
    CreateScan,
    Seq<char>,
>
    decreases args.len() - i,
{
    if i < 0 || i >= args.len() {
        Ok(st)
    } else {
        let arg = args[i];
        let has_value = i + 1 < args.len();
        if arg == "--pcb"@ {
            if has_value {
                scan_create(args, i + 2, CreateScan { pcb: Some(args[i + 1]), ..st })
            } else {
                Err(with_usage("--pcb requires a file path"@))
            }
        } else if arg == "--firmware"@ {
            if has_value {
                scan_create(args, i + 2, CreateScan { firmware: Some(args[i + 1]), ..st })
            } else {
                Err(with_usage("--firmware requires a file path"@))
            }
        } else if arg == "--out"@ {
            if has_value {
                scan_create(args, i + 2, CreateScan { out: Some(args[i + 1]), ..st })
            } else {
                Err(with_usage("--out requires a file path"@))
            }
        } else if arg == "--name"@ {
            if has_value {
                scan_create(args, i + 2, CreateScan { name: Some(args[i + 1]), ..st })
            } else {
                Err(with_usage("--name requires a value"@))
            }
        } else if arg == "--board"@ {
            if has_value {
                scan_create(args, i + 2, CreateScan { board: Some(args[i + 1]), ..st })
            } else {
                Err(with_usage("--board requires a value"@))
            }
        } else if arg == "--launch-gui"@ {
            scan_create(args, i + 1, CreateScan { launch_gui: true, ..st })
        } else if is_help(arg) {
            Err(spec_usage())
        } else {
            Err(unknown_arg(arg))
        }
    }
}

/// The options of `create-project`.
#[derive(Debug, Clone)]
pub struct CreateProjectOptions {
    pub pcb_path: String,
    pub firmware_path: String,
    pub out_path: Option<String>,
    pub name: Option<String>,
    pub launch_gui: bool,
    pub requested_board: Option<String>,
}

pub open spec fn opt_view(o: Option<String>) -> Option<Seq<char>> {
    match o {
        Some(s) => Some(s@),
        None => None,
    }
}

/// `create-project` options from its arguments: `--pcb` and `--firmware`
/// are required; unknown options and positional arguments are refused.
pub open spec fn spec_create_options(args: Seq<Seq<char>>) -> Result<CreateScan, Seq<char>> {
    let empty = CreateScan {
        pcb: None,
        firmware: None,
        out: None,
        name: None,
        launch_gui: false,
        board: None,
    };
    match scan_create(args, 0, empty) {
        Err(m) => Err(m),
        Ok(st) => if st.pcb is None {
            Err(with_usage("missing --pcb"@))
        } else if st.firmware is None {
            Err(with_usage("missing --firmware"@))
        } else {
            Ok(st)
        },
    }
}

pub fn parse_create_project_options(args: &[String]) -> (r: Result<
    CreateProjectOptions,
    KiCadCliError,
>)
    ensures
        match r {
            Ok(o) => spec_create_options(views(args@)) == Ok::<CreateScan, Seq<char>>(
                CreateScan {
                    pcb: Some(o.pcb_path@),
                    firmware: Some(o.firmware_path@),
                    out: opt_view(o.out_path),
                    name: opt_view(o.name),
                    launch_gui: o.launch_gui,
                    board: opt_view(o.requested_board),
                },
            ),
            Err(e) => spec_create_options(views(args@)) matches Err(m) && e@
                == KiCadCliErrorView::Usage(m),
        },
{
    let ghost av = views(args@);
    let mut pcb_path: Option<String> = None;
    let mut firmware_path: Option<String> = None;
    let mut out_path: Option<String> = None;
    let mut name: Option<String> = None;
    let mut launch_gui = false;
    let mut requested_board: Option<String> = None;
    let ghost empty = CreateScan {
        pcb: None,
        firmware: None,
        out: None,
        name: None,
        launch_gui: false,
        board: None,
    };
    let mut i: usize = 0;
    while i < args.len()
        invariant
            av == views(args@),
            empty == (CreateScan {
                pcb: None,
                firmware: None,
                out: None,
                name: None,
                launch_gui: false,
                board: None,
            }),
            i <= args@.len(),
            scan_create(av, 0, empty) == scan_create(
                av,
                i as int,
                CreateScan {
                    pcb: opt_view(pcb_path),
                    firmware: opt_view(firmware_path),
                    out: opt_view(out_path),
                    name: opt_view(name),
                    launch_gui,
                    board: opt_view(requested_board),
                },
            ),
        decreases args.len() - i,
    {
        let arg = chars_of(args[i].as_str());
        let has_value = i + 1 < args.len();
        if is(&arg, "--pcb") {
            if !has_value {
                return Err(usage_error(owned("--pcb requires a file path")));
            }
            pcb_path = Some(args[i + 1].clone());
            i = i + 2;
        } else if is(&arg, "--firmware") {
            if !has_value {
                return Err(usage_error(owned("--firmware requires a file path")));
            }
            firmware_path = Some(args[i + 1].clone());
            i = i + 2;
        } else if is(&arg, "--out") {
            if !has_value {
                return Err(usage_error(owned("--out requires a file path")));
            }
            out_path = Some(args[i + 1].clone());
            i = i + 2;
        } else if is(&arg, "--name") {
            if !has_value {
                return Err(usage_error(owned("--name requires a value")));
            }
            name = Some(args[i + 1].clone());
            i = i + 2;
        } else if is(&arg, "--board") {
            if !has_value {
                return Err(usage_error(owned("--board requires a value")));
            }
            requested_board = Some(args[i + 1].clone());
            i = i + 2;
        } else if is(&arg, "--launch-gui") {
            launch_gui = true;
            i = i + 1;
        } else if is(&arg, "--help") || is(&arg, "-h") {
            return Err(KiCadCliError::Usage(usage()));
        } else {
            return Err(unknown_arg_error(&args[i]));
        }
    }
    let pcb_path = match pcb_path {
        Some(p) => p,
        None => {
            return Err(usage_error(owned("missing --pcb")));
        },
    };
    let firmware_path = match firmware_path {
        Some(p) => p,
        None => {
            return Err(usage_error(owned("missing --firmware")));
        },
    };
    Ok(CreateProjectOptions { pcb_path, firmware_path, out_path, name, launch_gui, requested_board })
}

/// The options of `sync-project`.
#[derive(Debug, Clone)]
pub struct SyncProjectOptions {
    pub project_path: String,
    pub launch_gui: bool,
    pub requested_board: Option<String>,
}

/// The options of `sync-project` (and `open-pcb`, `open-gui`) as scanned:
/// the path option, the GUI flag and the board.
pub ghost struct PathScan {
    pub path: Option<Seq<char>>,
    pub launch_gui: bool,
    pub board: Option<Seq<char>>,
}

/// Scans arguments from `i` for a command whose path option is `flag`
/// and which accepts `--board` and `--launch-gui` when `with_board` and
/// `with_launch` say so.
pub open spec fn scan_path(
    args: Seq<Seq<char>>,
    i: int,
    st: PathScan,
    flag: Seq<char>,
    with_board: bool,
    with_launch: bool,
) -> Result<PathScan, Seq<char>>
    decreases args.len() - i,
{
    if i < 0 || i >= args.len() {
        Ok(st)
    } else {
        let arg = args[i];
        let has_value = i + 1 < args.len();
        if arg == flag {
            if has_value {
                scan_path(args, i + 2, PathScan { path: Some(args[i + 1]), ..st }, flag, with_board, with_launch)
            } else {
                Err(with_usage(flag + " requires a file path"@))
            }
        } else if with_board && arg == "--board"@ {
            if has_value {
                scan_path(args, i + 2, PathScan { board: Some(args[i + 1]), ..st }, flag, with_board, with_launch)
            } else {
                Err(with_usage("--board requires a value"@))
            }
        } else if with_launch && arg == "--launch-gui"@ {
            scan_path(args, i + 1, PathScan { launch_gui: true, ..st }, flag, with_board, with_launch)
        } else if is_help(arg) {
            Err(spec_usage())
        } else {
            Err(unknown_arg(arg))
        }
    }
}

pub open spec fn spec_path_options(
    args: Seq<Seq<char>>,
    flag: Seq<char>,
    with_board: bool,
    with_launch: bool,
) -> Result<PathScan, Seq<char>> {
    match scan_path(args, 0, PathScan { path: None, launch_gui: false, board: None }, flag, with_board, with_launch) {
        Err(m) => Err(m),
        Ok(st) => if st.path is None {
            Err(with_usage("missing "@ + flag))
        } else {
            Ok(st)
        },
    }
}

/// Scans the arguments of a command with one path option.
fn parse_path_options(args: &[String], flag: &str, with_board: bool, with_launch: bool) -> (r: Result<
    (String, bool, Option<String>),
    KiCadCliError,
>)
    ensures
        match r {
            Ok((p, l, b)) => spec_path_options(views(args@), flag@, with_board, with_launch) == Ok::<
                PathScan,
                Seq<char>,
            >(PathScan { path: Some(p@), launch_gui: l, board: opt_view(b) }),
            Err(e) => spec_path_options(views(args@), flag@, with_board, with_launch) matches Err(
                m,
            ) && e@ == KiCadCliErrorView::Usage(m),
        },
{
    let ghost av = views(args@);
    let ghost empty = PathScan { path: None, launch_gui: false, board: None };
    let mut path: Option<String> = None;
    let mut launch_gui = false;
    let mut board: Option<String> = None;
    let mut i: usize = 0;
    while i < args.len()
        invariant
            av == views(args@),
            empty == (PathScan { path: None, launch_gui: false, board: None }),
            i <= args@.len(),
            scan_path(av, 0, empty, flag@, with_board, with_launch) == scan_path(
                av,
                i as int,
                PathScan { path: opt_view(path), launch_gui, board: opt_view(board) },
                flag@,
                with_board,
                with_launch,
            ),
        decreases args.len() - i,
    {
        let arg = chars_of(args[i].as_str());
        let has_value = i + 1 < args.len();
        if is(&arg, flag) {
            if !has_value {
                return Err(usage_error(concat2(flag, " requires a file path")));
            }
            path = Some(args[i + 1].clone());
            i = i + 2;
        } else if with_board && is(&arg, "--board") {
            if !has_value {
                return Err(usage_error(owned("--board requires a value")));
            }
            board = Some(args[i + 1].clone());
            i = i + 2;
        } else if with_launch && is(&arg, "--launch-gui") {
            launch_gui = true;
            i = i + 1;
        } else if is(&arg, "--help") || is(&arg, "-h") {
            return Err(KiCadCliError::Usage(usage()));
        } else {
            return Err(unknown_arg_error(&args[i]));
        }
    }
    match path {
        Some(p) => Ok((p, launch_gui, board)),
        None => Err(usage_error(concat2("missing ", flag))),
    }
}

/// `sync-project` options: `--project` is required, `--board` and
/// `--launch-gui` are accepted.
pub fn parse_sync_project_options(args: &[String]) -> (r: Result<SyncProjectOptions, KiCadCliError>)
    ensures
        match r {
            Ok(o) => spec_path_options(views(args@), "--project"@, true, true) == Ok::<
                PathScan,
                Seq<char>,
            >(
                PathScan {
                    path: Some(o.project_path@),
                    launch_gui: o.launch_gui,
                    board: opt_view(o.requested_board),
                },
            ),
            Err(e) => spec_path_options(views(args@), "--project"@, true, true) matches Err(m)
                && e@ == KiCadCliErrorView::Usage(m),
        },
{
    match parse_path_options(args, "--project", true, true) {
        Ok((project_path, launch_gui, requested_board)) => Ok(
            SyncProjectOptions { project_path, launch_gui, requested_board },
        ),
        Err(e) => Err(e),
    }
}

/// `open-gui` options: just the required `--project`.
pub fn parse_open_gui_options(args: &[String]) -> (r: Result<String, KiCadCliError>)
    ensures
        match r {
            Ok(p) => spec_path_options(views(args@), "--project"@, false, false) matches Ok(st)
                && st.path == Some(p@),
            Err(e) => spec_path_options(views(args@), "--project"@, false, false) matches Err(m)
                && e@ == KiCadCliErrorView::Usage(m),
        },
{
    match parse_path_options(args, "--project", false, false) {
        Ok((project_path, _, _)) => Ok(project_path),
        Err(e) => Err(e),
    }
}

/// The options of `open-pcb`.
#[derive(Debug, Clone)]
pub struct OpenPcbOptions {
    pub pcb_path: String,
    pub requested_board: Option<String>,
}

/// `open-pcb` options: `--pcb` is required, `--board` is accepted.
pub fn parse_open_pcb_options(args: &[String]) -> (r: Result<OpenPcbOptions, KiCadCliError>)
    ensures
        match r {
            Ok(o) => spec_path_options(views(args@), "--pcb"@, true, false) matches Ok(st)
                && st.path == Some(o.pcb_path@) && st.board == opt_view(o.requested_board),
            Err(e) => spec_path_options(views(args@), "--pcb"@, true, false) matches Err(m) && e@
                == KiCadCliErrorView::Usage(m),
        },
{
    match parse_path_options(args, "--pcb", true, false) {
        Ok((pcb_path, _, requested_board)) => Ok(OpenPcbOptions { pcb_path, requested_board }),
        Err(e) => Err(e),
    }
}

// ---------------------------------------------------------------------------
// Commands
// ---------------------------------------------------------------------------

/// A command of the adapter with its options.
#[derive(Debug, Clone)]
pub enum CliCommand {
    CreateProject(CreateProjectOptions),
    SyncProject(SyncProjectOptions),
    OpenPcb(OpenPcbOptions),
    OpenGui(String),
    Help,
}

fn arguments_after(args: &[String], start: usize) -> (r: Vec<String>)
    requires
        start <= args@.len(),
    ensures
        views(r@) == views(args@.skip(start as int)),
{
    let mut out: Vec<String> = Vec::new();
    let mut i: usize = start;
    while i < args.len()
        invariant
            start <= i <= args@.len(),
            views(out@) == views(args@.subrange(start as int, i as int)),
        decreases args.len() - i,
    {
        let ghost before = views(out@);
        out.push(args[i].clone());
        assert(views(out@) =~= before.push(args@[i as int]@));
        assert(args@.subrange(start as int, i + 1) =~= args@.subrange(start as int, i as int).push(args@[i as int]));
        assert(views(out@) =~= views(args@.subrange(start as int, i + 1)));
        i = i + 1;
    }
    assert(args@.subrange(start as int, args@.len() as int) =~= args@.skip(start as int));
    out
}

/// The command named by the argument after the program name, with its
/// options parsed from the arguments that follow.
pub fn parse_command(args: &[String]) -> (r: Result<CliCommand, KiCadCliError>)
    ensures
        args@.len() < 2 ==> (r matches Err(e) && e@ == KiCadCliErrorView::Usage(spec_usage())),
        args@.len() >= 2 && args@[1]@ == "create-project"@ ==> (r is Ok <==> spec_create_options(
            views(args@.skip(2)),
        ) is Ok),
        args@.len() >= 2 && args@[1]@ == "sync-project"@ ==> (r is Ok <==> spec_path_options(
            views(args@.skip(2)),
            "--project"@,
            true,
            true,
        ) is Ok),
        args@.len() >= 2 && args@[1]@ == "open-pcb"@ ==> (r is Ok <==> spec_path_options(
            views(args@.skip(2)),
            "--pcb"@,
            true,
            false,
        ) is Ok),
        args@.len() >= 2 && args@[1]@ == "open-gui"@ ==> (r is Ok <==> spec_path_options(
            views(args@.skip(2)),
            "--project"@,
            false,
            false,
        ) is Ok),
        args@.len() >= 2 && (args@[1]@ == "--help"@ || args@[1]@ == "-h"@ || args@[1]@
            == "help"@) ==> r matches Ok(CliCommand::Help),
        args@.len() >= 2 && !(args@[1]@ == "create-project"@ || args@[1]@ == "sync-project"@
            || args@[1]@ == "open-pcb"@ || args@[1]@ == "open-gui"@ || args@[1]@ == "--help"@
            || args@[1]@ == "-h"@ || args@[1]@ == "help"@) ==> (r matches Err(e) && e@
            == KiCadCliErrorView::Usage(
            "unknown command `"@ + args@[1]@ + "`\n\n"@ + spec_usage(),
        )),
{
    if args.len() < 2 {
        return Err(KiCadCliError::Usage(usage()));
    }
    proof {
        reveal_strlit("create-project");
        reveal_strlit("sync-project");
        reveal_strlit("open-pcb");
        reveal_strlit("open-gui");
        reveal_strlit("--help");
        reveal_strlit("-h");
        reveal_strlit("help");
        assert("create-project"@ != "sync-project"@) by {
            assert("create-project"@.len() != "sync-project"@.len());
        }
        assert("create-project"@ != "open-pcb"@) by {
            assert("create-project"@.len() != "open-pcb"@.len());
        }
        assert("create-project"@ != "open-gui"@) by {
            assert("create-project"@.len() != "open-gui"@.len());
        }
        assert("create-project"@ != "--help"@) by {
            assert("create-project"@.len() != "--help"@.len());
        }
        assert("create-project"@ != "-h"@) by {
            assert("create-project"@.len() != "-h"@.len());
        }
        assert("create-project"@ != "help"@) by {
            assert("create-project"@.len() != "help"@.len());
        }
        assert("sync-project"@ != "open-pcb"@) by {
            assert("sync-project"@.len() != "open-pcb"@.len());
        }
        assert("sync-project"@ != "open-gui"@) by {
            assert("sync-project"@.len() != "open-gui"@.len());
        }
        assert("sync-project"@ != "--help"@) by {
            assert("sync-project"@.len() != "--help"@.len());
        }
        assert("sync-project"@ != "-h"@) by {
            assert("sync-project"@.len() != "-h"@.len());
        }
        assert("sync-project"@ != "help"@) by {
            assert("sync-project"@.len() != "help"@.len());
        }
        assert("open-pcb"@ != "open-gui"@) by {
            assert("open-pcb"@[5] != "open-gui"@[5]);
        }
        assert("open-pcb"@ != "--help"@) by {
            assert("open-pcb"@.len() != "--help"@.len());
        }
        assert("open-pcb"@ != "-h"@) by {
            assert("open-pcb"@.len() != "-h"@.len());
        }
        assert("open-pcb"@ != "help"@) by {
            assert("open-pcb"@.len() != "help"@.len());
        }
        assert("open-gui"@ != "--help"@) by {
            assert("open-gui"@.len() != "--help"@.len());
        }
        assert("open-gui"@ != "-h"@) by {
            assert("open-gui"@.len() != "-h"@.len());
        }
        assert("open-gui"@ != "help"@) by {
            assert("open-gui"@.len() != "help"@.len());
        }
        assert("--help"@ != "-h"@) by {
            assert("--help"@.len() != "-h"@.len());
        }
        assert("--help"@ != "help"@) by {
            assert("--help"@.len() != "help"@.len());
        }
        assert("-h"@ != "help"@) by {
            assert("-h"@.len() != "help"@.len());
        }
    }
    let command = chars_of(args[1].as_str());
    let tail = arguments_after(args, 2);
    let rest = tail.as_slice();
    if is(&command, "create-project") {
        match parse_create_project_options(rest) {
            Ok(options) => Ok(CliCommand::CreateProject(options)),
            Err(e) => Err(e),
        }
    } else if is(&command, "sync-project") {
        assert(views(rest@) == views(args@.skip(2)));
        match parse_sync_project_options(rest) {
            Ok(options) => {
                assert(spec_path_options(views(rest@), "--project"@, true, true) is Ok);
                assert(spec_path_options(views(args@.skip(2)), "--project"@, true, true) is Ok);
                Ok(CliCommand::SyncProject(options))
            },
            Err(e) => Err(e),
        }
    } else if is(&command, "open-pcb") {
        match parse_open_pcb_options(rest) {
            Ok(options) => Ok(CliCommand::OpenPcb(options)),
            Err(e) => Err(e),
        }
    } else if is(&command, "open-gui") {
        match parse_open_gui_options(rest) {
            Ok(path) => Ok(CliCommand::OpenGui(path)),
            Err(e) => Err(e),
        }
    } else if is(&command, "--help") || is(&command, "-h") || is(&command, "help") {
        Ok(CliCommand::Help)
    } else {
        let mut text = concat3("unknown command `", args[1].as_str(), "`\n\n");
        let u = usage();
        text.append(u.as_str());
        Err(KiCadCliError::Usage(text))
    }
}

// ---------------------------------------------------------------------------
// Host board selection
// ---------------------------------------------------------------------------

/// The host board asked for with `--board`.
#[derive(Debug, Clone, Copy, PartialEq, Eq, Structural)]
pub enum RequestedHostBoard {
    Auto,
    Mega,
    Nano,
}

/// `--board` values, compared trimmed and lower-cased.
pub open spec fn spec_requested_board(value: Option<Seq<char>>) -> Result<
    RequestedHostBoard,
    Seq<char>,
> {
    match value {
        None => Ok(RequestedHostBoard::Auto),
        Some(v) => {
            let n = spec_lower_seq(spec_trim(v));
            if n == "auto"@ {
                Ok(RequestedHostBoard::Auto)
            } else if n == "mega"@ || n == "mega2560"@ {
                Ok(RequestedHostBoard::Mega)
            } else if n == "nano"@ || n == "nano328p"@ {
                Ok(RequestedHostBoard::Nano)
            } else {
                Err(
                    with_usage(
                        "unsupported board selection `"@ + n + "`; use auto, mega, or nano"@,
                    ),
                )
            }
        },
    }
}

/// A `--board` value selects the board its trimmed, lower-cased text names:
/// "nano" and "nano328p" the Nano, "mega" and "mega2560" the Mega 2560,
/// "auto" automatic selection; any other value is refused. No name selects
/// two boards.
pub proof fn law_requested_board_names(v: Seq<char>)
    ensures
        ({
            let n = spec_lower_seq(spec_trim(v));
            &&& (n == "nano"@ || n == "nano328p"@) <==> spec_requested_board(Some(v)) == Ok::<
                RequestedHostBoard,
                Seq<char>,
            >(RequestedHostBoard::Nano)
            &&& (n == "mega"@ || n == "mega2560"@) <==> spec_requested_board(Some(v)) == Ok::<
                RequestedHostBoard,
                Seq<char>,
            >(RequestedHostBoard::Mega)
            &&& n == "auto"@ <==> spec_requested_board(Some(v)) == Ok::<RequestedHostBoard, Seq<char>>(
                RequestedHostBoard::Auto,
            )
            &&& spec_requested_board(Some(v)) is Err <==> !(n == "nano"@ || n == "nano328p"@ || n == "mega"@
                || n == "mega2560"@ || n == "auto"@)
        }),
{
    reveal_strlit("nano");
    reveal_strlit("nano328p");
    reveal_strlit("mega");
    reveal_strlit("mega2560");
    reveal_strlit("auto");
    assert("nano"@[0] != "mega"@[0] && "nano"@[0] != "auto"@[0] && "mega"@[0] != "auto"@[0]);
    assert("nano328p"@[0] != "mega2560"@[0]);
    assert("nano"@ != "mega"@ && "nano"@ != "auto"@ && "mega"@ != "auto"@);
    assert("nano328p"@ != "mega2560"@);
    assert("nano"@.len() != "mega2560"@.len() && "mega"@.len() != "nano328p"@.len());
    assert("auto"@.len() != "nano328p"@.len() && "auto"@.len() != "mega2560"@.len());
}

pub fn parse_requested_board(value: Option<&str>) -> (r: Result<RequestedHostBoard, KiCadCliError>)
    ensures
        match r {
            Ok(b) => spec_requested_board(
                match value {
                    Some(v) => Some(v@),
                    None => None,
                },
            ) == Ok::<RequestedHostBoard, Seq<char>>(b),
            Err(e) => spec_requested_board(
                match value {
                    Some(v) => Some(v@),
                    None => None,
                },
            ) matches Err(m) && e@ == KiCadCliErrorView::Usage(m),
        },
{
    let v = match value {
        None => {
            return Ok(RequestedHostBoard::Auto);
        },
        Some(v) => v,
    };
    let raw = chars_of(v);
    let trimmed = trim(&raw);
    let n = lower(&trimmed);
    if is(&n, "auto") {
        Ok(RequestedHostBoard::Auto)
    } else if is(&n, "mega") || is(&n, "mega2560") {
        Ok(RequestedHostBoard::Mega)
    } else if is(&n, "nano") || is(&n, "nano328p") {
        Ok(RequestedHostBoard::Nano)
    } else {
        let shown = string_of(&n);
        Err(
            usage_error(
                concat3(
                    "unsupported board selection `",
                    shown.as_str(),
                    "`; use auto, mega, or nano",
                ),
            ),
        )
    }
}

pub open spec fn spec_resolve_board(
    requested: RequestedHostBoard,
    firmware: Seq<char>,
    pcb: Seq<char>,
) -> HostBoard {
    match requested {
        RequestedHostBoard::Mega => HostBoard::Mega2560Rev3,
        RequestedHostBoard::Nano => HostBoard::NanoV3,
        RequestedHostBoard::Auto => match spec_inferred_host_board(firmware) {
            Some(b) => b,
            None => match spec_inferred_host_board(pcb) {
                Some(b) => b,
                None => HostBoard::Mega2560Rev3,
            },
        },
    }
}

/// The board asked for, or else the one the firmware name hints at, or
/// else the one the PCB name hints at, or else the Mega.
pub fn resolve_requested_board(requested: RequestedHostBoard, firmware_path: &str, pcb_path: &str) -> (r:
    HostBoard)
    ensures
        r == spec_resolve_board(requested, firmware_path@, pcb_path@),
{
    match requested {
        RequestedHostBoard::Mega => HostBoard::Mega2560Rev3,
        RequestedHostBoard::Nano => HostBoard::NanoV3,
        RequestedHostBoard::Auto => match inferred_host_board_from_source(firmware_path) {
            Some(board) => board,
            None => match inferred_host_board_from_source(pcb_path) {
                Some(board) => board,
                None => HostBoard::Mega2560Rev3,
            },
        },
    }
}

/// The board `open-pcb` uses: the one asked for, or the one the PCB name
/// hints at, or the Mega.
pub fn open_pcb_host_board(requested: RequestedHostBoard, pcb_path: &str) -> (r: HostBoard)
    ensures
        r == (match requested {
            RequestedHostBoard::Mega => HostBoard::Mega2560Rev3,
            RequestedHostBoard::Nano => HostBoard::NanoV3,
            RequestedHostBoard::Auto => match spec_inferred_host_board(pcb_path@) {
                Some(b) => b,
                None => HostBoard::Mega2560Rev3,
            },
        }),
{
    match requested {
        RequestedHostBoard::Mega => HostBoard::Mega2560Rev3,
        RequestedHostBoard::Nano => HostBoard::NanoV3,
        RequestedHostBoard::Auto => match inferred_host_board_from_source(pcb_path) {
            Some(board) => board,
            None => HostBoard::Mega2560Rev3,
        },
    }
}

// ---------------------------------------------------------------------------
// Firmware and output paths
// ---------------------------------------------------------------------------

/// A directory holds a sketch; otherwise the extension decides, in any case.
pub open spec fn spec_classify_firmware(path: Seq<char>, is_dir: bool) -> Option<FirmwareSourceKind> {
    if is_dir {
        Some(FirmwareSourceKind::Ino)
    } else {
        match spec_extension(path) {
            Some(e) => if spec_lower_seq(e) == "ino"@ {
                Some(FirmwareSourceKind::Ino)
            } else if spec_lower_seq(e) == "hex"@ {
                Some(FirmwareSourceKind::Hex)
            } else {
                None
            },
            None => None,
        }
    }
}

/// The kind of firmware at `path`; `is_dir` tells whether the path is a
/// directory on disk.
pub fn classify_firmware_source(path: &str, is_dir: bool) -> (r: Result<
    FirmwareSourceKind,
    KiCadCliError,
>)
    ensures
        match r {
            Ok(k) => spec_classify_firmware(path@, is_dir) == Some(k),
            Err(e) => spec_classify_firmware(path@, is_dir) is None && e@
                == KiCadCliErrorView::UnsupportedFirmwarePath(path@),
        },
{
    if is_dir {
        return Ok(FirmwareSourceKind::Ino);
    }
    let ext = match file_name(path) {
        Some(name) => extension_of(&name),
        None => None,
    };
    match ext {
        Some(e) => {
            let l = lower(&e);
            if is(&l, "ino") {
                return Ok(FirmwareSourceKind::Ino);
            }
            if is(&l, "hex") {
                return Ok(FirmwareSourceKind::Hex);
            }
        },
        None => {},
    }
    Err(KiCadCliError::UnsupportedFirmwarePath(owned(path)))
}

/// Where a project generated from `pcb_path` is written by default: next
/// to the PCB, named after its stem (or `simulation`).
pub open spec fn spec_default_output_path(pcb_path: Seq<char>) -> Seq<char> {
    let stem = match spec_file_stem(pcb_path) {
        Some(s) => if s.len() > 0 {
            s
        } else {
            "simulation"@
        },
        None => "simulation"@,
    };
    spec_with_file_name(pcb_path, stem + ".avrsim.json"@)
}

pub fn default_output_path(pcb_path: &str) -> (r: String)
    ensures
        r@ == spec_default_output_path(pcb_path@),
{
    let stem: Vec<char> = match file_name(pcb_path) {
        Some(n) => {
            let s = stem_of(&n);
            if s.len() > 0 {
                s
            } else {
                chars_of("simulation")
            }
        },
        None => chars_of("simulation"),
    };
    let stem_text = string_of(&stem);
    let name = concat2(stem_text.as_str(), ".avrsim.json");
    with_file_name(pcb_path, name.as_str())
}

// ---------------------------------------------------------------------------
// Generated and synced projects
// ---------------------------------------------------------------------------

/// The project `create-project` writes: named by `--name` or after its
/// files, with the PCB's stem as board name hint and the host board's
/// automatic bindings. `host_signals` are the nets of the host board's
/// built-in model and `available_nets` those of the PCB.
pub fn new_generated_project(
    options: &CreateProjectOptions,
    host_board: HostBoard,
    firmware_kind: FirmwareSourceKind,
    host_signals: &[String],
    available_nets: &[String],
) -> (r: SimulationProject)
    requires
        strictly_sorted(views(available_nets@)),
    ensures
        r.name@ == (match options.name {
            Some(n) => n@,
            None => spec_default_project_name(options.firmware_path@, options.pcb_path@),
        }),
        r.host_board == host_board,
        r.firmware.kind == firmware_kind,
        r.firmware.path@ == options.firmware_path@,
        r.firmware.compiled_hex_path is None,
        r.pcb.path@ == options.pcb_path@,
        opt_view(r.pcb.board_name_hint) == spec_file_stem(options.pcb_path@),
        r.description matches Some(d) && d@ == "Generated by the arduino_simulator KiCad adapter."@,
        bviews(r.bindings@) == spec_auto_bind(host_board, views(host_signals@), views(available_nets@)),
        r.root_assembly is None,
        r.module_overlays@.len() == 0,
        r.probes@.len() == 0,
        r.stimuli@.len() == 0,
{
    let project_name = match &options.name {
        Some(name) => name.clone(),
        None => default_project_name(options.firmware_path.as_str(), options.pcb_path.as_str()),
    };
    let hint = match file_name(options.pcb_path.as_str()) {
        Some(name) => Some(string_of(&stem_of(&name))),
        None => None,
    };
    let mut project = SimulationProject::new(
        project_name.as_str(),
        host_board,
        FirmwareSource {
            kind: firmware_kind,
            path: options.firmware_path.clone(),
            compiled_hex_path: None,
        },
        PcbSource { path: options.pcb_path.clone(), board_name_hint: hint },
    );
    project.description = Some(owned("Generated by the arduino_simulator KiCad adapter."));
    project.bindings = auto_bind_host_board(host_board, host_signals, available_nets);
    project
}

/// What `sync-project` does to a loaded project: sets the host board and
/// re-syncs its bindings against the board's signals and the PCB's nets.
pub fn sync_project_bindings(
    project: &mut SimulationProject,
    host_board: HostBoard,
    host_signals: &[String],
    available_nets: &[String],
)
    requires
        strictly_sorted(views(available_nets@)),
    ensures
        final(project).host_board == host_board,
        bviews(final(project).bindings@) == spec_sync_bindings(
            host_board,
            views(host_signals@),
            views(available_nets@),
            old(project).bindings@,
        ),
        final(project).name == old(project).name,
        final(project).firmware == old(project).firmware,
        final(project).pcb == old(project).pcb,
        final(project).module_overlays == old(project).module_overlays,
        final(project).root_assembly == old(project).root_assembly,
{
    let synced = sync_host_board_bindings(
        host_board,
        host_signals,
        available_nets,
        project.bindings.as_slice(),
    );
    project.host_board = host_board;
    project.bindings = synced;
}

/// The arguments that open the GUI on a project file.
pub fn gui_arguments_for_project(project_path: &str) -> (r: Vec<String>)
    ensures
        views(r@) == seq!["--project"@, project_path@],
{
    let mut args: Vec<String> = Vec::new();
    args.push(owned("--project"));
    args.push(owned(project_path));
    assert(views(args@) =~= seq!["--project"@, project_path@]);
    args
}

/// The arguments that open the GUI on a PCB, for a host board if given.
pub fn gui_arguments_for_pcb(pcb_path: &str, host_board: Option<HostBoard>) -> (r: Vec<String>)
    ensures
        views(r@) == seq!["--pcb"@, pcb_path@] + match host_board {
            Some(b) => seq!["--board"@, spec_host_board_short_name(b)],
            None => Seq::empty(),
        },
{
    let mut args: Vec<String> = Vec::new();
    args.push(owned("--pcb"));
    args.push(owned(pcb_path));
    match host_board {
        Some(board) => {
            args.push(owned("--board"));
            args.push(owned(board.short_name()));
        },
        None => {},
    }
    assert(views(args@) =~= seq!["--pcb"@, pcb_path@] + match host_board {
        Some(b) => seq!["--board"@, spec_host_board_short_name(b)],
        None => Seq::empty(),
    });
    args
}

} // verus!
