//! What the desktop tool opens first, from its command-line arguments.

use vstd::prelude::*;
use crate::project::shared::HostBoard;
use crate::text::{chars_of, is, lower, spec_lower_seq, spec_starts_with, spec_trim, str_starts_with, trim, views};

verus! {

/// A project file, or a PCB with an optional host board.
#[derive(Debug, Clone)]
pub enum StartupInput {
    Project(String),
    Pcb { path: String, board: Option<HostBoard> },
}

pub open spec fn spec_parse_host_board(value: Seq<char>) -> Option<HostBoard> {
    let n = spec_lower_seq(spec_trim(value));
    if n == "mega"@ || n == "mega2560"@ {
        Some(HostBoard::Mega2560Rev3)
    } else if n == "nano"@ || n == "nano328p"@ {
        Some(HostBoard::NanoV3)
    } else {
        None
    }
}

/// A host board named on the command line, trimmed and in any case.
pub fn parse_host_board(value: &str) -> (r: Option<HostBoard>)
    ensures
        r == spec_parse_host_board(value@),
{
    let raw = chars_of(value);
    let trimmed = trim(&raw);
    let n = lower(&trimmed);
    if is(&n, "mega") || is(&n, "mega2560") {
        Some(HostBoard::Mega2560Rev3)
    } else if is(&n, "nano") || is(&n, "nano328p") {
        Some(HostBoard::NanoV3)
    } else {
        None
    }
}

/// The arguments as scanned so far: `--project`, `--pcb`, `--board` and
/// the first positional argument.
pub ghost struct StartupScan {
    pub project: Option<Seq<char>>,
    pub pcb: Option<Seq<char>>,
    pub board: Option<HostBoard>,
    pub positional: Option<Seq<char>>,
}

/// The value after an option, if there is one.
pub open spec fn next_value(args: Seq<Seq<char>>, i: int) -> Option<Seq<char>> {
    if i + 1 < args.len() {
        Some(args[i + 1])
    } else {
        None
    }
}

/// Scans from `i`: an option takes the next argument (whatever it is), a
/// later option overrides an earlier one, other dashed arguments are
/// ignored and only the first positional argument is kept.
pub open spec fn scan_startup(args: Seq<Seq<char>>, i: int, st: StartupScan) -> StartupScan
    decreases args.len() + 1 - i,
{
    if i < 0 || i >= args.len() {
        st
    } else {
        let arg = args[i];
        if arg == "--project"@ {
            scan_startup(args, i + 2, StartupScan { project: next_value(args, i), ..st })
        } else if arg == "--pcb"@ {
            scan_startup(args, i + 2, StartupScan { pcb: next_value(args, i), ..st })
        } else if arg == "--board"@ {
            scan_startup(
                args,
                i + 2,
                StartupScan {
                    board: match next_value(args, i) {
                        Some(v) => spec_parse_host_board(v),
                        None => None,
                    },
                    ..st
                },
            )
        } else if spec_starts_with(arg, "-"@) {
            scan_startup(args, i + 1, st)
        } else if st.positional is None {
            scan_startup(args, i + 1, StartupScan { positional: Some(arg), ..st })
        } else {
            scan_startup(args, i + 1, st)
        }
    }
}

/// What to open: a `--project`, else a `--pcb` (with `--board`), else the
/// first positional argument as a project.
pub open spec fn spec_startup(args: Seq<Seq<char>>) -> Option<(bool, Seq<char>, Option<HostBoard>)> {
    let st = scan_startup(
        args,
        0,
        StartupScan { project: None, pcb: None, board: None, positional: None },
    );
    match st.project {
        Some(p) => Some((true, p, None)),
        None => match st.pcb {
            Some(p) => Some((false, p, st.board)),
            None => match st.positional {
                Some(p) => Some((true, p, None)),
                None => None,
            },
        },
    }
}

pub open spec fn startup_view(s: StartupInput) -> (bool, Seq<char>, Option<HostBoard>) {
    match s {
        StartupInput::Project(p) => (true, p@, None),
        StartupInput::Pcb { path, board } => (false, path@, board),
    }
}

pub open spec fn osv(o: Option<String>) -> Option<Seq<char>> {
    match o {
        Some(s) => Some(s@),
        None => None,
    }
}

/// The arguments after the program name decide what opens first.
pub fn parse_startup_input(args: &[String]) -> (r: Option<StartupInput>)
    ensures
        match r {
            Some(s) => spec_startup(views(args@)) == Some(startup_view(s)),
            None => spec_startup(views(args@)) is None,
        },
{
    let ghost av = views(args@);
    let ghost empty = StartupScan { project: None, pcb: None, board: None, positional: None };
    let mut project: Option<String> = None;
    let mut pcb: Option<String> = None;
    let mut board: Option<HostBoard> = None;
    let mut positional: Option<String> = None;
    let mut i: usize = 0;
    while i < args.len()
        invariant
            av == views(args@),
            empty == (StartupScan { project: None, pcb: None, board: None, positional: None }),
            i <= args@.len(),
            scan_startup(av, 0, empty) == scan_startup(
                av,
                i as int,
                StartupScan {
                    project: osv(project),
                    pcb: osv(pcb),
                    board,
                    positional: osv(positional),
                },
            ),
        decreases args.len() - i,
    {
        let arg = chars_of(args[i].as_str());
        let next: Option<String> = if i + 1 < args.len() {
            Some(args[i + 1].clone())
        } else {
            None
        };
        let step: usize = if i + 1 < args.len() {
            2
        } else {
            1
        };
        let ghost st0 = StartupScan {
            project: osv(project),
            pcb: osv(pcb),
            board,
            positional: osv(positional),
        };
        assert(next_value(av, i as int) == osv(next));
        if is(&arg, "--project") {
            project = next;
            i = i + step;
        } else if is(&arg, "--pcb") {
            pcb = next;
            i = i + step;
        } else if is(&arg, "--board") {
            board = match next {
                Some(v) => parse_host_board(v.as_str()),
                None => None,
            };
            i = i + step;
        } else if str_starts_with(&arg, "-") {
            i = i + 1;
        } else {
            if positional.is_none() {
                positional = Some(args[i].clone());
            }
            i = i + 1;
        }
        proof {
            let st1 = StartupScan {
                project: osv(project),
                pcb: osv(pcb),
                board,
                positional: osv(positional),
            };
            if i as int == av.len() {
                assert(scan_startup(av, i as int, st1) == st1);
                assert(scan_startup(av, av.len() + 1int, st1) == st1);
            }
        }
    }
    match project {
        Some(path) => {
            return Some(StartupInput::Project(path));
        },
        None => {},
    }
    match pcb {
        Some(path) => {
            return Some(StartupInput::Pcb { path, board });
        },
        None => {},
    }
    match positional {
        Some(path) => Some(StartupInput::Project(path)),
        None => None,
    }
}

} // verus!
