//! Compiling a sketch with `arduino-cli`: what to compile, where to build,
//! which HEX file is the result, and how failures read.

use vstd::prelude::*;
use crate::project::paths::{
    dir_part, extension_of, file_name, spec_dir_part, spec_extension, spec_file_name,
    spec_file_stem, stem_of,
};
use crate::project::shared::{spec_host_board_fqbn, spec_host_board_short_name, HostBoard};
use crate::text::{
    chars_less, chars_lt, chars_of, concat2, concat3, decimal, ends_with, is, is_alnum, owned,
    push_all, spec_decimal, spec_ends_with, spec_is_alnum, str_ends_with, string_of, views,
};

verus! {

/// The outcome of a successful compile.
#[derive(Debug, Clone)]
pub struct CompileArtifact {
    pub board: HostBoard,
    pub sketch_path: String,
    pub build_path: String,
    pub hex_path: String,
    pub stdout: String,
    pub stderr: String,
}

/// Why a sketch could not be compiled.
#[derive(Debug)]
pub enum ArduinoCliError {
    /// The tool could not be run or a file not read; the system's message.
    Io(String),
    UnsupportedSource(String),
    MissingSketchParent(String),
    MissingSketchName(String),
    MissingHexOutput(String),
    CommandFailed { command: String, stdout: String, stderr: String },
}

pub ghost enum ArduinoCliErrorView {
    Io(Seq<char>),
    UnsupportedSource(Seq<char>),
    MissingSketchParent(Seq<char>),
    MissingSketchName(Seq<char>),
    MissingHexOutput(Seq<char>),
    CommandFailed(Seq<char>, Seq<char>, Seq<char>),
}

impl View for ArduinoCliError {
    type V = ArduinoCliErrorView;

    open spec fn view(&self) -> ArduinoCliErrorView {
        match self {
            ArduinoCliError::Io(m) => ArduinoCliErrorView::Io(m@),
            ArduinoCliError::UnsupportedSource(p) => ArduinoCliErrorView::UnsupportedSource(p@),
            ArduinoCliError::MissingSketchParent(p) => ArduinoCliErrorView::MissingSketchParent(p@),
            ArduinoCliError::MissingSketchName(p) => ArduinoCliErrorView::MissingSketchName(p@),
            ArduinoCliError::MissingHexOutput(p) => ArduinoCliErrorView::MissingHexOutput(p@),
            ArduinoCliError::CommandFailed { command, stdout, stderr } => {
                ArduinoCliErrorView::CommandFailed(command@, stdout@, stderr@)
            },
        }
    }
}

pub open spec fn spec_arduino_error_message(e: ArduinoCliErrorView) -> Seq<char> {
    match e {
        ArduinoCliErrorView::Io(m) => m,
        ArduinoCliErrorView::UnsupportedSource(p) => "expected a sketch directory or .ino file, got "@
            + p,
        ArduinoCliErrorView::MissingSketchParent(p) => "missing parent directory for "@ + p,
        ArduinoCliErrorView::MissingSketchName(p) => "could not determine sketch name for "@ + p,
        ArduinoCliErrorView::MissingHexOutput(p) =>
            "arduino-cli finished but no .hex output was found in "@ + p,
        ArduinoCliErrorView::CommandFailed(c, o, e) => c + " failed\nstdout:\n"@ + o
            + "\n\nstderr:\n"@ + e,
    }
}

impl ArduinoCliError {
    /// The human-readable text of this error.
    pub fn message(&self) -> (r: String)
        ensures
            r@ == spec_arduino_error_message(self@),
    {
        match self {
            ArduinoCliError::Io(m) => m.clone(),
            ArduinoCliError::UnsupportedSource(p) => concat2(
                "expected a sketch directory or .ino file, got ",
                p,
            ),
            ArduinoCliError::MissingSketchParent(p) => concat2("missing parent directory for ", p),
            ArduinoCliError::MissingSketchName(p) => concat2("could not determine sketch name for ", p),
            ArduinoCliError::MissingHexOutput(p) => concat2(
                "arduino-cli finished but no .hex output was found in ",
                p,
            ),
            ArduinoCliError::CommandFailed { command, stdout, stderr } => {
                let mut r = concat2(command, " failed\nstdout:\n");
                r.append(stdout);
                r.append("\n\nstderr:\n");
                r.append(stderr);
                r
            },
        }
    }
}

/// What to compile: the sketch directory and the sketch's name.
#[derive(Debug, Clone)]
pub struct CompilePlan {
    pub board: HostBoard,
    pub sketch_path: String,
    pub sketch_name: String,
}

/// A sketch directory compiles as itself, named after the directory; an
/// `.ino` file compiles its directory, named after the file's stem.
pub open spec fn spec_compile_plan(path: Seq<char>, is_dir: bool) -> Result<
    (Seq<char>, Seq<char>),
    ArduinoCliErrorView,
> {
    if is_dir {
        match spec_file_name(path) {
            Some(name) => Ok((path, name)),
            None => Err(ArduinoCliErrorView::MissingSketchName(path)),
        }
    } else if spec_extension(path) == Some("ino"@) {
        match spec_file_stem(path) {
            Some(stem) => Ok((spec_dir_part(path), stem)),
            None => Err(ArduinoCliErrorView::MissingSketchName(path)),
        }
    } else {
        Err(ArduinoCliErrorView::UnsupportedSource(path))
    }
}

/// The plan for compiling `path` for `board`; `is_dir` tells whether the
/// path is a directory on disk.
pub fn resolve_compile_plan(path: &str, board: HostBoard, is_dir: bool) -> (r: Result<
    CompilePlan,
    ArduinoCliError,
>)
    ensures
        match r {
            Ok(p) => p.board == board && spec_compile_plan(path@, is_dir) == Ok::<
                (Seq<char>, Seq<char>),
                ArduinoCliErrorView,
            >((p.sketch_path@, p.sketch_name@)),
            Err(e) => spec_compile_plan(path@, is_dir) == Err::<
                (Seq<char>, Seq<char>),
                ArduinoCliErrorView,
            >(e@),
        },
{
    let name = file_name(path);
    if is_dir {
        return match name {
            Some(n) => Ok(
                CompilePlan { board, sketch_path: owned(path), sketch_name: string_of(&n) },
            ),
            None => Err(ArduinoCliError::MissingSketchName(owned(path))),
        };
    }
    let n = match name {
        Some(n) => n,
        None => {
            return Err(ArduinoCliError::UnsupportedSource(owned(path)));
        },
    };
    let is_ino = match extension_of(&n) {
        Some(e) => is(&e, "ino"),
        None => false,
    };
    if !is_ino {
        return Err(ArduinoCliError::UnsupportedSource(owned(path)));
    }
    let stem = stem_of(&n);
    Ok(CompilePlan { board, sketch_path: string_of(&dir_part(path)), sketch_name: string_of(&stem) })
}

// ---------------------------------------------------------------------------
// Names
// ---------------------------------------------------------------------------

/// Each character that is not an ASCII letter, digit, `-` or `_` becomes `-`.
pub open spec fn dash_invalid(s: Seq<char>) -> Seq<char> {
    s.map_values(|c: char| if spec_is_alnum(c) || c == '-' || c == '_' { c } else { '-' })
}

/// A name usable in a directory name; `sketch` when empty.
pub open spec fn spec_sanitize_name(name: Seq<char>) -> Seq<char> {
    if name.len() == 0 {
        "sketch"@
    } else {
        dash_invalid(name)
    }
}

pub fn dash_invalid_chars(name: &str) -> (r: Vec<char>)
    ensures
        r@ == dash_invalid(name@),
{
    let chars = chars_of(name);
    let mut out: Vec<char> = Vec::new();
    let mut i: usize = 0;
    while i < chars.len()
        invariant
            i <= chars@.len(),
            out@ == dash_invalid(chars@.take(i as int)),
        decreases chars.len() - i,
    {
        let c = chars[i];
        let kept = if is_alnum(c) || c == '-' || c == '_' {
            c
        } else {
            '-'
        };
        out.push(kept);
        assert(out@ =~= dash_invalid(chars@.take(i + 1)));
        i = i + 1;
    }
    assert(chars@.take(chars@.len() as int) =~= chars@);
    out
}

pub fn sanitize_name(name: &str) -> (r: String)
    ensures
        r@ == spec_sanitize_name(name@),
{
    let out = dash_invalid_chars(name);
    if out.len() == 0 {
        return owned("sketch");
    }
    string_of(&out)
}

/// The name of a fresh build directory for a sketch, made unique by a
/// time stamp in milliseconds.
pub fn build_directory_name(sketch_name: &str, board: HostBoard, stamp_millis: u64) -> (r: String)
    ensures
        r@ == "arduino-simulator-"@ + spec_sanitize_name(sketch_name@) + "-"@
            + spec_host_board_short_name(board) + "-"@ + spec_decimal(stamp_millis as nat),
{
    let mut r = owned("arduino-simulator-");
    let name = sanitize_name(sketch_name);
    r.append(name.as_str());
    r.append("-");
    r.append(board.short_name());
    r.append("-");
    let stamp = string_of(&decimal(stamp_millis));
    r.append(stamp.as_str());
    r
}

/// The command line shown for a compile.
pub fn compile_command_text(board: HostBoard, build_path: &str, sketch_path: &str) -> (r: String)
    ensures
        r@ == "arduino-cli compile --fqbn "@ + spec_host_board_fqbn(board) + " --build-path "@
            + build_path@ + " "@ + sketch_path@,
{
    let mut r = owned("arduino-cli compile --fqbn ");
    r.append(board.fqbn());
    r.append(" --build-path ");
    r.append(build_path);
    r.append(" ");
    r.append(sketch_path);
    r
}

// ---------------------------------------------------------------------------
// The HEX file a build produced
// ---------------------------------------------------------------------------

/// An application image of a build: `*.ino.hex` but not the variant with
/// the boot loader.
pub open spec fn is_hex_candidate(name: Seq<char>) -> bool {
    spec_ends_with(name, ".ino.hex"@) && !spec_ends_with(name, ".with_bootloader.hex"@)
}

/// The HEX file to load from a build directory: `<sketch>.ino.hex` when it
/// is a file there (`preferred_is_file`), else the first application image
/// by name among the directory's files `file_names`.
pub fn choose_hex_output(sketch_name: &str, preferred_is_file: bool, file_names: &[String]) -> (r:
    Option<String>)
    ensures
        preferred_is_file ==> (r matches Some(n) && n@ == sketch_name@ + ".ino.hex"@),
        !preferred_is_file ==> match r {
            Some(n) => views(file_names@).contains(n@) && is_hex_candidate(n@) && forall|k: int|
                0 <= k < file_names@.len() && is_hex_candidate(#[trigger] file_names@[k]@)
                    ==> !chars_lt(file_names@[k]@, n@),
            None => forall|k: int|
                0 <= k < file_names@.len() ==> !is_hex_candidate(#[trigger] file_names@[k]@),
        },
{
    if preferred_is_file {
        return Some(concat2(sketch_name, ".ino.hex"));
    }
    let mut best: Option<usize> = None;
    let mut i: usize = 0;
    while i < file_names.len()
        invariant
            i <= file_names@.len(),
            match best {
                Some(b) => b < i && is_hex_candidate(file_names@[b as int]@) && forall|k: int|
                    0 <= k < i && is_hex_candidate(#[trigger] file_names@[k]@) ==> !chars_lt(
                        file_names@[k]@,
                        file_names@[b as int]@,
                    ),
                None => forall|k: int|
                    0 <= k < i ==> !is_hex_candidate(#[trigger] file_names@[k]@),
            },
        decreases file_names.len() - i,
    {
        let name = chars_of(file_names[i].as_str());
        if str_ends_with(&name, ".ino.hex") && !str_ends_with(&name, ".with_bootloader.hex") {
            match best {
                None => {
                    proof {
                        crate::text::lemma_chars_lt_irreflexive(file_names@[i as int]@);
                    }
                    best = Some(i);
                },
                Some(b) => {
                    let current = chars_of(file_names[b].as_str());
                    if chars_less(&name, &current) {
                        proof {
                            assert forall|k: int|
                                0 <= k < i + 1 && is_hex_candidate(
                                    #[trigger] file_names@[k]@,
                                ) implies !chars_lt(file_names@[k]@, file_names@[i as int]@) by {
                                if k < i {
                                    if chars_lt(file_names@[k]@, file_names@[i as int]@) {
                                        crate::text::lemma_chars_lt_transitive(
                                            file_names@[k]@,
                                            file_names@[i as int]@,
                                            file_names@[b as int]@,
                                        );
                                    }
                                } else {
                                    crate::text::lemma_chars_lt_irreflexive(file_names@[k]@);
                                }
                            }
                        }
                        best = Some(i);
                    } else {
                        proof {
                            assert forall|k: int|
                                0 <= k < i + 1 && is_hex_candidate(
                                    #[trigger] file_names@[k]@,
                                ) implies !chars_lt(file_names@[k]@, file_names@[b as int]@) by {
                            }
                        }
                    }
                },
            }
        }
        i = i + 1;
    }
    match best {
        Some(b) => {
            assert(views(file_names@)[b as int] == file_names@[b as int]@);
            Some(file_names[b].clone())
        },
        None => None,
    }
}

} // verus!
