//! Errors raised while validating or loading project documents.

use vstd::prelude::*;
use crate::text::{concat2, concat3, owned};

verus! {

/// Why a project document was rejected.
#[derive(Debug, Clone)]
pub enum ProjectError {
    /// A file could not be read or written; the text is the system's message.
    Io(String),
    /// A document is not valid JSON; the text is the parser's message.
    Json(String),
    EmptyName(&'static str),
    MissingFirmwarePath,
    MissingPcbPath,
    UnknownBoardModel(String),
    UnknownModuleModel(String),
    UnknownBoardSignal(String),
    DuplicateBoardSignal(String),
    DuplicateModuleOverlay(String),
    EmptyModuleSignal(String),
    DuplicateModuleSignal { module_name: String, signal: String },
    EmptyPcbNet(String),
    MissingDefinitionSource(String),
    InvalidDefinitionSource(String),
    InvalidDefinitionReference(String),
    DuplicateBehaviorPort(String),
    DuplicateBehaviorRole(String),
    EmptyBehaviorRole,
    InvalidBehaviorParameter(String),
    DuplicatePortName(String),
    EmptyPortName,
    DuplicateInstanceId(String),
    UnknownInstanceId(String),
    UnknownPrimaryPort(String),
    UnknownChildPort { instance_id: String, port: String },
    DuplicateExportName(String),
    UnexpectedDocumentKind(String),
}

/// A `ProjectError` with its texts taken as character sequences.
pub ghost enum ProjectErrorView {
    Io(Seq<char>),
    Json(Seq<char>),
    EmptyName(Seq<char>),
    MissingFirmwarePath,
    MissingPcbPath,
    UnknownBoardModel(Seq<char>),
    UnknownModuleModel(Seq<char>),
    UnknownBoardSignal(Seq<char>),
    DuplicateBoardSignal(Seq<char>),
    DuplicateModuleOverlay(Seq<char>),
    EmptyModuleSignal(Seq<char>),
    DuplicateModuleSignal(Seq<char>, Seq<char>),
    EmptyPcbNet(Seq<char>),
    MissingDefinitionSource(Seq<char>),
    InvalidDefinitionSource(Seq<char>),
    InvalidDefinitionReference(Seq<char>),
    DuplicateBehaviorPort(Seq<char>),
    DuplicateBehaviorRole(Seq<char>),
    EmptyBehaviorRole,
    InvalidBehaviorParameter(Seq<char>),
    DuplicatePortName(Seq<char>),
    EmptyPortName,
    DuplicateInstanceId(Seq<char>),
    UnknownInstanceId(Seq<char>),
    UnknownPrimaryPort(Seq<char>),
    UnknownChildPort(Seq<char>, Seq<char>),
    DuplicateExportName(Seq<char>),
    UnexpectedDocumentKind(Seq<char>),
}

impl View for ProjectError {
    type V = ProjectErrorView;

    open spec fn view(&self) -> ProjectErrorView {
        match self {
            ProjectError::Io(m) => ProjectErrorView::Io(m@),
            ProjectError::Json(m) => ProjectErrorView::Json(m@),
            ProjectError::EmptyName(k) => ProjectErrorView::EmptyName(k@),
            ProjectError::MissingFirmwarePath => ProjectErrorView::MissingFirmwarePath,
            ProjectError::MissingPcbPath => ProjectErrorView::MissingPcbPath,
            ProjectError::UnknownBoardModel(s) => ProjectErrorView::UnknownBoardModel(s@),
            ProjectError::UnknownModuleModel(s) => ProjectErrorView::UnknownModuleModel(s@),
            ProjectError::UnknownBoardSignal(s) => ProjectErrorView::UnknownBoardSignal(s@),
            ProjectError::DuplicateBoardSignal(s) => ProjectErrorView::DuplicateBoardSignal(s@),
            ProjectError::DuplicateModuleOverlay(s) => ProjectErrorView::DuplicateModuleOverlay(s@),
            ProjectError::EmptyModuleSignal(s) => ProjectErrorView::EmptyModuleSignal(s@),
            ProjectError::DuplicateModuleSignal { module_name, signal } => {
                ProjectErrorView::DuplicateModuleSignal(module_name@, signal@)
            },
            ProjectError::EmptyPcbNet(s) => ProjectErrorView::EmptyPcbNet(s@),
            ProjectError::MissingDefinitionSource(s) => ProjectErrorView::MissingDefinitionSource(s@),
            ProjectError::InvalidDefinitionSource(s) => ProjectErrorView::InvalidDefinitionSource(s@),
            ProjectError::InvalidDefinitionReference(s) => {
                ProjectErrorView::InvalidDefinitionReference(s@)
            },
            ProjectError::DuplicateBehaviorPort(s) => ProjectErrorView::DuplicateBehaviorPort(s@),
            ProjectError::DuplicateBehaviorRole(s) => ProjectErrorView::DuplicateBehaviorRole(s@),
            ProjectError::EmptyBehaviorRole => ProjectErrorView::EmptyBehaviorRole,
            ProjectError::InvalidBehaviorParameter(s) => {
                ProjectErrorView::InvalidBehaviorParameter(s@)
            },
            ProjectError::DuplicatePortName(s) => ProjectErrorView::DuplicatePortName(s@),
            ProjectError::EmptyPortName => ProjectErrorView::EmptyPortName,
            ProjectError::DuplicateInstanceId(s) => ProjectErrorView::DuplicateInstanceId(s@),
            ProjectError::UnknownInstanceId(s) => ProjectErrorView::UnknownInstanceId(s@),
            ProjectError::UnknownPrimaryPort(s) => ProjectErrorView::UnknownPrimaryPort(s@),
            ProjectError::UnknownChildPort { instance_id, port } => {
                ProjectErrorView::UnknownChildPort(instance_id@, port@)
            },
            ProjectError::DuplicateExportName(s) => ProjectErrorView::DuplicateExportName(s@),
            ProjectError::UnexpectedDocumentKind(s) => ProjectErrorView::UnexpectedDocumentKind(s@),
        }
    }
}

/// The outcome of a validation, with the error (if any) taken by its view.
pub open spec fn outcome(r: Result<(), ProjectError>) -> Result<(), ProjectErrorView> {
    match r {
        Ok(()) => Ok(()),
        Err(e) => Err(e@),
    }
}

/// The human-readable text of an error.
pub open spec fn spec_error_message(e: ProjectErrorView) -> Seq<char> {
    match e {
        ProjectErrorView::Io(m) => m,
        ProjectErrorView::Json(m) => m,
        ProjectErrorView::EmptyName(k) => k + " name must not be empty"@,
        ProjectErrorView::MissingFirmwarePath => "firmware source path must not be empty"@,
        ProjectErrorView::MissingPcbPath => "PCB source path must not be empty"@,
        ProjectErrorView::UnknownBoardModel(s) => "unknown built-in board model "@ + s,
        ProjectErrorView::UnknownModuleModel(s) => "unknown module overlay model "@ + s,
        ProjectErrorView::UnknownBoardSignal(s) => "unknown host-board signal "@ + s,
        ProjectErrorView::DuplicateBoardSignal(s) => "duplicate binding for host-board signal "@ + s,
        ProjectErrorView::DuplicateModuleOverlay(s) => "duplicate module overlay named "@ + s,
        ProjectErrorView::EmptyModuleSignal(s) => "module overlay "@ + s
            + " contains an empty signal binding"@,
        ProjectErrorView::DuplicateModuleSignal(m, s) => "module overlay "@ + m + " binds signal "@
            + s + " more than once"@,
        ProjectErrorView::EmptyPcbNet(s) => "binding for "@ + s + " does not specify a PCB net"@,
        ProjectErrorView::MissingDefinitionSource(s) => "definition source for "@ + s
            + " is incomplete"@,
        ProjectErrorView::InvalidDefinitionSource(m) => m,
        ProjectErrorView::InvalidDefinitionReference(m) => m,
        ProjectErrorView::DuplicateBehaviorPort(s) => "duplicate behavior port binding for "@ + s,
        ProjectErrorView::DuplicateBehaviorRole(s) => "duplicate behavior role binding for "@ + s,
        ProjectErrorView::EmptyBehaviorRole => "behavior role must not be empty"@,
        ProjectErrorView::InvalidBehaviorParameter(s) => "invalid behavior parameter "@ + s,
        ProjectErrorView::DuplicatePortName(s) => "duplicate port name "@ + s,
        ProjectErrorView::EmptyPortName => "port name must not be empty"@,
        ProjectErrorView::DuplicateInstanceId(s) => "duplicate attached instance id "@ + s,
        ProjectErrorView::UnknownInstanceId(s) => "unknown attached instance id "@ + s,
        ProjectErrorView::UnknownPrimaryPort(s) => "unknown primary port "@ + s,
        ProjectErrorView::UnknownChildPort(i, p) => "unknown port "@ + p + " on attached instance "@
            + i,
        ProjectErrorView::DuplicateExportName(s) => "duplicate assembly export "@ + s,
        ProjectErrorView::UnexpectedDocumentKind(s) => "document kind "@ + s
            + " does not match the requested type"@,
    }
}

impl ProjectError {
    /// The human-readable text of this error.
    pub fn message(&self) -> (r: String)
        ensures
            r@ == spec_error_message(self@),
    {
        match self {
            ProjectError::Io(m) => m.clone(),
            ProjectError::Json(m) => m.clone(),
            ProjectError::EmptyName(k) => concat2(k, " name must not be empty"),
            ProjectError::MissingFirmwarePath => owned("firmware source path must not be empty"),
            ProjectError::MissingPcbPath => owned("PCB source path must not be empty"),
            ProjectError::UnknownBoardModel(s) => concat2("unknown built-in board model ", s),
            ProjectError::UnknownModuleModel(s) => concat2("unknown module overlay model ", s),
            ProjectError::UnknownBoardSignal(s) => concat2("unknown host-board signal ", s),
            ProjectError::DuplicateBoardSignal(s) => concat2(
                "duplicate binding for host-board signal ",
                s,
            ),
            ProjectError::DuplicateModuleOverlay(s) => concat2("duplicate module overlay named ", s),
            ProjectError::EmptyModuleSignal(s) => concat3(
                "module overlay ",
                s,
                " contains an empty signal binding",
            ),
            ProjectError::DuplicateModuleSignal { module_name, signal } => {
                let mut r = concat3("module overlay ", module_name, " binds signal ");
                r.append(signal);
                r.append(" more than once");
                r
            },
            ProjectError::EmptyPcbNet(s) => concat3("binding for ", s, " does not specify a PCB net"),
            ProjectError::MissingDefinitionSource(s) => concat3(
                "definition source for ",
                s,
                " is incomplete",
            ),
            ProjectError::InvalidDefinitionSource(m) => m.clone(),
            ProjectError::InvalidDefinitionReference(m) => m.clone(),
            ProjectError::DuplicateBehaviorPort(s) => concat2(
                "duplicate behavior port binding for ",
                s,
            ),
            ProjectError::DuplicateBehaviorRole(s) => concat2(
                "duplicate behavior role binding for ",
                s,
            ),
            ProjectError::EmptyBehaviorRole => owned("behavior role must not be empty"),
            ProjectError::InvalidBehaviorParameter(s) => concat2("invalid behavior parameter ", s),
            ProjectError::DuplicatePortName(s) => concat2("duplicate port name ", s),
            ProjectError::EmptyPortName => owned("port name must not be empty"),
            ProjectError::DuplicateInstanceId(s) => concat2("duplicate attached instance id ", s),
            ProjectError::UnknownInstanceId(s) => concat2("unknown attached instance id ", s),
            ProjectError::UnknownPrimaryPort(s) => concat2("unknown primary port ", s),
            ProjectError::UnknownChildPort { instance_id, port } => {
                let mut r = concat3("unknown port ", port, " on attached instance ");
                r.append(instance_id);
                r
            },
            ProjectError::DuplicateExportName(s) => concat2("duplicate assembly export ", s),
            ProjectError::UnexpectedDocumentKind(s) => concat3(
                "document kind ",
                s,
                " does not match the requested type",
            ),
        }
    }
}

} // verus!
