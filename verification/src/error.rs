//! The failures that binding, command construction and the variable store report.

use crate::variables::ASType;
use vstd::prelude::*;

verus! {

/// Why the arguments of a call could not be bound to a command's parameters.
#[derive(Debug, PartialEq, Eq)]
pub enum CommandErrors {
    /// More positional arguments than the command has parameters.
    TooManyArguments { max_args: usize, given_args: usize },
    /// A keyword argument names no parameter of the command.
    UndefinedArgument { argument_name: String, argument_type: ASType },
    /// A required parameter got no value.
    MissingRequiredArgument { argument_name: String, argument_type: ASType },
    /// A value has another type than the parameter declares.
    ArgumentTypeError { argument_name: String, required_type: ASType, given_type: ASType },
}

/// The mathematical model of [`CommandErrors`].
pub enum SpecCommandErrors {
    TooManyArguments { max_args: usize, given_args: usize },
    UndefinedArgument { argument_name: Seq<char>, argument_type: ASType },
    MissingRequiredArgument { argument_name: Seq<char>, argument_type: ASType },
    ArgumentTypeError { argument_name: Seq<char>, required_type: ASType, given_type: ASType },
}

impl View for CommandErrors {
    type V = SpecCommandErrors;

    open spec fn view(&self) -> SpecCommandErrors {
        match self {
            CommandErrors::TooManyArguments { max_args, given_args } => {
                SpecCommandErrors::TooManyArguments { max_args: *max_args, given_args: *given_args }
            },
            CommandErrors::UndefinedArgument { argument_name, argument_type } => {
                SpecCommandErrors::UndefinedArgument {
                    argument_name: argument_name@,
                    argument_type: *argument_type,
                }
            },
            CommandErrors::MissingRequiredArgument { argument_name, argument_type } => {
                SpecCommandErrors::MissingRequiredArgument {
                    argument_name: argument_name@,
                    argument_type: *argument_type,
                }
            },
            CommandErrors::ArgumentTypeError { argument_name, required_type, given_type } => {
                SpecCommandErrors::ArgumentTypeError {
                    argument_name: argument_name@,
                    required_type: *required_type,
                    given_type: *given_type,
                }
            },
        }
    }
}

/// A binding failure together with the name of the command that was called.
#[derive(Debug, PartialEq, Eq)]
pub struct ASCmdError {
    pub command: String,
    pub details: CommandErrors,
}

/// A defect in how a command was declared.
#[derive(Debug, PartialEq, Eq)]
pub enum ASOtherError {
    DevErr(String),
}

/// A failure of the variable store.
#[derive(Debug, PartialEq, Eq)]
pub enum ASVarError {
    /// No variable has this name.
    VarNotFound(String),
}

/// Why a file could not be handed out.
#[derive(Debug, PartialEq, Eq)]
pub enum FileErrors {
    NotFound,
    MissingPermissions,
    InvalidMode(String),
}

/// A file failure together with the file's name and the mode that was asked for.
#[derive(Debug, PartialEq, Eq)]
pub struct ASFileError {
    pub filename: String,
    pub mode: String,
    pub details: FileErrors,
}

/// The mathematical model of [`FileErrors`].
pub enum SpecFileErrors {
    NotFound,
    MissingPermissions,
    InvalidMode(Seq<char>),
}

impl View for FileErrors {
    type V = SpecFileErrors;

    open spec fn view(&self) -> SpecFileErrors {
        match self {
            FileErrors::NotFound => SpecFileErrors::NotFound,
            FileErrors::MissingPermissions => SpecFileErrors::MissingPermissions,
            FileErrors::InvalidMode(m) => SpecFileErrors::InvalidMode(m@),
        }
    }
}

impl ASFileError {
    /// The error for `filename`, asked for in `mode`.
    pub fn from(filename: &str, mode: &str, details: FileErrors) -> (e: ASFileError)
        ensures
            e.filename@ == filename@,
            e.mode@ == mode@,
            e.details == details,
    {
        ASFileError { filename: filename.to_owned(), mode: mode.to_owned(), details }
    }
}

/// Any failure of the execution core.
#[derive(Debug, PartialEq, Eq)]
pub enum ASError {
    Cmd(ASCmdError),
    Other(ASOtherError),
    Var(ASVarError),
    File(ASFileError),
}

/// The mathematical model of [`ASError`].
#[allow(inconsistent_fields)]
pub enum SpecError {
    Cmd { command: Seq<char>, details: SpecCommandErrors },
    DevErr(Seq<char>),
    VarNotFound(Seq<char>),
    File { filename: Seq<char>, mode: Seq<char>, details: SpecFileErrors },
}

impl View for ASError {
    type V = SpecError;

    open spec fn view(&self) -> SpecError {
        match self {
            ASError::Cmd(e) => SpecError::Cmd { command: e.command@, details: e.details@ },
            ASError::Other(ASOtherError::DevErr(m)) => SpecError::DevErr(m@),
            ASError::Var(ASVarError::VarNotFound(n)) => SpecError::VarNotFound(n@),
            ASError::File(e) => SpecError::File {
                filename: e.filename@,
                mode: e.mode@,
                details: e.details@,
            },
        }
    }
}

} // verus!
