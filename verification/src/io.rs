//! What a command asks of the host's input and output, what the host answers,
//! and where the files of a game lie.

use crate::error::{ASError, ASFileError, FileErrors, SpecError, SpecFileErrors};
use crate::info::{GameInfo, SpecInfo};
use crate::text::str_eq;
use crate::variables::{ASVariable, SpecVariable};
use vstd::prelude::*;
use vstd::string::StringExecFns;

verus! {

/// What the host has to do for a command that has run.
#[derive(Debug, PartialEq, Eq)]
pub enum IoRequest {
    /// Nothing: the command is done.
    Nothing,
    /// Block until the player goes on.
    Wait,
    /// Put `text` and the choices before the player and ask for one of them;
    /// `gotos` holds the destination of each choice.
    Query { text: String, choices: Vec<String>, gotos: Vec<i32>, allow_save: bool },
    /// Show `text`; the run ends once it has been shown.
    Ending { text: String },
    /// Print the values.
    Dump { values: Vec<ASVariable> },
    /// Run the host's entry point `id` on the bound arguments.
    External { id: u32, args: Vec<ASVariable> },
}

/// The mathematical model of an [`IoRequest`].
pub enum SpecRequest {
    Nothing,
    Wait,
    Query { text: Seq<char>, choices: Seq<Seq<char>>, gotos: Seq<i32>, allow_save: bool },
    Ending { text: Seq<char> },
    Dump { values: Seq<SpecVariable> },
    External { id: u32, args: Seq<SpecVariable> },
}

impl View for IoRequest {
    type V = SpecRequest;

    open spec fn view(&self) -> SpecRequest {
        match self {
            IoRequest::Nothing => SpecRequest::Nothing,
            IoRequest::Wait => SpecRequest::Wait,
            IoRequest::Query { text, choices, gotos, allow_save } => SpecRequest::Query {
                text: text@,
                choices: choices.deep_view(),
                gotos: gotos@,
                allow_save: *allow_save,
            },
            IoRequest::Ending { text } => SpecRequest::Ending { text: text@ },
            IoRequest::Dump { values } => SpecRequest::Dump { values: values.deep_view() },
            IoRequest::External { id, args } => SpecRequest::External {
                id: *id,
                args: args.deep_view(),
            },
        }
    }
}

/// What the host reports once it has done what was asked.
#[derive(Clone, Copy, Debug, PartialEq, Eq, Structural)]
pub enum IoReply {
    /// The request was carried out; there is nothing to tell.
    Done,
    /// The player's pick: the number of a choice, counted from 1, or 0 to go back.
    Picked(i32),
}

/// Whether `reply` can answer `request` in the state `info`: a query is
/// answered by a pick of one of its choices or by 0, and going back needs an
/// instruction to go back to.
pub open spec fn reply_fits(info: SpecInfo, request: SpecRequest, reply: IoReply) -> bool {
    request is Query ==> {
        &&& reply is Picked
        &&& 0 <= reply->Picked_0 <= request->gotos.len()
        &&& reply->Picked_0 == 0 ==> info.pointer > i32::MIN
    }
}

/// The state after the host has answered a request.
///
/// The pick of a choice moves the pointer to the destination of that choice,
/// and the pick 0 moves it one instruction back. An ending that was shown
/// ends the run. Every other request leaves the state as it is.
pub open spec fn complete_spec(info: SpecInfo, request: SpecRequest, reply: IoReply) -> SpecInfo {
    match request {
        SpecRequest::Query { gotos, .. } => {
            if reply->Picked_0 == 0 {
                info.jump((info.pointer - 1) as i32)
            } else {
                info.jump(gotos[reply->Picked_0 - 1])
            }
        },
        SpecRequest::Ending { .. } => info.quit(),
        _ => info,
    }
}

/// Whether `reply` can answer `request` in the state of `info`.
pub fn fits(info: &GameInfo, request: &IoRequest, reply: IoReply) -> (ok: bool)
    ensures
        ok == reply_fits(info@, request@, reply),
{
    match request {
        IoRequest::Query { gotos, .. } => match reply {
            IoReply::Picked(pick) => {
                if pick == 0 {
                    info.pointer() > i32::MIN
                } else {
                    pick > 0 && (pick as usize) <= gotos.len()
                }
            },
            IoReply::Done => false,
        },
        _ => true,
    }
}

/// Brings the state up to date once the host has answered `request`.
pub fn complete(info: &mut GameInfo, request: &IoRequest, reply: IoReply)
    requires
        reply_fits(old(info)@, request@, reply),
    ensures
        final(info)@ == complete_spec(old(info)@, request@, reply),
{
    match request {
        IoRequest::Query { gotos, .. } => {
            match reply {
                IoReply::Picked(pick) => {
                    if pick == 0 {
                        let back: i32 = info.pointer() - 1;
                        info.set_pointer(back);
                    } else {
                        let at: usize = (pick - 1) as usize;
                        info.set_pointer(gotos[at]);
                    }
                },
                IoReply::Done => {},
            }
        },
        IoRequest::Ending { .. } => {
            info.quit();
        },
        _ => {},
    }
}

/// The kind of a file of the game, which decides the folder it lies in.
#[derive(Debug, PartialEq, Eq)]
pub enum FileType {
    /// A script, in the folder `script`.
    Script,
    /// A file in the folder of the given name.
    CustomDir(String),
    /// A file directly under the root folder.
    Other,
}

/// The mathematical model of a [`FileType`].
pub enum SpecFileType {
    Script,
    CustomDir(Seq<char>),
    Other,
}

impl View for FileType {
    type V = SpecFileType;

    open spec fn view(&self) -> SpecFileType {
        match self {
            FileType::Script => SpecFileType::Script,
            FileType::CustomDir(dir) => SpecFileType::CustomDir(dir@),
            FileType::Other => SpecFileType::Other,
        }
    }
}

/// How a file is to be opened.
#[derive(Clone, Copy, Debug, PartialEq, Eq, Structural)]
pub enum FileMode {
    /// Open the file that is there, mode `"r"`.
    Read,
    /// Create the file, mode `"w"`.
    Write,
}

/// A file to open: where it lies and how to open it.
#[derive(Debug, PartialEq, Eq)]
pub struct FileRequest {
    pub path: String,
    pub mode: FileMode,
}

/// The folder of a kind of file, with its closing slash; empty for `Other`.
pub open spec fn folder_of(ftype: SpecFileType) -> Seq<char> {
    match ftype {
        SpecFileType::Script => "script/"@,
        SpecFileType::CustomDir(dir) => dir + "/"@,
        SpecFileType::Other => Seq::empty(),
    }
}

/// The path of a file: the root folder, a slash, the folder of its kind and
/// its name.
pub open spec fn path_of(root_dir: Seq<char>, filename: Seq<char>, ftype: SpecFileType) -> Seq<
    char,
> {
    root_dir + "/"@ + folder_of(ftype) + filename
}

/// What `load_request` gives: the file to open, or the failure for a mode
/// that is neither `"r"` nor `"w"`.
pub open spec fn load_request_spec(
    root_dir: Seq<char>,
    filename: Seq<char>,
    mode: Seq<char>,
    ftype: SpecFileType,
) -> Result<(Seq<char>, FileMode), SpecError> {
    if mode == "r"@ {
        Ok((path_of(root_dir, filename, ftype), FileMode::Read))
    } else if mode == "w"@ {
        Ok((path_of(root_dir, filename, ftype), FileMode::Write))
    } else {
        Err(SpecError::File { filename, mode, details: SpecFileErrors::InvalidMode(mode) })
    }
}

/// Works out which file a load of `filename` under `root_dir` means, and how
/// it is to be opened. The host opens it.
pub fn load_request(
    root_dir: &str,
    filename: &str,
    mode: &str,
    ftype: FileType,
) -> (planned: Result<FileRequest, ASError>)
    ensures
        match planned {
            Ok(request) => load_request_spec(root_dir@, filename@, mode@, ftype@) == Ok::<
                (Seq<char>, FileMode),
                SpecError,
            >((request.path@, request.mode)),
            Err(e) => load_request_spec(root_dir@, filename@, mode@, ftype@) == Err::<
                (Seq<char>, FileMode),
                SpecError,
            >(e@),
        },
{
    let mut path = root_dir.to_owned();
    path.append("/");
    match &ftype {
        FileType::Script => {
            path.append("script/");
        },
        FileType::CustomDir(dir) => {
            path.append(dir.as_str());
            path.append("/");
        },
        FileType::Other => {},
    }
    path.append(filename);
    assert(path@ =~= path_of(root_dir@, filename@, ftype@));
    if str_eq(mode, "r") {
        Ok(FileRequest { path, mode: FileMode::Read })
    } else if str_eq(mode, "w") {
        Ok(FileRequest { path, mode: FileMode::Write })
    } else {
        Err(
            ASError::File(
                ASFileError::from(filename, mode, FileErrors::InvalidMode(mode.to_owned())),
            ),
        )
    }
}

} // verus!
