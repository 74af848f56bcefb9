use vstd::prelude::*;

verus! {

/// How a batch of upload targets is turned into HTTP traffic.
///
/// `SingleFile` and `MultiFile` issue one independent request per target;
/// `DirectoryWrap` collects every successfully opened target into one
/// aggregate request sent with the wrap-with-directory flag.
#[derive(Clone, Copy, Debug, PartialEq, Eq, Structural)]
pub enum UploadMode {
    SingleFile,
    DirectoryWrap,
    MultiFile,
}

/// The lifecycle of one upload target inside a batch.
///
/// `Pending -> InFlight -> { OpenFailed | Opened | Completed | RequestFailed }`.
/// `Opened` is the terminal success of a directory-wrap target (its part has
/// been collected for the one aggregate request); `Completed` carries the
/// response body of a per-file request. Every failure is terminal: there are
/// no retries.
#[derive(Debug)]
pub enum TargetState {
    Pending,
    InFlight,
    OpenFailed(String),
    Opened,
    Completed(String),
    RequestFailed(String),
}

/// Ghost mirror of `TargetState`, with string payloads as character sequences.
pub enum StateV {
    Pending,
    InFlight,
    OpenFailed(Seq<char>),
    Opened,
    Completed(Seq<char>),
    RequestFailed(Seq<char>),
}

impl View for TargetState {
    type V = StateV;

    open spec fn view(&self) -> StateV {
        match self {
            TargetState::Pending => StateV::Pending,
            TargetState::InFlight => StateV::InFlight,
            TargetState::OpenFailed(c) => StateV::OpenFailed(c@),
            TargetState::Opened => StateV::Opened,
            TargetState::Completed(b) => StateV::Completed(b@),
            TargetState::RequestFailed(c) => StateV::RequestFailed(c@),
        }
    }
}

/// A reported failure. Per-target failures never abort the batch; a
/// configuration failure is raised once, before any upload begins.
#[derive(Debug, PartialEq, Eq)]
pub enum UploadError {
    FileOpen { path: String, cause: String },
    Transport { path: String, cause: String },
    Configuration { cause: String },
}

/// Ghost mirror of `UploadError`.
pub enum ErrV {
    FileOpen { path: Seq<char>, cause: Seq<char> },
    Transport { path: Seq<char>, cause: Seq<char> },
    Configuration { cause: Seq<char> },
}

impl View for UploadError {
    type V = ErrV;

    open spec fn view(&self) -> ErrV {
        match self {
            UploadError::FileOpen { path, cause } => ErrV::FileOpen { path: path@, cause: cause@ },
            UploadError::Transport { path, cause } => ErrV::Transport {
                path: path@,
                cause: cause@,
            },
            UploadError::Configuration { cause } => ErrV::Configuration { cause: cause@ },
        }
    }
}

} // verus!
