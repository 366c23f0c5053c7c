//! Errors of the library.

use vstd::prelude::*;

verus! {

/// How far a sandbox process got before it failed to boot.
pub enum BootErrorStage {
    /// The stage that the process recorded.
    Recorded(String),
    /// Anywhere else, or unknown.
    Other,
}

/// A [`BootErrorStage`] as mathematical values.
pub enum BootErrorStageView {
    Recorded(Seq<char>),
    Other,
}

impl View for BootErrorStage {
    type V = BootErrorStageView;

    open spec fn view(&self) -> BootErrorStageView {
        match self {
            BootErrorStage::Recorded(name) => BootErrorStageView::Recorded(name@),
            BootErrorStage::Other => BootErrorStageView::Other,
        }
    }
}

/// The record a sandbox process leaves when it fails to boot.
pub struct BootError {
    /// When the record was written (RFC 3339).
    pub t: String,
    /// How far the process got.
    pub stage: BootErrorStage,
    /// The operating-system error number, when one was involved.
    pub errno: Option<i32>,
    /// The failure in words.
    pub message: String,
}

/// A [`BootError`] as mathematical values.
pub struct BootErrorView {
    pub t: Seq<char>,
    pub stage: BootErrorStageView,
    pub errno: Option<i32>,
    pub message: Seq<char>,
}

impl View for BootError {
    type V = BootErrorView;

    open spec fn view(&self) -> BootErrorView {
        BootErrorView {
            t: self.t@,
            stage: self.stage@,
            errno: self.errno,
            message: self.message@,
        }
    }
}

/// What can go wrong.
pub enum MicrosandboxError {
    /// A sandbox that has to be at rest is still running.
    SandboxStillRunning(String),
    /// A sandbox that has to be running is not.
    SandboxNotRunning(String),
    /// No sandbox has this name.
    SandboxNotFound(String),
    /// The name is taken.
    SandboxAlreadyExists(String),
    /// The name belongs to another sandbox than the one addressed.
    SandboxReplaced { name: String, expected: String, actual: String },
    /// The sandbox process recorded why it did not boot.
    BootStart { name: String, err: BootError },
    /// The configuration cannot be used.
    InvalidConfig(String),
    /// The page cursor was not issued by this library.
    InvalidCursor(String),
    /// A snapshot does not hold what its descriptor says.
    SnapshotIntegrity(String),
    /// The volume name is taken.
    VolumeAlreadyExists(String),
    /// No volume has this name.
    VolumeNotFound(String),
    /// The backend does not offer this.
    Unsupported { feature: String, available_when: String },
    /// The sandbox runtime failed.
    Runtime(String),
    /// A stored value is not valid JSON.
    Json,
    /// The host, the catalog or the image store failed; the text is theirs.
    Host(String),
    /// Anything else.
    Custom(String),
}

/// A [`MicrosandboxError`] as mathematical values.
pub enum ErrorView {
    SandboxStillRunning(Seq<char>),
    SandboxNotRunning(Seq<char>),
    SandboxNotFound(Seq<char>),
    SandboxAlreadyExists(Seq<char>),
    SandboxReplaced { name: Seq<char>, expected: Seq<char>, actual: Seq<char> },
    BootStart { name: Seq<char>, err: BootErrorView },
    InvalidConfig(Seq<char>),
    InvalidCursor(Seq<char>),
    SnapshotIntegrity(Seq<char>),
    VolumeAlreadyExists(Seq<char>),
    VolumeNotFound(Seq<char>),
    Unsupported { feature: Seq<char>, available_when: Seq<char> },
    Runtime(Seq<char>),
    Json,
    Host(Seq<char>),
    Custom(Seq<char>),
}

impl View for MicrosandboxError {
    type V = ErrorView;

    open spec fn view(&self) -> ErrorView {
        match self {
            MicrosandboxError::SandboxStillRunning(m) => ErrorView::SandboxStillRunning(m@),
            MicrosandboxError::SandboxNotRunning(m) => ErrorView::SandboxNotRunning(m@),
            MicrosandboxError::SandboxNotFound(m) => ErrorView::SandboxNotFound(m@),
            MicrosandboxError::SandboxAlreadyExists(m) => ErrorView::SandboxAlreadyExists(m@),
            MicrosandboxError::SandboxReplaced { name, expected, actual } => {
                ErrorView::SandboxReplaced { name: name@, expected: expected@, actual: actual@ }
            },
            MicrosandboxError::BootStart { name, err } => {
                ErrorView::BootStart { name: name@, err: err@ }
            },
            MicrosandboxError::InvalidConfig(m) => ErrorView::InvalidConfig(m@),
            MicrosandboxError::InvalidCursor(m) => ErrorView::InvalidCursor(m@),
            MicrosandboxError::SnapshotIntegrity(m) => ErrorView::SnapshotIntegrity(m@),
            MicrosandboxError::VolumeAlreadyExists(m) => ErrorView::VolumeAlreadyExists(m@),
            MicrosandboxError::VolumeNotFound(m) => ErrorView::VolumeNotFound(m@),
            MicrosandboxError::Unsupported { feature, available_when } => {
                ErrorView::Unsupported { feature: feature@, available_when: available_when@ }
            },
            MicrosandboxError::Runtime(m) => ErrorView::Runtime(m@),
            MicrosandboxError::Json => ErrorView::Json,
            MicrosandboxError::Host(m) => ErrorView::Host(m@),
            MicrosandboxError::Custom(m) => ErrorView::Custom(m@),
        }
    }
}

/// Result of a fallible operation of the library.
pub type MicrosandboxResult<T> = Result<T, MicrosandboxError>;

/// The failure of a result, if it is one.
pub open spec fn failure<T>(r: MicrosandboxResult<T>) -> Option<ErrorView> {
    match r {
        Ok(_) => None,
        Err(e) => Some(e@),
    }
}

/// An error in words.
pub open spec fn error_text(e: ErrorView) -> Seq<char> {
    match e {
        ErrorView::SandboxStillRunning(m) => m,
        ErrorView::SandboxNotRunning(m) => m,
        ErrorView::SandboxNotFound(m) => m,
        ErrorView::SandboxAlreadyExists(m) => m,
        ErrorView::SandboxReplaced { name, expected, actual } => name,
        ErrorView::BootStart { name, err } => err.message,
        ErrorView::InvalidConfig(m) => "invalid config: "@ + m,
        ErrorView::InvalidCursor(m) => m,
        ErrorView::SnapshotIntegrity(m) => m,
        ErrorView::VolumeAlreadyExists(m) => m,
        ErrorView::VolumeNotFound(m) => m,
        ErrorView::Unsupported { feature, available_when } => feature,
        ErrorView::Runtime(m) => m,
        ErrorView::Json => Seq::empty(),
        ErrorView::Host(m) => m,
        ErrorView::Custom(m) => m,
    }
}

impl MicrosandboxError {
    /// The error in words.
    pub fn message(&self) -> (r: String)
        ensures
            r@ == error_text(self@),
    {
        match self {
            MicrosandboxError::SandboxStillRunning(m) => m.clone(),
            MicrosandboxError::SandboxNotRunning(m) => m.clone(),
            MicrosandboxError::SandboxNotFound(m) => m.clone(),
            MicrosandboxError::SandboxAlreadyExists(m) => m.clone(),
            MicrosandboxError::SandboxReplaced { name, .. } => name.clone(),
            MicrosandboxError::BootStart { err, .. } => err.message.clone(),
            MicrosandboxError::InvalidConfig(m) => {
                let mut text = "invalid config: ".to_owned();
                text.append(m.as_str());
                text
            },
            MicrosandboxError::InvalidCursor(m) => m.clone(),
            MicrosandboxError::SnapshotIntegrity(m) => m.clone(),
            MicrosandboxError::VolumeAlreadyExists(m) => m.clone(),
            MicrosandboxError::VolumeNotFound(m) => m.clone(),
            MicrosandboxError::Unsupported { feature, .. } => feature.clone(),
            MicrosandboxError::Runtime(m) => m.clone(),
            MicrosandboxError::Json => String::new(),
            MicrosandboxError::Host(m) => m.clone(),
            MicrosandboxError::Custom(m) => m.clone(),
        }
    }
}

/// An error is seen as what it is, with its own words; only a wrong configuration is marked as such
/// when it is put in words, and a boot that failed speaks with the words that were recorded.
pub proof fn errors_keep_their_words(e: MicrosandboxError)
    ensures
        match e {
            MicrosandboxError::SandboxStillRunning(m) => e@ == ErrorView::SandboxStillRunning(m@)
                && error_text(e@) == m@,
            MicrosandboxError::SandboxNotRunning(m) => e@ == ErrorView::SandboxNotRunning(m@)
                && error_text(e@) == m@,
            MicrosandboxError::SandboxNotFound(m) => e@ == ErrorView::SandboxNotFound(m@)
                && error_text(e@) == m@,
            MicrosandboxError::SandboxAlreadyExists(m) => e@ == ErrorView::SandboxAlreadyExists(
                m@,
            ) && error_text(e@) == m@,
            MicrosandboxError::SandboxReplaced { name, expected, actual } => e@ == (
            ErrorView::SandboxReplaced { name: name@, expected: expected@, actual: actual@ }),
            MicrosandboxError::BootStart { name, err } => e@ == (ErrorView::BootStart {
                name: name@,
                err: err@,
            }) && error_text(e@) == err@.message,
            MicrosandboxError::InvalidConfig(m) => e@ == ErrorView::InvalidConfig(m@)
                && error_text(e@) == "invalid config: "@ + m@,
            MicrosandboxError::InvalidCursor(m) => e@ == ErrorView::InvalidCursor(m@)
                && error_text(e@) == m@,
            MicrosandboxError::SnapshotIntegrity(m) => e@ == ErrorView::SnapshotIntegrity(m@)
                && error_text(e@) == m@,
            MicrosandboxError::VolumeAlreadyExists(m) => e@ == ErrorView::VolumeAlreadyExists(m@),
            MicrosandboxError::VolumeNotFound(m) => e@ == ErrorView::VolumeNotFound(m@),
            MicrosandboxError::Unsupported { feature, available_when } => e@ == (
            ErrorView::Unsupported { feature: feature@, available_when: available_when@ }),
            MicrosandboxError::Runtime(m) => e@ == ErrorView::Runtime(m@) && error_text(e@) == m@,
            MicrosandboxError::Json => e@ == ErrorView::Json,
            MicrosandboxError::Host(m) => e@ == ErrorView::Host(m@) && error_text(e@) == m@,
            MicrosandboxError::Custom(m) => e@ == ErrorView::Custom(m@) && error_text(e@) == m@,
        },
{
}

/// A result fails exactly where it is an error, with that error.
pub proof fn failures_are_errors<T>(r: MicrosandboxResult<T>)
    ensures
        r is Ok <==> failure(r) is None,
        r matches Err(e) ==> failure(r) == Some(e@),
{
}

} // verus!
