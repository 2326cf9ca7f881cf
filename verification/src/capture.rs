//! The decisions of Blink's interactive screenshot capture. The capture tools
//! are run by the caller; these functions say what their outcomes mean and
//! which tool to try next.

use vstd::prelude::*;
use vstd::string::*;
use crate::text::{owned, trim};

verus! {

/// Why a capture tool did not produce a screenshot.
#[derive(Debug, Clone, PartialEq, Eq)]
pub enum CaptureError {
    /// The tool is not installed.
    BackendUnavailable(&'static str),
    /// The tool ran and failed, or could not be started.
    Failed(String),
}

/// The text a capture error is shown as.
pub open spec fn capture_error_message(e: CaptureError) -> Seq<char> {
    match e {
        CaptureError::BackendUnavailable(command) => "Capture backend `"@ + command@
            + "` is not available"@,
        CaptureError::Failed(message) => message@,
    }
}

/// Appended to the second tool's error when neither tool could capture.
pub const INSTALL_HINT: &'static str = ". Install `gnome-screenshot` or `grim` + `slurp` to enable Blink capture.";

/// The message when the user selected no area.
pub const NO_SELECTION_MESSAGE: &'static str = "No screen area was selected for capture";

impl CaptureError {
    /// The text this error is shown as.
    pub fn message(&self) -> (text: String)
        ensures
            text@ == capture_error_message(*self),
    {
        match self {
            CaptureError::BackendUnavailable(command) => owned("Capture backend `").concat(
                command,
            ).concat("` is not available"),
            CaptureError::Failed(message) => message.clone(),
        }
    }
}

/// What a failure to start `command` means: a tool that is not installed is
/// unavailable; any other start failure is a failure, with the system's
/// description of it.
pub fn classify_backend_error(command: &'static str, not_found: bool, error_text: &str) -> (e: CaptureError)
    ensures
        not_found ==> e == CaptureError::BackendUnavailable(command),
        !not_found ==> e is Failed && e->Failed_0@ == command@ + " could not start: "@
            + error_text@,
{
    if not_found {
        CaptureError::BackendUnavailable(command)
    } else {
        CaptureError::Failed(owned(command).concat(" could not start: ").concat(error_text))
    }
}

/// The outcome of a tool that ran: success, or a failure naming its exit status.
pub fn command_outcome(command: &str, succeeded: bool, status_text: &str) -> (r: Result<(), CaptureError>)
    ensures
        succeeded ==> r is Ok,
        !succeeded ==> r is Err && r->Err_0 is Failed && r->Err_0->Failed_0@ == command@
            + " exited with status "@ + status_text@,
{
    if succeeded {
        Ok(())
    } else {
        Err(CaptureError::Failed(owned(command).concat(" exited with status ").concat(status_text)))
    }
}

/// The geometry the area selector printed, trimmed; an empty selection is a
/// failure.
pub fn selection_geometry(output: &str) -> (r: Result<String, CaptureError>)
    ensures
        crate::text::trim_seq(output@).len() == 0 ==> r is Err && r->Err_0 is Failed
            && r->Err_0->Failed_0@ == NO_SELECTION_MESSAGE@,
        crate::text::trim_seq(output@).len() > 0 ==> r is Ok && r->Ok_0@ == crate::text::trim_seq(
            output@,
        ),
{
    let geometry = trim(output);
    if geometry.unicode_len() == 0 {
        Err(CaptureError::Failed(owned(NO_SELECTION_MESSAGE)))
    } else {
        Ok(owned(geometry))
    }
}

/// The second tool is tried exactly when the first is not installed.
pub open spec fn fallback_needed(primary: Result<(), CaptureError>) -> bool {
    primary matches Err(CaptureError::BackendUnavailable(_))
}

pub fn needs_fallback(primary: &Result<(), CaptureError>) -> (b: bool)
    ensures
        b == fallback_needed(*primary),
{
    match primary {
        Err(CaptureError::BackendUnavailable(_)) => true,
        _ => false,
    }
}

/// The outcome of an interactive capture, given the outcome of the first
/// tool and, when it was not installed, that of the second.
pub fn capture_interactive(
    primary: Result<(), CaptureError>,
    fallback: Option<Result<(), CaptureError>>,
) -> (r: Result<(), String>)
    requires
        fallback is Some <==> fallback_needed(primary),
    ensures
        primary is Ok ==> r is Ok,
        primary matches Err(CaptureError::Failed(m)) ==> r is Err && r->Err_0@ == m@,
        fallback matches Some(Ok(())) ==> r is Ok,
        fallback matches Some(Err(e)) ==> r is Err && r->Err_0@ == capture_error_message(e)
            + INSTALL_HINT@,
{
    match primary {
        Ok(()) => Ok(()),
        Err(CaptureError::BackendUnavailable(_)) => match fallback {
            Some(Ok(())) => Ok(()),
            Some(Err(e)) => Err(e.message().concat(INSTALL_HINT)),
            None => Ok(()),
        },
        Err(e) => Err(e.message()),
    }
}

/// How many times a freshly written screenshot is looked at before giving up.
pub const FILE_READY_ATTEMPTS: u32 = 20;

/// What one look at a freshly written screenshot found.
#[derive(Debug, Clone, PartialEq, Eq)]
pub enum FileProbe {
    /// A non-empty regular file that opens.
    Ready,
    /// A non-empty regular file that does not open (yet).
    OpenFailed,
    /// Something that is not yet a non-empty regular file.
    NotReady,
    /// Its metadata could not be read, for the reason given.
    Unreadable(String),
}

/// What to do after a look at the file.
#[derive(Debug, Clone, PartialEq, Eq)]
pub enum WaitAction {
    /// The file is ready.
    Done,
    /// Wait a tenth of a second and look again.
    SleepThenProbe,
    /// Wait a tenth of a second and fail with this message.
    SleepThenFail(String),
}

/// The waiting so far: how many looks were taken, and the latest reason the
/// file was not ready.
pub struct FileWait {
    attempts: u32,
    last_error: Option<String>,
}

pub struct FileWaitView {
    pub attempts: nat,
    pub last_error: Option<Seq<char>>,
}

impl View for FileWait {
    type V = FileWaitView;

    closed spec fn view(&self) -> FileWaitView {
        FileWaitView {
            attempts: self.attempts as nat,
            last_error: match self.last_error {
                Some(e) => Some(e@),
                None => None,
            },
        }
    }
}

pub open spec fn not_ready_message(path: Seq<char>) -> Seq<char> {
    "Screenshot file is not ready yet: "@ + path
}

pub open spec fn never_ready_message(path: Seq<char>) -> Seq<char> {
    "Screenshot file did not become ready: "@ + path
}

/// The latest reason after a look: the metadata error, or that the file is
/// not ready; a file that would not open leaves the reason as it was.
pub open spec fn reason_after(last: Option<Seq<char>>, probe: FileProbe, path: Seq<char>) -> Option<Seq<char>> {
    match probe {
        FileProbe::Unreadable(e) => Some(e@),
        FileProbe::NotReady => Some(not_ready_message(path)),
        _ => last,
    }
}

impl FileWait {
    /// Before the first look.
    pub fn new() -> (w: Self)
        ensures
            w@.attempts == 0,
            w@.last_error is None,
    {
        FileWait { attempts: 0, last_error: None }
    }

    /// Takes in what a look at the file at `path` found and says what to do.
    /// A ready file ends the wait; otherwise the wait goes on, until the
    /// twentieth look, after which it fails with the latest reason (or, with
    /// none, that the file never became ready).
    pub fn step(&mut self, probe: FileProbe, path: &str) -> (action: WaitAction)
        requires
            old(self)@.attempts < FILE_READY_ATTEMPTS,
        ensures
            probe == FileProbe::Ready ==> action == WaitAction::Done && final(self)@ == old(self)@,
            probe != FileProbe::Ready ==> ({
                let reason = reason_after(old(self)@.last_error, probe, path@);
                &&& final(self)@.attempts == old(self)@.attempts + 1
                &&& final(self)@.last_error == reason
                &&& final(self)@.attempts < FILE_READY_ATTEMPTS ==> action == WaitAction::SleepThenProbe
                &&& final(self)@.attempts == FILE_READY_ATTEMPTS ==> action is SleepThenFail
                    && action->SleepThenFail_0@ == (match reason {
                        Some(r) => r,
                        None => never_ready_message(path@),
                    })
            }),
    {
        match probe {
            FileProbe::Ready => {
                return WaitAction::Done;
            },
            FileProbe::OpenFailed => {},
            FileProbe::NotReady => {
                self.last_error = Some(owned("Screenshot file is not ready yet: ").concat(path));
            },
            FileProbe::Unreadable(e) => {
                self.last_error = Some(e);
            },
        }
        self.attempts = self.attempts + 1;
        if self.attempts < FILE_READY_ATTEMPTS {
            WaitAction::SleepThenProbe
        } else {
            match &self.last_error {
                Some(e) => WaitAction::SleepThenFail(e.clone()),
                None => WaitAction::SleepThenFail(
                    owned("Screenshot file did not become ready: ").concat(path),
                ),
            }
        }
    }
}

} // verus!
