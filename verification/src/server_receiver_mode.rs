//! Receive mode: taking the parts of an upload and storing each as a file
//! in the upload directory.
//!
//! The caller does the work on the network and on disk. After each piece
//! of work it reports what happened and is told what to do next.

use crate::http::StatusCode;
use vstd::prelude::*;
use vstd::string::StringExecFns;

verus! {

/// How far the handling of one upload request has come.
#[derive(Clone, Copy, Debug, PartialEq, Eq, Structural)]
pub enum UploadState {
    /// The upload directory is being created.
    CreatingDirectory,
    /// The next part of the request is being fetched.
    AwaitingField,
    /// A part is being read and written to its file.
    StoringPart,
    /// The request has been answered.
    Finished,
}

/// What the caller reports.
#[derive(Debug)]
pub enum UploadEvent {
    /// The upload directory exists now.
    DirectoryCreated,
    /// The upload directory could not be created.
    DirectoryFailed,
    /// The request holds one more part, sent under this file name, if any.
    Field { file_name: Option<String> },
    /// The request holds no more parts.
    NoMoreFields,
    /// The next part could not be fetched.
    FieldFailed,
    /// The part was read and written to its file.
    PartStored,
    /// The part could not be read, or its file could not be created or
    /// written.
    PartFailed,
}

/// What the caller is to do next.
#[derive(Debug)]
pub enum UploadAction {
    /// Create the upload directory and what is missing above it.
    CreateDirectory,
    /// Fetch the next part of the request.
    NextField,
    /// Read the part and write it to the file of this name in the upload
    /// directory.
    StorePart { file_name: String },
    /// Answer the request.
    Respond { status: StatusCode, body: String },
}

/// The value of an action.
pub enum Plan {
    CreateDirectory,
    NextField,
    StorePart { file_name: Seq<char> },
    Respond { status: StatusCode, body: Seq<char> },
}

impl View for UploadAction {
    type V = Plan;

    open spec fn view(&self) -> Plan {
        match self {
            UploadAction::CreateDirectory => Plan::CreateDirectory,
            UploadAction::NextField => Plan::NextField,
            UploadAction::StorePart { file_name } => Plan::StorePart { file_name: file_name@ },
            UploadAction::Respond { status, body } => Plan::Respond {
                status: *status,
                body: body@,
            },
        }
    }
}

/// The answer to a request that failed on the server's side.
pub open spec fn server_error() -> Plan {
    Plan::Respond { status: StatusCode::InternalServerError, body: Seq::empty() }
}

/// The answer to a request all of whose parts were stored.
pub open spec fn upload_successful() -> Plan {
    Plan::Respond { status: StatusCode::Success, body: "Upload successful"@ }
}

/// The name under which a part is stored: the one it was sent under, or
/// `unnamed`.
pub open spec fn stored_name(file_name: Option<String>) -> Seq<char> {
    match file_name {
        Some(name) => name@,
        None => "unnamed"@,
    }
}

/// The state after `event` was reported in `state`, and what is to be done
/// next. A failure ends the request with a server error; the parts stored
/// before it stay. So does a report that `state` does not wait for.
pub open spec fn upload_step(state: UploadState, event: UploadEvent) -> (UploadState, Plan) {
    match (state, event) {
        (UploadState::CreatingDirectory, UploadEvent::DirectoryCreated) => (
            UploadState::AwaitingField,
            Plan::NextField,
        ),
        (UploadState::AwaitingField, UploadEvent::Field { file_name }) => (
            UploadState::StoringPart,
            Plan::StorePart { file_name: stored_name(file_name) },
        ),
        (UploadState::AwaitingField, UploadEvent::NoMoreFields) => (
            UploadState::Finished,
            upload_successful(),
        ),
        (UploadState::StoringPart, UploadEvent::PartStored) => (
            UploadState::AwaitingField,
            Plan::NextField,
        ),
        _ => (UploadState::Finished, server_error()),
    }
}

/// What the caller is told, report after report, from `state` on.
pub open spec fn upload_run(state: UploadState, events: Seq<UploadEvent>) -> Seq<Plan>
    decreases events.len(),
{
    if events.len() == 0 {
        Seq::empty()
    } else {
        let (next, plan) = upload_step(state, events.first());
        seq![plan] + upload_run(next, events.drop_first())
    }
}

/// Where the handling of a request starts, and its first piece of work.
pub fn start_upload() -> (first: (UploadState, UploadAction))
    ensures
        first.0 == UploadState::CreatingDirectory,
        first.1@ == Plan::CreateDirectory,
{
    (UploadState::CreatingDirectory, UploadAction::CreateDirectory)
}

fn fail() -> (next: (UploadState, UploadAction))
    ensures
        next.0 == UploadState::Finished,
        next.1@ == server_error(),
{
    (
        UploadState::Finished,
        UploadAction::Respond { status: StatusCode::InternalServerError, body: String::new() },
    )
}

/// Takes the report of a piece of work and says what to do next.
pub fn accept_upload_form(state: UploadState, event: UploadEvent) -> (next: (
    UploadState,
    UploadAction,
))
    ensures
        (next.0, next.1@) == upload_step(state, event),
{
    match state {
        UploadState::CreatingDirectory => match event {
            UploadEvent::DirectoryCreated => (UploadState::AwaitingField, UploadAction::NextField),
            _ => fail(),
        },
        UploadState::AwaitingField => match event {
            UploadEvent::Field { file_name } => {
                let file_name = match file_name {
                    Some(name) => name,
                    None => String::from_str("unnamed"),
                };
                (UploadState::StoringPart, UploadAction::StorePart { file_name })
            },
            UploadEvent::NoMoreFields => (
                UploadState::Finished,
                UploadAction::Respond {
                    status: StatusCode::Success,
                    body: String::from_str("Upload successful"),
                },
            ),
            _ => fail(),
        },
        UploadState::StoringPart => match event {
            UploadEvent::PartStored => (UploadState::AwaitingField, UploadAction::NextField),
            _ => fail(),
        },
        UploadState::Finished => fail(),
    }
}

/// The number of bytes in `mib` MiB, the largest request body that is
/// accepted; none where the number does not fit.
pub fn request_body_limit(mib: usize) -> (bytes: Option<usize>)
    ensures
        match bytes {
            Some(limit) => limit == mib * 1024 * 1024,
            None => mib * 1024 * 1024 > usize::MAX,
        },
{
    if mib > usize::MAX / 1048576 {
        None
    } else {
        Some(mib * 1048576)
    }
}

/// Once a request is answered it stays answered: whatever is reported
/// then, nothing more is stored.
pub proof fn lemma_finished_is_final(events: Seq<UploadEvent>, i: int)
    requires
        0 <= i < events.len(),
    ensures
        upload_run(UploadState::Finished, events).len() == events.len(),
        upload_run(UploadState::Finished, events)[i] == server_error(),
    decreases events.len(),
{
    lemma_run_len(UploadState::Finished, events);
    if i > 0 {
        lemma_finished_is_final(events.drop_first(), i - 1);
    }
}

/// Each report is answered by one instruction.
pub proof fn lemma_run_len(state: UploadState, events: Seq<UploadEvent>)
    ensures
        upload_run(state, events).len() == events.len(),
    decreases events.len(),
{
    if events.len() > 0 {
        lemma_run_len(upload_step(state, events.first()).0, events.drop_first());
    }
}

/// Where the upload directory cannot be created, the request is answered
/// with a server error and no part is ever stored.
pub proof fn lemma_no_directory_no_file(events: Seq<UploadEvent>, i: int)
    requires
        0 <= i < events.len(),
        events[0] is DirectoryFailed,
    ensures
        upload_run(UploadState::CreatingDirectory, events).len() == events.len(),
        upload_run(UploadState::CreatingDirectory, events)[i] == server_error(),
{
    lemma_run_len(UploadState::CreatingDirectory, events);
    if i > 0 {
        lemma_finished_is_final(events.drop_first(), i - 1);
    }
}

/// A part is stored only while the request waits for its next part, which
/// it does only once the upload directory exists.
pub proof fn lemma_store_needs_directory(state: UploadState, event: UploadEvent)
    requires
        upload_step(state, event).1 is StorePart,
    ensures
        state == UploadState::AwaitingField,
        event is Field,
{
}

} // verus!
