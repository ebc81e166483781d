//! Transmit mode: answering download and preview requests from the index
//! of a snapshot.

use crate::cli_args::Args;
use crate::fs_object::FsObject;
use crate::html_page_utils::{share, Index};
use crate::http::{Rejection, StatusCode};
use crate::path::file_name_of;
use crate::text::{decimal, decimal_string};
use std::sync::Arc;
use vstd::prelude::*;
use vstd::string::StringExecFns;

verus! {

broadcast use vstd::std_specs::hash::group_hash_axioms;

/// The query of a download or preview request.
#[derive(Clone, Copy, Debug)]
pub struct Params {
    pub id: u64,
}

/// What a download is answered with, besides the bytes of the file.
#[derive(Debug)]
pub struct Download {
    pub status: StatusCode,
    /// The value of the content disposition header.
    pub content_disposition: String,
}

/// What a preview is answered with, besides the bytes of the file.
#[derive(Debug)]
pub struct Preview {
    pub status: StatusCode,
    /// The value of the content type header.
    pub content_type: String,
}

/// The message for an identifier that the index does not hold.
pub open spec fn item_not_found(id: u64) -> Seq<char> {
    "Unexpected error. Item not found. ID = "@ + decimal(id as nat)
}

/// The message for a file that is listed but can no longer be opened.
pub open spec fn file_not_found(reason: Seq<char>) -> Seq<char> {
    "File not found: "@ + reason
}

/// The content disposition that offers a file under `name`.
pub open spec fn attachment(name: Seq<char>) -> Seq<char> {
    "attachment; filename=\""@ + name + "\""@
}

/// The answer to a download of a file whose opening ended as `opened`: the
/// header that names the file, or the status and message of the refusal.
pub open spec fn download_answer(path: Seq<char>, opened: Result<(), Seq<char>>) -> Result<
    Seq<char>,
    (StatusCode, Seq<char>),
> {
    match opened {
        Err(reason) => Err((StatusCode::NotFound, file_not_found(reason))),
        Ok(_) => Ok(attachment(file_name_of(path)->0)),
    }
}

/// The answer to a preview of a file whose opening ended as `opened` and
/// whose media type was guessed as `mime`: the content type, or the status
/// and message of the refusal. A file that cannot be opened is reported
/// before a type that cannot be told.
pub open spec fn preview_answer(opened: Result<(), Seq<char>>, mime: Option<Seq<char>>) -> Result<
    Seq<char>,
    (StatusCode, Seq<char>),
> {
    match opened {
        Err(reason) => Err((StatusCode::NotFound, file_not_found(reason))),
        Ok(_) => match mime {
            None => Err((StatusCode::BadRequest, "MIME Type couldn't be determined"@)),
            Some(content_type) => Ok(content_type),
        },
    }
}

/// The text of what opening a file ended with.
pub open spec fn opened_view(opened: Result<(), String>) -> Result<(), Seq<char>> {
    match opened {
        Ok(_) => Ok(()),
        Err(reason) => Err(reason@),
    }
}

/// The media type that `mime_guess` gives for the extension of `path`, if
/// it knows the extension.
pub uninterp spec fn guessed_mime(path: Seq<char>) -> Option<Seq<char>>;

/// `mime_guess::from_path(path).first_raw()`: the first media type in the
/// crate's table for the extension of `path`, looked up without regard to
/// case; none where the path has no extension or the table does not hold it.
/// The table is the crate's own, so the result is only named here.
#[verifier::external_body]
fn guess_mime(path: &str) -> (mime: Option<String>)
    ensures
        match mime {
            Some(content_type) => guessed_mime(path@) == Some(content_type@),
            None => guessed_mime(path@) is None,
        },
{
    mime_guess::from_path(path).first_raw().map(String::from)
}

/// Fails where no path is left to share.
pub fn require_paths(cli_args: &Args) -> (checked: Result<(), String>)
    ensures
        checked is Ok <==> cli_args.paths@.len() > 0,
        checked matches Err(message) ==> message@ == "No one valid paths provided"@,
{
    if cli_args.paths.len() == 0 {
        Err(String::from_str("No one valid paths provided"))
    } else {
        Ok(())
    }
}

/// Finds the file that the request names. An identifier that the index
/// does not hold is answered with "not found".
pub fn prepare_response(state: &Index, query: &Params) -> (found: Result<Arc<FsObject>, Rejection>)
    ensures
        match found {
            Ok(fs_object) => state@.contains_key(query.id) && fs_object == state@[query.id],
            Err(refusal) => !state@.contains_key(query.id) && refusal.status
                == StatusCode::NotFound && refusal.message@ == item_not_found(query.id),
        },
{
    match state.get(&query.id) {
        Some(fs_object) => Ok(share(fs_object)),
        None => {
            let mut message = String::from_str("Unexpected error. Item not found. ID = ");
            message.append(decimal_string(query.id).as_str());
            Err(Rejection { status: StatusCode::NotFound, message })
        },
    }
}

/// The answer when a file of the snapshot can no longer be opened.
fn stale(reason: &str) -> (refusal: Rejection)
    ensures
        refusal.status == StatusCode::NotFound,
        refusal.message@ == file_not_found(reason@),
{
    let mut message = String::from_str("File not found: ");
    message.append(reason);
    Rejection { status: StatusCode::NotFound, message }
}

/// Answers a download of `fs_object`, whose file the caller has tried to
/// open: `opened` tells how that ended.
pub fn download_handler(fs_object: &FsObject, opened: Result<(), String>) -> (answer: Result<
    Download,
    Rejection,
>)
    requires
        opened is Ok ==> file_name_of(fs_object@.path) is Some,
    ensures
        match answer {
            Ok(download) => download.status == StatusCode::Success && download_answer(
                fs_object@.path,
                opened_view(opened),
            ) == Ok::<Seq<char>, (StatusCode, Seq<char>)>(download.content_disposition@),
            Err(refusal) => download_answer(fs_object@.path, opened_view(opened)) == Err::<
                Seq<char>,
                (StatusCode, Seq<char>),
            >((refusal.status, refusal.message@)),
        },
{
    match opened {
        Err(reason) => Err(stale(reason.as_str())),
        Ok(_) => {
            let mut content_disposition = String::from_str("attachment; filename=\"");
            content_disposition.append(fs_object.name());
            content_disposition.append("\"");
            Ok(Download { status: StatusCode::Success, content_disposition })
        },
    }
}

/// Answers a preview of a file whose opening ended as `opened` and for
/// whose path the media type `mime` was guessed.
pub fn preview_response(opened: Result<(), String>, mime: Option<String>) -> (answer: Result<
    Preview,
    Rejection,
>)
    ensures
        match answer {
            Ok(preview) => preview.status == StatusCode::Success && mime is Some && preview_answer(
                opened_view(opened),
                Some(mime->0@),
            ) == Ok::<Seq<char>, (StatusCode, Seq<char>)>(preview.content_type@),
            Err(refusal) => preview_answer(
                opened_view(opened),
                match mime {
                    Some(content_type) => Some(content_type@),
                    None => None,
                },
            ) == Err::<Seq<char>, (StatusCode, Seq<char>)>((refusal.status, refusal.message@)),
        },
{
    match opened {
        Err(reason) => Err(stale(reason.as_str())),
        Ok(_) => match mime {
            None => Err(
                Rejection {
                    status: StatusCode::BadRequest,
                    message: String::from_str("MIME Type couldn't be determined"),
                },
            ),
            Some(content_type) => Ok(Preview { status: StatusCode::Success, content_type }),
        },
    }
}

/// Answers a preview of `fs_object`, whose file the caller has tried to
/// open: `opened` tells how that ended. The content type is guessed from
/// the extension of the path.
pub fn preview_handler(fs_object: &FsObject, opened: Result<(), String>) -> (answer: Result<
    Preview,
    Rejection,
>)
    ensures
        match answer {
            Ok(preview) => preview.status == StatusCode::Success && preview_answer(
                opened_view(opened),
                guessed_mime(fs_object@.path),
            ) == Ok::<Seq<char>, (StatusCode, Seq<char>)>(preview.content_type@),
            Err(refusal) => preview_answer(opened_view(opened), guessed_mime(fs_object@.path))
                == Err::<Seq<char>, (StatusCode, Seq<char>)>((refusal.status, refusal.message@)),
        },
{
    let mime = guess_mime(fs_object.path.as_str());
    preview_response(opened, mime)
}

} // verus!
