//! What the administrators' requests on libraries are answered.
//!
//! A request that changes something asks the store in between, so it is a pair
//! of functions: the first says what to ask the store for, the second what the
//! store's answer means.
use vstd::prelude::*;
use crate::libraries::discovery::StoredLibrary;
use crate::status::StatusCode;
use crate::text;
use crate::text::{contains_text, trim};

verus! {

/// What the page on libraries shows.
pub struct LibrariesPageTemplate {
    pub merge_libraries: bool,
    pub has_merge_libraries_error: bool,
    pub merge_libraries_error: String,
    pub ui_route: String,
}

/// What the control for automatic merging shows.
pub struct MergeLibrariesControlTemplate {
    pub merge_libraries: bool,
    pub has_merge_libraries_error: bool,
    pub merge_libraries_error: String,
    pub ui_route: String,
}

/// The form that creates a group.
pub struct CreateGroupForm {
    pub name: String,
}

/// The form that assigns a library to a group.
pub struct AssignLibraryForm {
    pub group_virtual_id: String,
    pub server_id: i64,
    pub library_id: String,
}

/// The form that takes a library out of a group.
pub struct RemoveMemberForm {
    pub server_id: i64,
    pub library_id: String,
}

/// The form that renames a group.
pub struct RenameGroupForm {
    pub name: String,
}

/// The form that switches automatic merging.
pub struct UpdateMergeLibrariesForm {
    pub merge_libraries: bool,
}

/// An answer: a status and a body, which is HTML or plain text.
#[derive(Debug)]
pub struct UiResponse {
    pub status: StatusCode,
    pub html: bool,
    pub body: String,
}

/// The view of a [`UiResponse`].
pub struct ResponseView {
    pub status: StatusCode,
    pub html: bool,
    pub body: Seq<char>,
}

impl View for UiResponse {
    type V = ResponseView;

    open spec fn view(&self) -> ResponseView {
        ResponseView { status: self.status, html: self.html, body: self.body@ }
    }
}

/// What follows a change.
#[derive(Debug)]
pub enum Outcome {
    /// The board is drawn anew and sent.
    ShowBoard,
    /// This is the answer.
    Respond(UiResponse),
}

/// The view of an [`Outcome`]: an answer, or the board where there is none.
pub open spec fn outcome_view(outcome: Outcome) -> Option<ResponseView> {
    match outcome {
        Outcome::ShowBoard => None,
        Outcome::Respond(response) => Some(response@),
    }
}

/// Why a library could not be assigned.
#[derive(Debug)]
pub enum AssignLibraryError {
    CollectionTypeMismatch { group_type: String, library_type: String },
    MissingCollectionType,
    GroupNotFound,
    Database(String),
}

/// What the store is asked to add to a group.
#[derive(Debug)]
pub struct NewMember {
    pub group_virtual_id: String,
    pub server_id: i64,
    pub library_id: String,
    pub library_name: String,
    pub collection_type: String,
}

/// A message in the markup of an error.
pub open spec fn alert(message: Seq<char>) -> Seq<char> {
    "<div class=\"alert alert-error\">"@ + message + "</div>"@
}

/// An answer that shows an error.
pub open spec fn alert_response(status: StatusCode, message: Seq<char>) -> ResponseView {
    ResponseView { status, html: true, body: alert(message) }
}

fn alert_of(status: StatusCode, message: &str) -> (response: UiResponse)
    ensures
        response@ == alert_response(status, message@),
{
    let mut body = "<div class=\"alert alert-error\">".to_owned();
    body.append(message);
    body.append("</div>");
    UiResponse { status, html: true, body }
}

/// The page on libraries, which shows no error.
pub fn libraries_page(merge_libraries: bool, ui_route: String) -> (page: LibrariesPageTemplate)
    ensures
        page.merge_libraries == merge_libraries,
        !page.has_merge_libraries_error,
        page.merge_libraries_error@ == Seq::<char>::empty(),
        page.ui_route == ui_route,
{
    LibrariesPageTemplate {
        merge_libraries,
        has_merge_libraries_error: false,
        merge_libraries_error: String::new(),
        ui_route,
    }
}

/// The control for automatic merging, with an error where there is one.
pub fn render_merge_libraries_control(
    merge_libraries: bool,
    ui_route: String,
    error_message: Option<&str>,
) -> (control: MergeLibrariesControlTemplate)
    ensures
        control.merge_libraries == merge_libraries,
        control.has_merge_libraries_error == (error_message is Some),
        control.merge_libraries_error@ == match error_message {
            Some(message) => message@,
            None => Seq::<char>::empty(),
        },
        control.ui_route == ui_route,
{
    let merge_libraries_error = match error_message {
        Some(message) => message.to_owned(),
        None => String::new(),
    };
    MergeLibrariesControlTemplate {
        merge_libraries,
        has_merge_libraries_error: error_message.is_some(),
        merge_libraries_error,
        ui_route,
    }
}

/// The setting was saved, or could not be: the value that holds from now on,
/// and the control that shows it.
pub fn update_merge_libraries(
    form: &UpdateMergeLibrariesForm,
    current: bool,
    saved: Result<(), String>,
    ui_route: String,
) -> (result: (bool, MergeLibrariesControlTemplate))
    ensures
        result.0 == (if saved is Ok {
            form.merge_libraries
        } else {
            current
        }),
        result.1.merge_libraries == result.0,
        result.1.has_merge_libraries_error == (saved is Err),
        result.1.merge_libraries_error@ == if saved is Ok {
            Seq::<char>::empty()
        } else {
            "Could not save this setting. The previous behavior is still active."@
        },
        result.1.ui_route == ui_route,
{
    match saved {
        Ok(_) => (
            form.merge_libraries,
            render_merge_libraries_control(form.merge_libraries, ui_route, None),
        ),
        Err(_) => (
            current,
            render_merge_libraries_control(
                current,
                ui_route,
                Some("Could not save this setting. The previous behavior is still active."),
            ),
        ),
    }
}

/// A page or a control was drawn, or could not be.
pub fn drawn(html: Result<String, String>) -> (response: UiResponse)
    ensures
        response@ == match html {
            Ok(body) => (ResponseView { status: StatusCode::OK, html: true, body: body@ }),
            Err(_) => (ResponseView {
                status: StatusCode::INTERNAL_SERVER_ERROR,
                html: false,
                body: "Template error"@,
            }),
        },
{
    match html {
        Ok(body) => UiResponse { status: StatusCode::OK, html: true, body },
        Err(_) => UiResponse {
            status: StatusCode::INTERNAL_SERVER_ERROR,
            html: false,
            body: "Template error".to_owned(),
        },
    }
}

/// The board was drawn, or could not be: its text, or what went wrong.
pub fn board_drawn(html: Result<String, String>) -> (board: Result<String, String>)
    ensures
        match html {
            Ok(body) => board == Ok::<String, String>(body),
            Err(e) => board matches Err(message) && message@ == "Template error: "@ + e@,
        },
{
    match html {
        Ok(body) => Ok(body),
        Err(e) => {
            let mut message = "Template error: ".to_owned();
            message.append(e.as_str());
            Err(message)
        },
    }
}

/// The answer to a request for the board.
pub fn library_groups_list(board: Result<String, String>) -> (response: UiResponse)
    ensures
        response@ == match board {
            Ok(body) => (ResponseView { status: StatusCode::OK, html: true, body: body@ }),
            Err(message) => alert_response(StatusCode::INTERNAL_SERVER_ERROR, message@),
        },
{
    match board {
        Ok(body) => UiResponse { status: StatusCode::OK, html: true, body },
        Err(message) => alert_of(StatusCode::INTERNAL_SERVER_ERROR, message.as_str()),
    }
}

/// The answer to a change that shows the board.
pub fn show_board(board: Result<String, String>) -> (response: UiResponse)
    ensures
        response@ == match board {
            Ok(body) => (ResponseView { status: StatusCode::OK, html: true, body: body@ }),
            Err(message) => (ResponseView {
                status: StatusCode::INTERNAL_SERVER_ERROR,
                html: false,
                body: message@,
            }),
        },
{
    match board {
        Ok(body) => UiResponse { status: StatusCode::OK, html: true, body },
        Err(message) => UiResponse {
            status: StatusCode::INTERNAL_SERVER_ERROR,
            html: false,
            body: message,
        },
    }
}

/// The name that a form asks for: what is left between white space, where
/// anything is.
pub open spec fn asked_name(name: Seq<char>) -> Option<Seq<char>> {
    if text::all_white(name) {
        None
    } else {
        Some(text::trimmed(name))
    }
}

fn name_or(name: &str, missing: &str) -> (result: Result<String, UiResponse>)
    ensures
        match result {
            Ok(asked) => asked_name(name@) == Some(asked@),
            Err(response) => asked_name(name@) is None && response@ == alert_response(
                StatusCode::BAD_REQUEST,
                missing@,
            ),
        },
{
    let asked = trim(name);
    proof {
        text::lemma_trimmed_empty(name@);
    }
    if asked.as_str().is_empty() {
        Err(alert_of(StatusCode::BAD_REQUEST, missing))
    } else {
        Ok(asked)
    }
}

/// A request to create a group: the name to create it under.
pub fn create_group(form: &CreateGroupForm) -> (result: Result<String, UiResponse>)
    ensures
        match result {
            Ok(name) => asked_name(form.name@) == Some(name@),
            Err(response) => asked_name(form.name@) is None && response@ == alert_response(
                StatusCode::BAD_REQUEST,
                "Group name is required"@,
            ),
        },
{
    name_or(form.name.as_str(), "Group name is required")
}

/// The group was created, or could not be: a name that is taken is told apart.
pub fn group_created(created: Result<(), String>) -> (outcome: Outcome)
    ensures
        outcome_view(outcome) == match created {
            Ok(_) => None,
            Err(e) => Some(
                alert_response(
                    StatusCode::BAD_REQUEST,
                    if text::occurs(e@, "UNIQUE constraint failed"@) {
                        "A group with that name already exists"@
                    } else {
                        "Failed to create library group"@
                    },
                ),
            ),
        },
{
    match created {
        Ok(_) => Outcome::ShowBoard,
        Err(e) => {
            let message = if contains_text(e.as_str(), "UNIQUE constraint failed") {
                "A group with that name already exists"
            } else {
                "Failed to create library group"
            };
            Outcome::Respond(alert_of(StatusCode::BAD_REQUEST, message))
        },
    }
}

/// What a change that found its object, missed it or failed is answered.
pub open spec fn change_view(
    changed: Result<bool, String>,
    missing: Seq<char>,
    failed: Seq<char>,
) -> Option<ResponseView> {
    match changed {
        Ok(true) => None,
        Ok(false) => Some(alert_response(StatusCode::NOT_FOUND, missing)),
        Err(_) => Some(alert_response(StatusCode::INTERNAL_SERVER_ERROR, failed)),
    }
}

fn change_outcome(changed: Result<bool, String>, missing: &str, failed: &str) -> (outcome: Outcome)
    ensures
        outcome_view(outcome) == change_view(changed, missing@, failed@),
{
    match changed {
        Ok(true) => Outcome::ShowBoard,
        Ok(false) => Outcome::Respond(alert_of(StatusCode::NOT_FOUND, missing)),
        Err(_) => Outcome::Respond(alert_of(StatusCode::INTERNAL_SERVER_ERROR, failed)),
    }
}

/// The group was deleted, was not there or could not be deleted.
pub fn delete_group(deleted: Result<bool, String>) -> (outcome: Outcome)
    ensures
        outcome_view(outcome) == change_view(
            deleted,
            "Group not found"@,
            "Failed to delete group"@,
        ),
{
    change_outcome(deleted, "Group not found", "Failed to delete group")
}

/// A request to rename a group: the name that it is to have.
pub fn rename_group(form: &RenameGroupForm) -> (result: Result<String, UiResponse>)
    ensures
        match result {
            Ok(name) => asked_name(form.name@) == Some(name@),
            Err(response) => asked_name(form.name@) is None && response@ == alert_response(
                StatusCode::BAD_REQUEST,
                "Display name is required"@,
            ),
        },
{
    name_or(form.name.as_str(), "Display name is required")
}

/// The group was renamed, was not there or could not be renamed.
pub fn group_renamed(renamed: Result<bool, String>) -> (outcome: Outcome)
    ensures
        outcome_view(outcome) == change_view(
            renamed,
            "Group not found"@,
            "Failed to rename group"@,
        ),
{
    change_outcome(renamed, "Group not found", "Failed to rename group")
}

/// The library was taken out of its group, was not in it or could not be taken
/// out.
pub fn remove_member(removed: Result<bool, String>) -> (outcome: Outcome)
    ensures
        outcome_view(outcome) == change_view(
            removed,
            "Library assignment not found"@,
            "Failed to remove library"@,
        ),
{
    change_outcome(removed, "Library assignment not found", "Failed to remove library")
}

/// A request to assign a library, once the library has been looked up: what to
/// add to the group.
pub fn assign_library(
    form: AssignLibraryForm,
    found: Result<Option<StoredLibrary>, String>,
) -> (result: Result<NewMember, UiResponse>)
    ensures
        match found {
            Ok(Some(library)) => result == Ok::<NewMember, UiResponse>(
                NewMember {
                    group_virtual_id: form.group_virtual_id,
                    server_id: form.server_id,
                    library_id: form.library_id,
                    library_name: library.name,
                    collection_type: library.collection_type,
                },
            ),
            Ok(None) => result matches Err(response) && response@ == alert_response(
                StatusCode::NOT_FOUND,
                "Real library not found."@,
            ),
            Err(_) => result matches Err(response) && response@ == alert_response(
                StatusCode::INTERNAL_SERVER_ERROR,
                "Failed to assign library."@,
            ),
        },
{
    match found {
        Ok(Some(library)) => Ok(
            NewMember {
                group_virtual_id: form.group_virtual_id,
                server_id: form.server_id,
                library_id: form.library_id,
                library_name: library.name,
                collection_type: library.collection_type,
            },
        ),
        Ok(None) => Err(alert_of(StatusCode::NOT_FOUND, "Real library not found.")),
        Err(_) => Err(
            alert_of(StatusCode::INTERNAL_SERVER_ERROR, "Failed to assign library."),
        ),
    }
}

/// What a failed assignment is answered.
pub open spec fn assign_error_view(error: AssignLibraryError) -> ResponseView {
    match error {
        AssignLibraryError::CollectionTypeMismatch { group_type, library_type } => alert_response(
            StatusCode::CONFLICT,
            "This virtual library contains "@ + group_type@ + " libraries, not "@ + library_type@
                + " libraries."@,
        ),
        AssignLibraryError::MissingCollectionType => alert_response(
            StatusCode::BAD_REQUEST,
            "The library type is required."@,
        ),
        AssignLibraryError::GroupNotFound => alert_response(
            StatusCode::NOT_FOUND,
            "Virtual library not found."@,
        ),
        AssignLibraryError::Database(_) => alert_response(
            StatusCode::INTERNAL_SERVER_ERROR,
            "Failed to assign library."@,
        ),
    }
}

/// The library was assigned, or could not be.
pub fn library_assigned(assigned: Result<(), AssignLibraryError>) -> (outcome: Outcome)
    ensures
        outcome_view(outcome) == match assigned {
            Ok(_) => None,
            Err(error) => Some(assign_error_view(error)),
        },
{
    match assigned {
        Ok(_) => Outcome::ShowBoard,
        Err(AssignLibraryError::CollectionTypeMismatch { group_type, library_type }) => {
            let mut message = "This virtual library contains ".to_owned();
            message.append(group_type.as_str());
            message.append(" libraries, not ");
            message.append(library_type.as_str());
            message.append(" libraries.");
            Outcome::Respond(alert_of(StatusCode::CONFLICT, message.as_str()))
        },
        Err(AssignLibraryError::MissingCollectionType) => Outcome::Respond(
            alert_of(StatusCode::BAD_REQUEST, "The library type is required."),
        ),
        Err(AssignLibraryError::GroupNotFound) => Outcome::Respond(
            alert_of(StatusCode::NOT_FOUND, "Virtual library not found."),
        ),
        Err(AssignLibraryError::Database(_)) => Outcome::Respond(
            alert_of(StatusCode::INTERNAL_SERVER_ERROR, "Failed to assign library."),
        ),
    }
}

/// A name that a form asks for is never empty, and neither begins nor ends with
/// white space; asking for it again asks for the same name.
pub proof fn law_asked_names_are_trimmed(name: Seq<char>)
    requires
        asked_name(name) is Some,
    ensures
        ({
            let asked = asked_name(name).unwrap();
            &&& asked.len() > 0
            &&& !text::is_white(asked[0]) && !text::is_white(asked.last())
            &&& asked_name(asked) == Some(asked)
        }),
{
    text::lemma_trimmed_empty(name);
    text::lemma_trimmed_ends(name);
    text::lemma_trimmed_empty(text::trimmed(name));
}

} // verus!
