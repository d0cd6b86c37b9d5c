//! Keeps a pool of addresses for a team: each address with its domain, its
//! open ports, whether it is in use and a description. Commands add, show,
//! change and list the entries, and hand out a free address that has the
//! ports asked for.

use vstd::prelude::*;
use crate::dialogs::{add_dialog, edit_dialog, generate_add_dialog, generate_edit_dialog};
use crate::error::{Error, ErrorView};
use crate::allocation::allocation;
use crate::codec::decoded;
use crate::ip::{EntryView, issue, list};
use crate::search::search;
use crate::messages::{generate_get_message, generate_list_message, get_message, list_message};
use crate::settings::Settings;
use crate::slack::{AttachedMessage, AttachmentView};
use crate::slack::dialog::{Dialog, DialogView, Submission};
use crate::slack::slash_command::Request;
use crate::store::{Store, found, stored};
use crate::text::{chars_of, numbers, parse_numbers, same_text, split, split_chars};

pub mod allocation;
pub mod app;
pub mod codec;
pub mod dialogs;
pub mod error;
pub mod ip;
pub mod messages;
pub mod search;
pub mod settings;
pub mod slack;
pub mod store;
pub mod text;

verus! {

/// What a command is answered with.
#[derive(Debug, PartialEq, Eq)]
pub enum Response {
    PlainText(String),
    /// A dialog to open for the person who gave the command.
    Dialog(Dialog),
    AttachedMessage(AttachedMessage),
}

/// What an answer holds, as mathematical values.
pub enum ResponseView {
    PlainText(Seq<char>),
    Dialog(DialogView),
    AttachedMessage(Seq<AttachmentView>),
}

impl View for Response {
    type V = ResponseView;

    open spec fn view(&self) -> ResponseView {
        match self {
            Response::PlainText(t) => ResponseView::PlainText(t@),
            Response::Dialog(d) => ResponseView::Dialog(d@),
            Response::AttachedMessage(m) => ResponseView::AttachedMessage(m@),
        }
    }
}

/// What the outcome of a command holds.
pub open spec fn outcome_view(r: Result<Response, Error>) -> Result<ResponseView, ErrorView> {
    match r {
        Ok(response) => Ok(response@),
        Err(e) => Err(e@),
    }
}

/// The answer to `get`: the entry stored under the address given.
pub open spec fn get_reply(query: Seq<char>, entries: Seq<EntryView>) -> ResponseView {
    if query.len() == 0 {
        ResponseView::PlainText("Invalid argument"@)
    } else {
        match found(entries, query) {
            Some(e) => ResponseView::AttachedMessage(get_message(e)),
            None => ResponseView::PlainText("IP not found"@),
        }
    }
}

/// The answer to `edit`: the dialog to change the entry stored under the
/// address given.
pub open spec fn edit_reply(query: Seq<char>, entries: Seq<EntryView>) -> ResponseView {
    if query.len() == 0 {
        ResponseView::PlainText("Invalid argument"@)
    } else {
        match found(entries, query) {
            Some(e) => ResponseView::Dialog(edit_dialog(e)),
            None => ResponseView::PlainText("IP not found"@),
        }
    }
}

/// The answer to `list`: the results of the search.
pub open spec fn list_reply(query: Seq<char>, entries: Seq<EntryView>) -> ResponseView {
    if search(entries, query).len() == 0 {
        ResponseView::PlainText("IP not found"@)
    } else {
        ResponseView::AttachedMessage(list_message(query, search(entries, query)))
    }
}

/// The ports that the text of an `issue` command asks for: the pieces
/// between single spaces that are numerals.
pub open spec fn wanted_ports(ports: Seq<char>) -> Seq<u32> {
    numbers(split(ports, ' '))
}

/// The answer to `issue`: the dialog to change the entry handed out.
pub open spec fn issue_reply(ports: Seq<char>, entries: Seq<EntryView>) -> ResponseView {
    match allocation(entries, wanted_ports(ports)) {
        Some(e) => ResponseView::Dialog(edit_dialog(e)),
        None => ResponseView::PlainText("No available IP"@),
    }
}

/// The outcome of the command named `command` with the text `text`, sent
/// with `token` where `expected` is the token agreed on.
pub open spec fn command_outcome(
    command: Seq<char>,
    token: Seq<char>,
    text: Seq<char>,
    expected: Seq<char>,
    entries: Seq<EntryView>,
) -> Result<ResponseView, ErrorView> {
    if expected != token {
        Err(ErrorView::InvalidToken)
    } else if command == "add"@ {
        Ok(ResponseView::Dialog(add_dialog()))
    } else if command == "get"@ {
        Ok(get_reply(text, entries))
    } else if command == "edit"@ {
        Ok(edit_reply(text, entries))
    } else if command == "list"@ {
        Ok(list_reply(text, entries))
    } else if command == "issue"@ {
        Ok(issue_reply(text, entries))
    } else {
        Err(ErrorView::CommandNotFound(command))
    }
}

fn add_command() -> (r: Response)
    ensures
        r@ == ResponseView::Dialog(add_dialog()),
{
    Response::Dialog(generate_add_dialog())
}

fn get_command(query: &str, store: &Store) -> (r: Response)
    ensures
        r@ == get_reply(query@, store@),
{
    if query.is_empty() {
        return Response::PlainText("Invalid argument".to_owned());
    }
    match crate::ip::get(query, store) {
        Some(e) => Response::AttachedMessage(generate_get_message(e)),
        None => Response::PlainText("IP not found".to_owned()),
    }
}

fn edit_command(query: &str, store: &Store) -> (r: Response)
    ensures
        r@ == edit_reply(query@, store@),
{
    if query.is_empty() {
        return Response::PlainText("Invalid argument".to_owned());
    }
    match crate::ip::get(query, store) {
        Some(e) => Response::Dialog(generate_edit_dialog(e)),
        None => Response::PlainText("IP not found".to_owned()),
    }
}

fn list_command(query: &str, store: &Store) -> (r: Response)
    ensures
        r@ == list_reply(query@, store@),
{
    let entries = list(query, store);
    if entries.len() == 0 {
        return Response::PlainText("IP not found".to_owned());
    }
    Response::AttachedMessage(generate_list_message(query, entries))
}

fn issue_command(ports: &str, store: &Store) -> (r: Response)
    ensures
        r@ == issue_reply(ports@, store@),
{
    let wanted = parse_numbers(&split_chars(&chars_of(ports), ' '));
    match issue(wanted.as_slice(), store) {
        Some(e) => Response::Dialog(generate_edit_dialog(e)),
        None => Response::PlainText("No available IP".to_owned()),
    }
}

/// Answers the command named `command`. A request without the agreed
/// token is refused, and so is a command that is not one of `add`, `get`,
/// `edit`, `list` and `issue`; every other request is answered.
pub fn handle_command(command: &str, data: Request, settings: &Settings, store: &Store) -> (r:
    Result<Response, Error>)
    ensures
        outcome_view(r) == command_outcome(
            command@,
            data.token@,
            data.text@,
            settings.verification_token@,
            store@,
        ),
{
    if !same_text(settings.verification_token.as_str(), data.token.as_str()) {
        return Err(Error::InvalidToken);
    }
    if same_text(command, "add") {
        Ok(add_command())
    } else if same_text(command, "get") {
        Ok(get_command(data.text.as_str(), store))
    } else if same_text(command, "edit") {
        Ok(edit_command(data.text.as_str(), store))
    } else if same_text(command, "list") {
        Ok(list_command(data.text.as_str(), store))
    } else if same_text(command, "issue") {
        Ok(issue_command(data.text.as_str(), store))
    } else {
        Err(Error::CommandNotFound(command.to_owned()))
    }
}

/// Why a filled dialog is refused, if it is.
pub open spec fn submission_error(
    token: Seq<char>,
    submission_type: Seq<char>,
    callback_id: Seq<char>,
    expected: Seq<char>,
) -> Option<ErrorView> {
    if expected != token {
        Some(ErrorView::InvalidToken)
    } else if submission_type != "dialog_submission"@ {
        Some(ErrorView::InvalidSubmission)
    } else if callback_id != "add"@ && callback_id != "edit"@ {
        Some(ErrorView::SubmissionNotFound(callback_id))
    } else {
        None
    }
}

fn add_submission(submission: Submission, store: &mut Store)
    ensures
        final(store)@ == stored(old(store)@, decoded(submission.submission@)),
        old(store).wf() ==> final(store).wf(),
{
    let entry = submission.submission.into();
    crate::ip::add(&entry, store);
}

fn edit_submission(submission: Submission, store: &mut Store)
    ensures
        final(store)@ == stored(old(store)@, decoded(submission.submission@)),
        old(store).wf() ==> final(store).wf(),
{
    let entry = submission.submission.into();
    crate::ip::add(&entry, store);
}

/// Takes in a filled dialog. One that comes with the agreed token, is a
/// dialog submission and comes back under `add` or `edit` has its entry
/// written to the store, in place of the entry with that address if there
/// is one. Any other is refused, and the store stays as it was.
pub fn handle_submission(submission: Submission, settings: &Settings, store: &mut Store) -> (r:
    Result<(), Error>)
    ensures
        match submission_error(
            submission.token@,
            submission.submission_type@,
            submission.callback_id@,
            settings.verification_token@,
        ) {
            Some(e) => r is Err && r->Err_0@ == e && final(store)@ == old(store)@,
            None => r is Ok && final(store)@ == stored(
                old(store)@,
                decoded(submission.submission@),
            ),
        },
        old(store).wf() ==> final(store).wf(),
{
    if !same_text(settings.verification_token.as_str(), submission.token.as_str()) {
        return Err(Error::InvalidToken);
    }
    if !same_text(submission.submission_type.as_str(), "dialog_submission") {
        return Err(Error::InvalidSubmission);
    }
    if same_text(submission.callback_id.as_str(), "add") {
        add_submission(submission, store);
        Ok(())
    } else if same_text(submission.callback_id.as_str(), "edit") {
        edit_submission(submission, store);
        Ok(())
    } else {
        Err(Error::SubmissionNotFound(submission.callback_id))
    }
}

} // verus!
