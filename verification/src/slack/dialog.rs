//! Dialogs: the forms that a person fills in, and what comes back from
//! them.

use vstd::prelude::*;
use crate::error::{Error, ErrorView};
use crate::ip::RawEntry;
use crate::slack::{Channel, Team, User};
use crate::slack::dialog::element::{Element, ElementView};
use crate::text::views;

pub mod element;

verus! {

/// The request to open a dialog.
#[derive(Debug, PartialEq, Eq)]
pub struct OpenRequest {
    pub token: String,
    pub dialog: Dialog,
    pub trigger_id: String,
}

/// The platform's answer to a request to open a dialog.
#[derive(Debug, PartialEq, Eq)]
pub struct OpenResponse {
    pub ok: bool,
}

/// A form: a title and the elements to fill in.
#[derive(Debug, PartialEq, Eq)]
pub struct Dialog {
    /// The name under which the filled form comes back.
    pub callback_id: String,
    pub title: String,
    pub elements: Vec<Element>,
}

/// What a dialog holds, as mathematical values.
pub struct DialogView {
    pub callback_id: Seq<char>,
    pub title: Seq<char>,
    pub elements: Seq<ElementView>,
}

impl View for Dialog {
    type V = DialogView;

    open spec fn view(&self) -> DialogView {
        DialogView {
            callback_id: self.callback_id@,
            title: self.title@,
            elements: views(self.elements@),
        }
    }
}

impl Dialog {
    /// A dialog without elements.
    pub fn new(callback_id: String, title: String) -> (d: Dialog)
        ensures
            d@ == (DialogView {
                callback_id: callback_id@,
                title: title@,
                elements: Seq::<ElementView>::empty(),
            }),
    {
        let d = Dialog { callback_id, title, elements: Vec::new() };
        assert(d@.elements =~= Seq::<ElementView>::empty());
        d
    }
}

/// The form in which a filled dialog arrives: one text to be read.
#[derive(Debug, PartialEq, Eq)]
pub struct SubmissionResponse {
    pub payload: String,
}

/// A filled dialog.
#[derive(Debug, PartialEq, Eq)]
pub struct Submission {
    /// The kind of event; `dialog_submission` for a filled dialog.
    pub submission_type: String,
    pub submission: RawEntry,
    pub callback_id: String,
    pub team: Team,
    pub user: User,
    pub channel: Channel,
    pub action_ts: String,
    pub token: String,
}

/// What is wrong with one element of a filled dialog.
#[derive(Debug, PartialEq, Eq)]
pub struct SubmissionError {
    pub name: String,
    pub error: String,
}

/// The arguments of the call that opens a dialog: the token, the dialog as
/// written out by the caller, and the trigger.
pub open spec fn open_arguments_of(
    token: Seq<char>,
    dialog: Seq<char>,
    trigger_id: Seq<char>,
) -> Seq<(Seq<char>, Seq<char>)> {
    seq![("token"@, token), ("dialog"@, dialog), ("trigger_id"@, trigger_id)]
}

/// The arguments of the call that opens a dialog; `dialog` is the dialog
/// as the caller has written it out.
pub fn open_arguments(token: String, dialog: String, trigger_id: String) -> (r: Vec<
    (String, String),
>)
    ensures
        crate::slack::pairs_of(r@) == open_arguments_of(token@, dialog@, trigger_id@),
{
    let mut r: Vec<(String, String)> = Vec::new();
    r.push(("token".to_owned(), token));
    r.push(("dialog".to_owned(), dialog));
    r.push(("trigger_id".to_owned(), trigger_id));
    assert(crate::slack::pairs_of(r@) =~= open_arguments_of(token@, dialog@, trigger_id@));
    r
}

/// Whether the platform opened the dialog: an answer that is not `ok` is
/// an error.
pub fn open(response: &OpenResponse) -> (r: Result<(), Error>)
    ensures
        response.ok ==> r is Ok,
        !response.ok ==> r is Err && r->Err_0@ == ErrorView::BadResponse,
{
    if !response.ok {
        return Err(Error::BadResponse);
    }
    Ok(())
}

} // verus!
