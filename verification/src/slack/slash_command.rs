//! A command as the chat platform sends it, and the reply it takes.

use vstd::prelude::*;

verus! {

/// A command typed by a person, with where it came from.
#[derive(Debug, PartialEq, Eq)]
pub struct Request {
    /// The token by which the platform shows that the request is its own.
    pub token: String,
    pub team_id: String,
    pub team_domain: String,
    pub channel_id: String,
    pub channel_name: String,
    pub user_id: String,
    pub user_name: String,
    /// What was typed after the command's name.
    pub text: String,
    pub response_url: String,
    /// The handle under which a dialog can be opened for this command.
    pub trigger_id: String,
}

#[derive(Debug, PartialEq, Eq)]
pub struct Response {
    pub response_type: String,
    pub text: String,
    pub attachments: ResponseAttachments,
}

#[derive(Debug, PartialEq, Eq)]
pub struct ResponseAttachments {
    pub fallback: String,
    pub color: String,
    pub pretext: String,
    pub title: String,
    pub text: String,
    pub fields: Vec<AttachmentField>,
}

#[derive(Debug, PartialEq, Eq)]
pub struct AttachmentField {
    pub title: String,
    pub value: String,
    pub short: bool,
}

} // verus!
